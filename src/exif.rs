use vstd::prelude::*;

verus! {

/// An instant: seconds since the Unix epoch and the nanoseconds past them.
#[derive(Clone, Copy, Debug, PartialEq, Eq, Structural)]
pub struct Stamp {
    pub secs: i64,
    pub nanos: u32,
}

/// Why no capture date came out of a file.
#[derive(Debug)]
pub enum DateError {
    /// The file holds no EXIF capture-date tag.
    NotFound,
    /// The tag holds text in neither known encoding; the text is kept.
    Format(String),
}

/// The tag of the EXIF sub-directory in the first image directory.
pub const EXIF_IFD_TAG: u16 = 0x8769;

/// The tag of the date the image was stored digitally (`CreateDate`) in the
/// EXIF sub-directory.
pub const DATE_TAG: u16 = 0x9004;

pub open spec fn u16_at(t: Seq<u8>, le: bool, i: int) -> int {
    if le {
        t[i] as int + 256 * t[i + 1] as int
    } else {
        256 * t[i] as int + t[i + 1] as int
    }
}

pub open spec fn u32_at(t: Seq<u8>, le: bool, i: int) -> int {
    if le {
        u16_at(t, true, i) + 65536 * u16_at(t, true, i + 2)
    } else {
        65536 * u16_at(t, false, i) + u16_at(t, false, i + 2)
    }
}

/// Where the TIFF structure starts: after the 12 header bytes of a JPEG
/// file, at the first byte otherwise.
pub open spec fn tiff_start(b: Seq<u8>) -> int {
    if b.len() >= 2 && b[0] == 0xffu8 && b[1] == 0xd8u8 {
        12
    } else {
        0
    }
}

/// The byte order that a TIFF header announces: `II` little, `MM` big.
pub open spec fn byte_order(t: Seq<u8>) -> Option<bool> {
    if t.len() >= 2 && t[0] == 0x49u8 && t[1] == 0x49u8 {
        Some(true)
    } else if t.len() >= 2 && t[0] == 0x4du8 && t[1] == 0x4du8 {
        Some(false)
    } else {
        None
    }
}

/// The offset of the last complete entry among the first `n` entries of
/// the directory at `ifd` that carries `tag`.
pub open spec fn find_entry(t: Seq<u8>, le: bool, ifd: int, tag: int, n: nat) -> Option<int>
    decreases n,
{
    if n == 0 {
        None
    } else {
        let e = ifd + 2 + 12 * (n - 1);
        if e + 12 <= t.len() && u16_at(t, le, e) == tag {
            Some(e)
        } else {
            find_entry(t, le, ifd, tag, (n - 1) as nat)
        }
    }
}

/// The 32-bit value of the entry with `tag` in the directory at `ifd`.
pub open spec fn lookup(t: Seq<u8>, le: bool, ifd: int, tag: int) -> Option<int> {
    if 0 <= ifd && ifd + 2 <= t.len() {
        match find_entry(t, le, ifd, tag, u16_at(t, le, ifd) as nat) {
            Some(e) => Some(u32_at(t, le, e + 8)),
            None => None,
        }
    } else {
        None
    }
}

/// The first index from `i` on that holds a zero byte, or the length.
pub open spec fn nul_from(t: Seq<u8>, i: int) -> int
    decreases t.len() - i,
{
    if i >= t.len() {
        t.len() as int
    } else if t[i] == 0 {
        i
    } else {
        nul_from(t, i + 1)
    }
}

/// The bytes of the capture-date tag: the TIFF directory, then its EXIF
/// sub-directory, then the text that the date tag points at, up to a zero
/// byte.
pub open spec fn date_field(b: Seq<u8>) -> Option<Seq<u8>> {
    let s = tiff_start(b);
    if s > b.len() {
        None
    } else {
        let t = b.subrange(s, b.len() as int);
        match byte_order(t) {
            None => None,
            Some(le) => if t.len() < 8 {
                None
            } else {
                match lookup(t, le, u32_at(t, le, 4), EXIF_IFD_TAG as int) {
                    None => None,
                    Some(sub) => match lookup(t, le, sub, DATE_TAG as int) {
                        None => None,
                        Some(at) => if at <= t.len() {
                            Some(t.subrange(at, nul_from(t, at)))
                        } else {
                            None
                        },
                    },
                }
            },
        }
    }
}

/// Each byte read as the character of the same code.
pub open spec fn latin1(f: Seq<u8>) -> Seq<char> {
    f.map_values(|x: u8| x as char)
}

/// The bytes that read as white space: tab to carriage return, space,
/// next line and no-break space.
pub open spec fn is_space(x: u8) -> bool {
    x == 32u8 || (9u8 <= x && x <= 13u8) || x == 0x85u8 || x == 0xa0u8
}

pub open spec fn first_solid(s: Seq<u8>, i: int) -> int
    decreases s.len() - i,
{
    if i >= s.len() {
        s.len() as int
    } else if !is_space(s[i]) {
        i
    } else {
        first_solid(s, i + 1)
    }
}

pub open spec fn end_solid(s: Seq<u8>, lo: int, j: int) -> int
    decreases j - lo,
{
    if j <= lo {
        lo
    } else if is_space(s[j - 1]) {
        end_solid(s, lo, j - 1)
    } else {
        j
    }
}

/// `s` without white space at either end.
pub open spec fn trimmed(s: Seq<u8>) -> Seq<u8> {
    let lo = first_solid(s, 0);
    s.subrange(lo, end_solid(s, lo, s.len() as int))
}

/// The text of the capture-date tag, if the file holds one.
pub open spec fn date_text(b: Seq<u8>) -> Option<Seq<char>> {
    match date_field(b) {
        Some(f) => Some(latin1(trimmed(f))),
        None => None,
    }
}

/// The instant that a date-time with an explicit offset names.
pub uninterp spec fn offset_instant(s: Seq<char>) -> Option<Stamp>;

/// Relies on chrono's `FromStr` for `DateTime<Local>`: it parses an RFC 3339
/// date-time with its offset and only then moves it to the local zone, so
/// the instant depends on the text alone.
#[verifier::external_body]
fn parse_with_offset(s: &str) -> (r: Option<Stamp>)
    ensures
        r == offset_instant(s@),
{
    match s.parse::<chrono::DateTime<chrono::Local>>() {
        Ok(d) => Some(Stamp { secs: d.timestamp(), nanos: d.timestamp_subsec_nanos() }),
        Err(_) => None,
    }
}

/// Relies on chrono's `TimeZone::datetime_from_str` for `Local` with the
/// format `%Y:%m:%d %H:%M:%S`: the text read as civil time in the zone of
/// the machine, which no contract can name.
#[verifier::external_body]
#[allow(deprecated)]
fn parse_exif_local(s: &str) -> (r: Option<Stamp>) {
    match <chrono::Local as chrono::TimeZone>::datetime_from_str(
        &chrono::Local,
        s,
        "%Y:%m:%d %H:%M:%S",
    ) {
        Ok(d) => Some(Stamp { secs: d.timestamp(), nanos: d.timestamp_subsec_nanos() }),
        Err(_) => None,
    }
}

/// Relies on `String::push`: appends one character.
#[verifier::external_body]
fn push_char(s: &mut String, c: char)
    ensures
        final(s)@ == old(s)@.push(c),
{
    s.push(c)
}

/// Picks the date: the reading with an explicit offset first, then the
/// local EXIF reading; with neither, the error keeps the text.
pub fn choose_date(raw: &String, with_offset: Option<Stamp>, local: Option<Stamp>) -> (r: Result<
    Stamp,
    DateError,
>)
    ensures
        match (with_offset, local) {
            (Some(d), _) => r == Ok::<Stamp, DateError>(d),
            (None, Some(d)) => r == Ok::<Stamp, DateError>(d),
            (None, None) => r is Err && r->Err_0 is Format && r->Err_0->Format_0@ == raw@,
        },
{
    match with_offset {
        Some(d) => Ok(d),
        None => match local {
            Some(d) => Ok(d),
            None => Err(DateError::Format(raw.clone())),
        },
    }
}

/// Reads the text of a capture-date tag: as a date-time with an offset,
/// else as `YYYY:MM:DD HH:MM:SS` in the local zone.
pub fn date_from_text(raw: &String) -> (r: Result<Stamp, DateError>)
    ensures
        offset_instant(raw@) is Some ==> r == Ok::<Stamp, DateError>(offset_instant(raw@)->0),
        r is Err ==> r->Err_0 is Format && r->Err_0->Format_0@ == raw@,
{
    let with_offset = parse_with_offset(raw.as_str());
    if with_offset.is_some() {
        return choose_date(raw, with_offset, None);
    }
    let local = parse_exif_local(raw.as_str());
    choose_date(raw, with_offset, local)
}

fn u16_of(t: &[u8], le: bool, i: usize) -> (r: u16)
    requires
        i + 2 <= t@.len(),
    ensures
        r as int == u16_at(t@, le, i as int),
{
    let x = t[i] as u16;
    let y = t[i + 1] as u16;
    if le {
        x + 256 * y
    } else {
        256 * x + y
    }
}

fn u32_of(t: &[u8], le: bool, i: usize) -> (r: u32)
    requires
        i + 4 <= t@.len(),
    ensures
        r as int == u32_at(t@, le, i as int),
{
    let _len = t.len();
    let lo = u16_of(t, le, i) as u32;
    let hi = u16_of(t, le, i + 2) as u32;
    if le {
        lo + 65536 * hi
    } else {
        65536 * lo + hi
    }
}

fn find_entry_in(t: &[u8], le: bool, ifd: usize, tag: u16, n: u16) -> (r: Option<usize>)
    requires
        ifd + 2 <= t@.len(),
    ensures
        match r {
            Some(e) => find_entry(t@, le, ifd as int, tag as int, n as nat) == Some(e as int) && e
                + 12 <= t@.len(),
            None => find_entry(t@, le, ifd as int, tag as int, n as nat) is None,
        },
{
    let mut found: Option<usize> = None;
    let mut j: u16 = 0;
    while j < n
        invariant
            0 <= j <= n,
            ifd + 2 <= t@.len(),
            match found {
                Some(e) => find_entry(t@, le, ifd as int, tag as int, j as nat) == Some(e as int) && e
                    + 12 <= t@.len(),
                None => find_entry(t@, le, ifd as int, tag as int, j as nat) is None,
            },
        decreases n - j,
    {
        let room: usize = t.len() - ifd - 2;
        let used: usize = 12 * (j as usize);
        if used + 12 <= room {
            let e: usize = ifd + 2 + used;
            if u16_of(t, le, e) == tag {
                found = Some(e);
            }
        }
        j = j + 1;
    }
    found
}

fn lookup_in(t: &[u8], le: bool, ifd: u64, tag: u16) -> (r: Option<u64>)
    requires
        ifd <= 0xffff_ffffu64,
    ensures
        match lookup(t@, le, ifd as int, tag as int) {
            Some(v) => r == Some(v as u64),
            None => r is None,
        },
{
    let _len = t.len();
    if ifd + 2 <= t.len() as u64 {
        let n = u16_of(t, le, ifd as usize);
        match find_entry_in(t, le, ifd as usize, tag, n) {
            Some(e) => Some(u32_of(t, le, e + 8) as u64),
            None => None,
        }
    } else {
        None
    }
}

fn date_field_of(b: &Vec<u8>) -> (r: Option<Vec<u8>>)
    ensures
        match date_field(b@) {
            Some(f) => r is Some && r->0@ == f,
            None => r is None,
        },
{
    let start: usize = if b.len() >= 2 && b[0] == 0xffu8 && b[1] == 0xd8u8 {
        12
    } else {
        0
    };
    if start > b.len() {
        return None;
    }
    let t = vstd::slice::slice_subrange(b.as_slice(), start, b.len());
    assert(t@ == b@.subrange(start as int, b@.len() as int));
    if t.len() < 8 {
        return None;
    }
    let le = if t[0] == 0x49u8 && t[1] == 0x49u8 {
        true
    } else if t[0] == 0x4du8 && t[1] == 0x4du8 {
        false
    } else {
        return None;
    };
    let ifd0 = u32_of(t, le, 4) as u64;
    let sub = match lookup_in(t, le, ifd0, EXIF_IFD_TAG) {
        Some(v) => v,
        None => {
            return None;
        },
    };
    let at = match lookup_in(t, le, sub, DATE_TAG) {
        Some(v) => v,
        None => {
            return None;
        },
    };
    if at > t.len() as u64 {
        return None;
    }
    let at = at as usize;
    let mut end: usize = at;
    while end < t.len() && t[end] != 0
        invariant
            at <= end <= t@.len(),
            nul_from(t@, at as int) == nul_from(t@, end as int),
        decreases t@.len() - end,
    {
        end = end + 1;
    }
    let mut f: Vec<u8> = Vec::new();
    let mut k: usize = at;
    while k < end
        invariant
            at <= k <= end <= t@.len(),
            f@ == t@.subrange(at as int, k as int),
        decreases end - k,
    {
        f.push(t[k]);
        assert(f@ =~= t@.subrange(at as int, k + 1));
        k = k + 1;
    }
    Some(f)
}

fn is_space_byte(x: u8) -> (r: bool)
    ensures
        r == is_space(x),
{
    x == 32u8 || (9u8 <= x && x <= 13u8) || x == 0x85u8 || x == 0xa0u8
}

/// The tag's bytes without surrounding white space, each read as the
/// character of the same code.
fn tag_text(f: &Vec<u8>) -> (r: String)
    ensures
        r@ == latin1(trimmed(f@)),
{
    let mut lo: usize = 0;
    while lo < f.len() && is_space_byte(f[lo])
        invariant
            lo <= f@.len(),
            first_solid(f@, 0) == first_solid(f@, lo as int),
        decreases f@.len() - lo,
    {
        lo = lo + 1;
    }
    let mut hi: usize = f.len();
    while hi > lo && is_space_byte(f[hi - 1])
        invariant
            lo <= hi <= f@.len(),
            lo == first_solid(f@, 0),
            end_solid(f@, lo as int, f@.len() as int) == end_solid(f@, lo as int, hi as int),
        decreases hi - lo,
    {
        hi = hi - 1;
    }
    let ghost want = trimmed(f@);
    assert(want == f@.subrange(lo as int, hi as int));
    let mut s = String::new();
    let mut k: usize = lo;
    while k < hi
        invariant
            lo <= k <= hi <= f@.len(),
            want == f@.subrange(lo as int, hi as int),
            s@ == latin1(f@.subrange(lo as int, k as int)),
        decreases hi - k,
    {
        push_char(&mut s, f[k] as char);
        assert(latin1(f@.subrange(lo as int, k + 1)) =~= latin1(f@.subrange(lo as int, k as int)).push(
            f[k as int] as char,
        ));
        k = k + 1;
    }
    s
}

/// Reads the capture date out of a file's bytes: the EXIF date tag, read
/// with an offset if it has one, else as local civil time.
pub fn read_creation_date(b: &Vec<u8>) -> (r: Result<Stamp, DateError>)
    ensures
        match date_text(b@) {
            None => r is Err && r->Err_0 is NotFound,
            Some(s) => {
                &&& offset_instant(s) is Some ==> r == Ok::<Stamp, DateError>(offset_instant(s)->0)
                &&& r is Err ==> r->Err_0 is Format && r->Err_0->Format_0@ == s
            },
        },
{
    match date_field_of(b) {
        None => Err(DateError::NotFound),
        Some(f) => {
            let s = tag_text(&f);
            date_from_text(&s)
        },
    }
}

} // verus!
