use crate::options::OptSet;
use vstd::prelude::*;
use vstd::utf8::encode_utf8;

verus! {

/// What the command line selects.
pub struct Args {
    /// Set the creation date.
    pub c: bool,
    /// Set the modification date.
    pub m: bool,
    /// Set the last access date.
    pub a: bool,
    /// List the files with their EXIF date; change nothing.
    pub list: bool,
    /// Specifications of the files to take in.
    pub files: Vec<String>,
    /// Specifications of the files to skip, given after `--`.
    pub exclude_files: Vec<String>,
}

/// The mathematical value of `Args`.
pub struct ArgsView {
    pub c: bool,
    pub m: bool,
    pub a: bool,
    pub list: bool,
    pub files: Seq<Seq<char>>,
    pub exclude_files: Seq<Seq<char>>,
}

pub open spec fn strings_view(v: Seq<String>) -> Seq<Seq<char>> {
    v.map_values(|s: String| s@)
}

impl View for Args {
    type V = ArgsView;

    open spec fn view(&self) -> ArgsView {
        ArgsView {
            c: self.c,
            m: self.m,
            a: self.a,
            list: self.list,
            files: strings_view(self.files@),
            exclude_files: strings_view(self.exclude_files@),
        }
    }
}

/// An argument that the command line does not know.
#[derive(Debug, PartialEq, Eq)]
pub enum ArgsError {
    Unknown(String),
}

pub open spec fn flags_of(a: ArgsView) -> OptSet {
    OptSet { a: a.a, m: a.m, c: a.c }
}

/// Sets one short flag; `None` for a letter that names no flag.
pub open spec fn short_flag(a: ArgsView, b: u8) -> Option<ArgsView> {
    if b == 109 {
        Some(ArgsView { m: true, ..a })
    } else if b == 97 {
        Some(ArgsView { a: true, ..a })
    } else if b == 99 {
        Some(ArgsView { c: true, ..a })
    } else if b == 108 {
        Some(ArgsView { list: true, ..a })
    } else {
        None
    }
}

/// Sets each short flag of a cluster such as `ma`, left to right.
pub open spec fn short_flags(a: ArgsView, bs: Seq<u8>) -> Option<ArgsView>
    decreases bs.len(),
{
    if bs.len() == 0 {
        Some(a)
    } else {
        match short_flags(a, bs.drop_last()) {
            Some(a1) => short_flag(a1, bs.last()),
            None => None,
        }
    }
}

pub open spec fn is_separator(b: Seq<u8>) -> bool {
    b == seq![45u8, 45u8]
}

pub open spec fn is_long_list(b: Seq<u8>) -> bool {
    b == seq![45u8, 45u8, 108u8, 105u8, 115u8, 116u8]
}

/// Reads one argument in state `(a, after)`, where `after` tells whether `--`
/// was seen. `None` when the argument is an unknown option.
pub open spec fn step(st: (ArgsView, bool), t: Seq<char>) -> Option<(ArgsView, bool)> {
    let a = st.0;
    let b = encode_utf8(t);
    if st.1 {
        Some((ArgsView { exclude_files: a.exclude_files.push(t), ..a }, true))
    } else if is_separator(b) {
        Some((a, true))
    } else if is_long_list(b) {
        Some((ArgsView { list: true, ..a }, false))
    } else if b.len() >= 2 && b[0] == 45u8 && b[1] == 45u8 {
        None
    } else if b.len() >= 2 && b[0] == 45u8 {
        match short_flags(a, b.subrange(1, b.len() as int)) {
            Some(a1) => Some((a1, false)),
            None => None,
        }
    } else {
        Some((ArgsView { files: a.files.push(t), ..a }, false))
    }
}

pub open spec fn empty_args() -> ArgsView {
    ArgsView {
        c: false,
        m: false,
        a: false,
        list: false,
        files: Seq::empty(),
        exclude_files: Seq::empty(),
    }
}

/// Reads the arguments left to right.
pub open spec fn read_args(ts: Seq<Seq<char>>) -> Option<(ArgsView, bool)>
    decreases ts.len(),
{
    if ts.len() == 0 {
        Some((empty_args(), false))
    } else {
        match read_args(ts.drop_last()) {
            Some(st) => step(st, ts.last()),
            None => None,
        }
    }
}

/// Turns every flag off.
pub open spec fn without_flags(a: ArgsView) -> ArgsView {
    ArgsView { m: false, a: false, c: false, ..a }
}

/// Turns every flag on when none is set.
pub open spec fn with_default_flags(a: ArgsView) -> ArgsView {
    if !a.m && !a.a && !a.c {
        ArgsView { m: true, a: true, c: true, ..a }
    } else {
        a
    }
}

/// The selection after defaults: `*` when no file is named; no flag in list
/// mode; every flag when none is named.
pub open spec fn with_defaults(a: ArgsView) -> ArgsView {
    let a1 = if a.files.len() == 0 {
        ArgsView { files: seq![seq!['*']], ..a }
    } else {
        a
    };
    if a1.list {
        without_flags(a1)
    } else {
        with_default_flags(a1)
    }
}

/// The selection that a command line (program name first) makes.
pub open spec fn parsed(v: Seq<Seq<char>>) -> Option<ArgsView> {
    let ts = if v.len() == 0 { v } else { v.drop_first() };
    match read_args(ts) {
        Some(st) => Some(with_defaults(st.0)),
        None => None,
    }
}

proof fn lemma_strings_push(v: Seq<String>, s: String)
    ensures
        strings_view(v.push(s)) == strings_view(v).push(s@),
{
    assert(strings_view(v.push(s)) =~= strings_view(v).push(s@));
}

impl Args {
    pub fn is_ok(&self) -> (r: bool)
        ensures
            r == (self.m || self.a || self.list || self.c),
    {
        self.m || self.a || self.list || self.c
    }

    pub fn set_flags_if_unset(&mut self)
        ensures
            final(self)@ == with_default_flags(old(self)@),
    {
        let f = self.flags();
        assert(f@.contains(crate::options::OptEnum::A) == self.a);
        assert(f@.contains(crate::options::OptEnum::M) == self.m);
        assert(f@.contains(crate::options::OptEnum::C) == self.c);
        if !self.m && !self.a && !self.c {
            assert(f@ =~= Set::<crate::options::OptEnum>::empty());
        }
        if f.is_empty() {
            self.m = true;
            self.a = true;
            self.c = true;
        }
    }

    pub fn unset_flags(&mut self)
        ensures
            final(self)@ == without_flags(old(self)@),
    {
        self.m = false;
        self.a = false;
        self.c = false;
    }

    pub fn flags(&self) -> (r: OptSet)
        ensures
            r == flags_of(self@),
    {
        OptSet { a: self.a, m: self.m, c: self.c }
    }

    fn empty() -> (r: Args)
        ensures
            r@ == empty_args(),
    {
        let r = Args {
            c: false,
            m: false,
            a: false,
            list: false,
            files: Vec::new(),
            exclude_files: Vec::new(),
        };
        assert(r@.files =~= Seq::<Seq<char>>::empty());
        assert(r@.exclude_files =~= Seq::<Seq<char>>::empty());
        r
    }

    /// Reads one argument that is not an option value; `Ok(true)` after `--`.
    fn read_one(&mut self, after: bool, t: &String) -> (r: Result<bool, ArgsError>)
        ensures
            match step((old(self)@, after), t@) {
                Some(st) => r == Ok::<bool, ArgsError>(st.1) && final(self)@ == st.0,
                None => r is Err,
            },
    {
        let b = t.as_str().as_bytes();
        let ghost bs = encode_utf8(t@);
        assert(b@ == bs);
        if after {
            let t1 = t.clone();
            proof {
                lemma_strings_push(self.exclude_files@, t1);
            }
            self.exclude_files.push(t1);
            return Ok(true);
        }
        if b.len() == 2 && b[0] == 45u8 && b[1] == 45u8 {
            assert(bs =~= seq![45u8, 45u8]);
            return Ok(true);
        }
        if b.len() == 6 && b[0] == 45u8 && b[1] == 45u8 && b[2] == 108u8 && b[3] == 105u8 && b[4]
            == 115u8 && b[5] == 116u8 {
            assert(bs =~= seq![45u8, 45u8, 108u8, 105u8, 115u8, 116u8]);
            self.list = true;
            return Ok(false);
        }
        assert(!is_separator(bs));
        assert(!is_long_list(bs));
        if b.len() >= 2 && b[0] == 45u8 && b[1] == 45u8 {
            return Err(ArgsError::Unknown(t.clone()));
        }
        if b.len() >= 2 && b[0] == 45u8 {
            let ghost start = self@;
            let mut j: usize = 1;
            while j < b.len()
                invariant
                    1 <= j <= b.len(),
                    b@ == bs,
                    bs == encode_utf8(t@),
                    !after,
                    start == old(self)@,
                    bs.len() >= 2 && bs[0] == 45u8 && bs[1] != 45u8,
                    !is_separator(bs),
                    !is_long_list(bs),
                    short_flags(start, bs.subrange(1, j as int)) == Some(self@),
                decreases b.len() - j,
            {
                assert(bs.subrange(1, j + 1).drop_last() =~= bs.subrange(1, j as int));
                let ch = b[j];
                if ch == 109u8 {
                    self.m = true;
                } else if ch == 97u8 {
                    self.a = true;
                } else if ch == 99u8 {
                    self.c = true;
                } else if ch == 108u8 {
                    self.list = true;
                } else {
                    assert(bs.subrange(1, j + 1).last() == ch);
                    assert(short_flags(start, bs.subrange(1, j + 1)) is None);
                    assert(short_flags(start, bs.subrange(1, bs.len() as int)) is None) by {
                        let tail = bs.subrange(1, bs.len() as int);
                        assert(tail.subrange(0, j as int) =~= bs.subrange(1, j + 1));
                        lemma_short_flags_none(start, tail, j as int);
                    }
                    return Err(ArgsError::Unknown(t.clone()));
                }
                assert(bs.subrange(1, j + 1).last() == ch);
                j = j + 1;
            }
            assert(bs.subrange(1, j as int) =~= bs.subrange(1, bs.len() as int));
            return Ok(false);
        }
        let t1 = t.clone();
        proof {
            lemma_strings_push(self.files@, t1);
        }
        self.files.push(t1);
        Ok(false)
    }

    /// Reads a command line, program name first, and applies the defaults:
    /// `*` when no file is named; no flag in list mode; every flag when none
    /// is named.
    pub fn parse_vec(v: Vec<String>) -> (r: Result<Args, ArgsError>)
        ensures
            match parsed(strings_view(v@)) {
                Some(a) => r is Ok && r->Ok_0@ == a,
                None => r is Err,
            },
    {
        let ghost sv = strings_view(v@);
        let ghost ts = if sv.len() == 0 { sv } else { sv.drop_first() };
        let mut args = Args::empty();
        let mut after = false;
        let first: usize = if v.len() == 0 { 0 } else { 1 };
        let mut i: usize = first;
        while i < v.len()
            invariant
                first <= i <= v.len(),
                first == (if v.len() == 0 { 0usize } else { 1usize }),
                sv == strings_view(v@),
                ts == if sv.len() == 0 { sv } else { sv.drop_first() },
                read_args(ts.take(i - first)) == Some((args@, after)),
            decreases v.len() - i,
        {
            assert(ts.take(i - first + 1).drop_last() =~= ts.take(i - first));
            assert(ts.take(i - first + 1).last() == v@[i as int]@);
            match args.read_one(after, &v[i]) {
                Ok(x) => {
                    after = x;
                },
                Err(e) => {
                    proof {
                        lemma_read_args_none(ts, i - first + 1);
                    }
                    return Err(e);
                },
            }
            i = i + 1;
        }
        assert(ts.take(i - first) =~= ts);
        assert(v.len() == 0 ==> ts =~= Seq::<Seq<char>>::empty());
        if args.files.len() == 0 {
            proof {
                reveal_strlit("*");
            }
            let star = "*".to_owned();
            assert(strings_view(args.files@) =~= Seq::<Seq<char>>::empty());
            proof {
                lemma_strings_push(args.files@, star);
            }
            args.files.push(star);
            assert(star@ == seq!['*']);
            assert(args@.files =~= seq![seq!['*']]);
        }
        if args.list {
            args.unset_flags();
        } else {
            args.set_flags_if_unset();
        }
        Ok(args)
    }
}

proof fn lemma_short_flags_none(a: ArgsView, bs: Seq<u8>, k: int)
    requires
        0 <= k <= bs.len(),
        short_flags(a, bs.subrange(0, k)) is None,
    ensures
        short_flags(a, bs) is None,
    decreases bs.len() - k,
{
    if k < bs.len() {
        assert(bs.subrange(0, k + 1).drop_last() =~= bs.subrange(0, k));
        lemma_short_flags_none(a, bs, k + 1);
    } else {
        assert(bs.subrange(0, k) =~= bs);
    }
}

proof fn lemma_read_args_none(ts: Seq<Seq<char>>, k: int)
    requires
        0 <= k <= ts.len(),
        read_args(ts.take(k)) is None,
    ensures
        read_args(ts) is None,
    decreases ts.len() - k,
{
    if k < ts.len() {
        assert(ts.take(k + 1).drop_last() =~= ts.take(k));
        lemma_read_args_none(ts, k + 1);
    } else {
        assert(ts.take(k) =~= ts);
    }
}

} // verus!
