use chrono::TimeZone;
use exif_touch::args::Args;
use exif_touch::exif::{choose_date, date_from_text, read_creation_date, DateError, Stamp};
use exif_touch::fileset::{build, FileSet};
use exif_touch::options::{letter, OptEnum, OptSet};
use exif_touch::resolver::{pattern_name, resolve, Entry, Probe};

fn strings(v: &[&str]) -> Vec<String> {
    v.iter().map(|s| s.to_string()).collect()
}

fn sorted(mut v: Vec<String>) -> Vec<String> {
    v.sort();
    v
}

/// A little-endian TIFF block whose EXIF directory holds `date` under the
/// capture-date tag; with `jpeg`, behind the 12 bytes of a JPEG header.
fn exif_bytes(date: &str, jpeg: bool) -> Vec<u8> {
    let mut t: Vec<u8> = Vec::new();
    t.extend_from_slice(b"II");
    t.extend_from_slice(&42u16.to_le_bytes());
    t.extend_from_slice(&8u32.to_le_bytes());
    t.extend_from_slice(&1u16.to_le_bytes());
    t.extend_from_slice(&0x8769u16.to_le_bytes());
    t.extend_from_slice(&4u16.to_le_bytes());
    t.extend_from_slice(&1u32.to_le_bytes());
    t.extend_from_slice(&26u32.to_le_bytes());
    t.extend_from_slice(&0u32.to_le_bytes());
    t.extend_from_slice(&1u16.to_le_bytes());
    t.extend_from_slice(&0x9004u16.to_le_bytes());
    t.extend_from_slice(&2u16.to_le_bytes());
    t.extend_from_slice(&(date.len() as u32 + 1).to_le_bytes());
    t.extend_from_slice(&44u32.to_le_bytes());
    t.extend_from_slice(&0u32.to_le_bytes());
    t.extend_from_slice(date.as_bytes());
    t.push(0);
    if jpeg {
        let mut j = vec![0xff, 0xd8, 0xff, 0xe1, 0, 0];
        j.extend_from_slice(b"Exif\0\0");
        j.extend_from_slice(&t);
        j
    } else {
        t
    }
}

fn local_stamp(y: i32, mo: u32, d: u32, h: u32, mi: u32, s: u32) -> Stamp {
    let dt = chrono::Local.with_ymd_and_hms(y, mo, d, h, mi, s).single().unwrap();
    Stamp { secs: dt.timestamp(), nanos: dt.timestamp_subsec_nanos() }
}

#[test]
fn single_spec_alone_gives_its_results() {
    let hits = strings(&["b.jpg", "a.jpg", "b.jpg"]);
    let set = build(&vec![hits.clone()], &Vec::new());
    assert_eq!(sorted(set.to_vec()), strings(&["a.jpg", "b.jpg"]));
    assert_eq!(set.len(), 2);
}

#[test]
fn spec_skipped_from_itself_gives_nothing() {
    let hits = strings(&["a.jpg", "b.jpg", "c/d.jpg"]);
    let set = build(&vec![hits.clone()], &vec![hits]);
    assert_eq!(set.len(), 0);
    assert!(set.to_vec().is_empty());
}

#[test]
fn skipping_wins_over_any_taking() {
    let set = build(
        &vec![strings(&["a", "b"]), strings(&["c", "a"])],
        &vec![strings(&["x"]), strings(&["a"])],
    );
    assert_eq!(sorted(set.to_vec()), strings(&["b", "c"]));
}

#[test]
fn file_set_insert_and_remove() {
    let mut set = FileSet::new();
    set.insert("a".to_string());
    set.insert("a".to_string());
    set.insert("b".to_string());
    assert_eq!(set.len(), 2);
    assert!(set.contains(&"a".to_string()));
    set.remove(&"a".to_string());
    assert!(!set.contains(&"a".to_string()));
    set.add_all(&strings(&["c", "b"]));
    set.remove_all(&strings(&["z", "c"]));
    assert_eq!(set.to_vec(), strings(&["b"]));
}

#[test]
fn existing_file_resolves_to_itself() {
    let spec = "dir*/[x]?/photo.jpg".to_string();
    let found = vec![Entry { path: "other.jpg".to_string(), is_file: true }];
    assert_eq!(resolve(&spec, Probe::File, &found), vec![spec.clone()]);
}

#[test]
fn pattern_without_matches_gives_nothing() {
    let spec = "*.nothing".to_string();
    assert!(resolve(&spec, Probe::Neither, &Vec::new()).is_empty());
    let dirs = vec![Entry { path: "sub".to_string(), is_file: false }];
    assert!(resolve(&spec, Probe::Neither, &dirs).is_empty());
}

#[test]
fn directory_keeps_only_regular_files() {
    let found = vec![
        Entry { path: "d/a.jpg".to_string(), is_file: true },
        Entry { path: "d/sub".to_string(), is_file: false },
        Entry { path: "d/b.png".to_string(), is_file: true },
    ];
    assert_eq!(resolve(&"d".to_string(), Probe::Dir, &found), strings(&["d/a.jpg", "d/b.png"]));
}

#[test]
fn pattern_name_defaults_to_everything() {
    assert_eq!(pattern_name(None), "*");
    assert_eq!(pattern_name(Some("*.jpg".to_string())), "*.jpg");
}

#[test]
fn both_encodings_give_the_same_instant() {
    let exif = date_from_text(&"2021:04:15 10:30:00".to_string()).unwrap();
    let local = chrono::Local.with_ymd_and_hms(2021, 4, 15, 10, 30, 0).single().unwrap();
    let iso = date_from_text(&local.to_rfc3339()).unwrap();
    assert_eq!(exif, iso);
    assert_eq!(exif, local_stamp(2021, 4, 15, 10, 30, 0));
}

#[test]
fn offset_encoding_gives_a_fixed_instant() {
    let d = date_from_text(&"2021-04-15T10:30:00+00:00".to_string()).unwrap();
    assert_eq!(d, Stamp { secs: 1618482600, nanos: 0 });
    let d = date_from_text(&"2021-04-15T12:30:00.5+02:00".to_string()).unwrap();
    assert_eq!(d, Stamp { secs: 1618482600, nanos: 500_000_000 });
}

#[test]
fn unparseable_tag_keeps_its_text() {
    match read_creation_date(&exif_bytes("not-a-date", true)) {
        Err(DateError::Format(s)) => assert_eq!(s, "not-a-date"),
        other => panic!("unexpected {:?}", other),
    }
    match date_from_text(&"not-a-date".to_string()) {
        Err(DateError::Format(s)) => assert_eq!(s, "not-a-date"),
        other => panic!("unexpected {:?}", other),
    }
}

#[test]
fn capture_date_is_read_from_tiff_and_jpeg() {
    let want = local_stamp(2021, 4, 15, 10, 30, 0);
    assert_eq!(read_creation_date(&exif_bytes("2021:04:15 10:30:00", false)).unwrap(), want);
    assert_eq!(read_creation_date(&exif_bytes("2021:04:15 10:30:00", true)).unwrap(), want);
    assert_eq!(read_creation_date(&exif_bytes("  2021:04:15 10:30:00 ", true)).unwrap(), want);
}

#[test]
fn missing_tag_is_not_found() {
    assert!(matches!(read_creation_date(&Vec::new()), Err(DateError::NotFound)));
    assert!(matches!(read_creation_date(&b"\x89PNG\r\n\x1a\n".to_vec()), Err(DateError::NotFound)));
    let mut b = exif_bytes("2021:04:15 10:30:00", false);
    b[10] = 0x00;
    assert!(matches!(read_creation_date(&b), Err(DateError::NotFound)));
    let short = exif_bytes("2021:04:15 10:30:00", true)[..20].to_vec();
    assert!(matches!(read_creation_date(&short), Err(DateError::NotFound)));
}

#[test]
fn first_encoding_wins() {
    let a = Stamp { secs: 1, nanos: 0 };
    let b = Stamp { secs: 2, nanos: 0 };
    let raw = "x".to_string();
    assert_eq!(choose_date(&raw, Some(a), Some(b)).unwrap(), a);
    assert_eq!(choose_date(&raw, None, Some(b)).unwrap(), b);
    assert!(matches!(choose_date(&raw, None, None), Err(DateError::Format(s)) if s == "x"));
}

#[test]
fn flag_sets() {
    assert!(OptSet::new().is_empty());
    assert!(!OptSet::all().is_empty());
    assert_eq!(OptSet::all().to_vec(), vec![OptEnum::A, OptEnum::M, OptEnum::C]);
    let s = OptSet { a: true, m: false, c: true };
    assert_eq!(s.intersect(&OptSet { a: true, m: true, c: false }), OptSet { a: true, m: false, c: false });
    assert!(s.contains(OptEnum::C));
    assert!(!s.contains(OptEnum::M));
    assert_eq!(letter(OptEnum::A), 'A');
    assert_eq!(letter(OptEnum::M), 'M');
    assert_eq!(letter(OptEnum::C), 'C');
}

#[test]
fn flag_defaults() {
    let mut a = Args::parse_vec(vec!["p".to_string(), "-l".to_string()]).unwrap();
    a.set_flags_if_unset();
    assert_eq!(a.flags(), OptSet::all());
    a.unset_flags();
    assert_eq!(a.flags(), OptSet::new());
    assert!(a.is_ok());
}

#[test]
fn order_of_taken_specs_does_not_matter() {
    let a = strings(&["x", "y"]);
    let b = strings(&["y", "z"]);
    let skipped = vec![strings(&["z"])];
    let one = build(&vec![a.clone(), b.clone()], &skipped);
    let two = build(&vec![b, a], &skipped);
    assert_eq!(sorted(one.to_vec()), sorted(two.to_vec()));
    assert_eq!(sorted(one.to_vec()), strings(&["x", "y"]));
}
