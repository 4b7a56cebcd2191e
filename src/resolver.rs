use crate::args::strings_view;
use vstd::prelude::*;

verus! {

/// What an existence test finds at the path that a specification names.
#[derive(Clone, Copy, Debug, PartialEq, Eq, Structural)]
pub enum Probe {
    /// An existing regular file.
    File,
    /// An existing directory.
    Dir,
    /// Nothing: the specification is a wildcard pattern.
    Neither,
}

/// One entry that a directory listing or a pattern walk found.
pub struct Entry {
    pub path: String,
    /// Whether the entry, links followed, is a regular file.
    pub is_file: bool,
}

/// The paths of the regular files among `found`, in their order.
pub open spec fn files_of(found: Seq<Entry>) -> Seq<Seq<char>>
    decreases found.len(),
{
    if found.len() == 0 {
        Seq::empty()
    } else {
        let rest = files_of(found.drop_last());
        if found.last().is_file {
            rest.push(found.last().path@)
        } else {
            rest
        }
    }
}

/// What a specification resolves to: the path itself when it names an
/// existing file; else the regular files that listing the directory, or
/// walking the pattern, found.
pub open spec fn resolved(spec: Seq<char>, probe: Probe, found: Seq<Entry>) -> Seq<Seq<char>> {
    match probe {
        Probe::File => seq![spec],
        _ => files_of(found),
    }
}

/// Resolves one specification from what the file system showed of it.
/// `found` is the listing of the directory when `probe` is `Dir`, the
/// entries that the pattern walk matched when it is `Neither`.
pub fn resolve(spec: &String, probe: Probe, found: &Vec<Entry>) -> (r: Vec<String>)
    ensures
        strings_view(r@) == resolved(spec@, probe, found@),
{
    let mut r: Vec<String> = Vec::new();
    match probe {
        Probe::File => {
            r.push(spec.clone());
            assert(strings_view(r@) =~= seq![spec@]);
        },
        _ => {
            let mut i: usize = 0;
            while i < found.len()
                invariant
                    0 <= i <= found.len(),
                    strings_view(r@) == files_of(found@.take(i as int)),
                decreases found.len() - i,
            {
                assert(found@.take(i + 1).drop_last() =~= found@.take(i as int));
                if found[i].is_file {
                    let p = found[i].path.clone();
                    r.push(p);
                    assert(strings_view(r@) =~= files_of(found@.take(i as int)).push(p@));
                }
                i = i + 1;
            }
            assert(found@.take(i as int) =~= found@);
        },
    }
    r
}

/// The file-name part of a pattern: the last component, or everything.
pub fn pattern_name(file_name: Option<String>) -> (r: String)
    ensures
        match file_name {
            Some(n) => r@ == n@,
            None => r@ == seq!['*'],
        },
{
    match file_name {
        Some(n) => n,
        None => {
            proof {
                reveal_strlit("*");
            }
            "*".to_owned()
        },
    }
}

/// A specification that names an existing file yields exactly that path,
/// whatever the path holds.
pub proof fn law_existing_file(spec: Seq<char>, found: Seq<Entry>)
    ensures
        resolved(spec, Probe::File, found) == seq![spec],
{
}

/// A pattern that matches no regular file yields nothing.
pub proof fn law_no_match(spec: Seq<char>, found: Seq<Entry>)
    requires
        forall|i: int| 0 <= i < found.len() ==> !(#[trigger] found[i]).is_file,
    ensures
        resolved(spec, Probe::Neither, found) == Seq::<Seq<char>>::empty(),
    decreases found.len(),
{
    if found.len() > 0 {
        let rest = found.drop_last();
        assert forall|i: int| 0 <= i < rest.len() implies !(#[trigger] rest[i]).is_file by {
            assert(rest[i] == found[i]);
        };
        law_no_match(spec, rest);
    }
}

} // verus!
