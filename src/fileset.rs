use crate::args::strings_view;
use vstd::prelude::*;

verus! {

/// The paths that one resolved specification yields.
pub open spec fn hits_set(hits: Seq<Seq<char>>) -> Set<Seq<char>> {
    hits.to_set()
}

/// Every path that some specification of `specs` yields.
pub open spec fn union_of(specs: Seq<Seq<Seq<char>>>) -> Set<Seq<char>>
    decreases specs.len(),
{
    if specs.len() == 0 {
        Set::empty()
    } else {
        union_of(specs.drop_last()).union(hits_set(specs.last()))
    }
}

/// The file set that the results of the taken and the skipped specifications
/// give: what some taken one yields and no skipped one yields.
pub open spec fn built(
    includes: Seq<Seq<Seq<char>>>,
    excludes: Seq<Seq<Seq<char>>>,
) -> Set<Seq<char>> {
    union_of(includes).difference(union_of(excludes))
}

pub open spec fn nested_view(v: Seq<Vec<String>>) -> Seq<Seq<Seq<char>>> {
    v.map_values(|h: Vec<String>| strings_view(h@))
}

/// A duplicate-free collection of paths.
pub struct FileSet {
    files: Vec<String>,
}

impl View for FileSet {
    type V = Set<Seq<char>>;

    closed spec fn view(&self) -> Set<Seq<char>> {
        strings_view(self.files@).to_set()
    }
}

impl FileSet {
    /// The paths are pairwise distinct.
    pub closed spec fn wf(&self) -> bool {
        strings_view(self.files@).no_duplicates()
    }

    /// The paths in the order the set holds them.
    pub closed spec fn seq(&self) -> Seq<Seq<char>> {
        strings_view(self.files@)
    }

    pub fn new() -> (r: FileSet)
        ensures
            r.wf(),
            r@ == Set::<Seq<char>>::empty(),
    {
        let r = FileSet { files: Vec::new() };
        assert(strings_view(r.files@) =~= Seq::<Seq<char>>::empty());
        assert(r@ =~= Set::<Seq<char>>::empty());
        r
    }

    pub fn len(&self) -> (r: usize)
        requires
            self.wf(),
        ensures
            r == self@.len(),
    {
        proof {
            strings_view(self.files@).unique_seq_to_set();
        }
        self.files.len()
    }

    pub fn contains(&self, p: &String) -> (r: bool)
        ensures
            r == self@.contains(p@),
    {
        let mut i: usize = 0;
        while i < self.files.len()
            invariant
                0 <= i <= self.files.len(),
                forall|k: int| 0 <= k < i ==> self.files@[k]@ != p@,
            decreases self.files.len() - i,
        {
            if self.files[i] == *p {
                assert(strings_view(self.files@)[i as int] == p@);
                return true;
            }
            i = i + 1;
        }
        assert(!strings_view(self.files@).contains(p@));
        false
    }

    /// Adds one path.
    pub fn insert(&mut self, p: String)
        requires
            old(self).wf(),
        ensures
            final(self).wf(),
            final(self)@ == old(self)@.insert(p@),
    {
        let ghost before = strings_view(self.files@);
        if !self.contains(&p) {
            self.files.push(p);
            assert(strings_view(self.files@) =~= before.push(p@));
            assert forall|q: Seq<char>| #[trigger] self@.contains(q) == old(self)@.insert(p@).contains(q) by {
                lemma_push_contains(before, p@, q);
            };
            assert(self@ =~= old(self)@.insert(p@));
            assert(strings_view(self.files@).no_duplicates()) by {
                let sv = strings_view(self.files@);
                assert forall|x: int, y: int| 0 <= x < sv.len() && 0 <= y < sv.len() && x != y implies sv[x] != sv[y] by {
                    if y == before.len() {
                        assert(sv[x] == before[x]);
                        assert(before.contains(before[x]));
                    } else if x == before.len() {
                        assert(sv[y] == before[y]);
                        assert(before.contains(before[y]));
                    }
                };
            };
        } else {
            assert(self@ =~= old(self)@.insert(p@));
        }
    }

    /// Takes one path out.
    pub fn remove(&mut self, p: &String)
        requires
            old(self).wf(),
        ensures
            final(self).wf(),
            final(self)@ == old(self)@.remove(p@),
    {
        let ghost before = strings_view(self.files@);
        let mut kept: Vec<String> = Vec::new();
        let mut i: usize = 0;
        while i < self.files.len()
            invariant
                0 <= i <= self.files.len(),
                before == strings_view(self.files@),
                before.no_duplicates(),
                strings_view(kept@).no_duplicates(),
                forall|q: Seq<char>|
                    #[trigger] strings_view(kept@).contains(q) == (before.take(i as int).contains(q)
                        && q != p@),
            decreases self.files.len() - i,
        {
            let ghost kv = strings_view(kept@);
            if self.files[i] != *p {
                let q = self.files[i].clone();
                assert(q@ == before[i as int]);
                assert(!before.take(i as int).contains(q@)) by {
                    if before.take(i as int).contains(q@) {
                        let m = choose|m: int| 0 <= m < i && before.take(i as int)[m] == q@;
                        assert(before[m] == before[i as int]);
                    }
                };
                kept.push(q);
                assert(strings_view(kept@) =~= kv.push(q@));
                assert(strings_view(kept@).no_duplicates()) by {
                    let sv = strings_view(kept@);
                    assert forall|x: int, y: int| 0 <= x < sv.len() && 0 <= y < sv.len() && x != y implies sv[x] != sv[y] by {
                        if y == kv.len() {
                            if x < kv.len() {
                                assert(kv.contains(kv[x]));
                            }
                        } else if x == kv.len() {
                            assert(kv.contains(kv[y]));
                        }
                    };
                };
                assert forall|r: Seq<char>| #[trigger] strings_view(kept@).contains(r) == (before.take(i + 1).contains(r) && r != p@) by {
                    lemma_push_contains(kv, before[i as int], r);
                    lemma_take_contains(before, i as int, r);
                };
            } else {
                assert forall|r: Seq<char>| #[trigger] strings_view(kept@).contains(r) == (before.take(i + 1).contains(r) && r != p@) by {
                    lemma_take_contains(before, i as int, r);
                };
            }
            i = i + 1;
        }
        assert(before.take(i as int) =~= before);
        self.files = kept;
        assert(self@ =~= old(self)@.remove(p@));
    }

    /// Adds every path of `hits`.
    pub fn add_all(&mut self, hits: &Vec<String>)
        requires
            old(self).wf(),
        ensures
            final(self).wf(),
            final(self)@ == old(self)@.union(hits_set(strings_view(hits@))),
    {
        let mut i: usize = 0;
        while i < hits.len()
            invariant
                0 <= i <= hits.len(),
                self.wf(),
                self@ == old(self)@.union(hits_set(strings_view(hits@).take(i as int))),
            decreases hits.len() - i,
        {
            self.insert(hits[i].clone());
            proof {
                assert forall|q: Seq<char>| #[trigger] hits_set(strings_view(hits@).take(i + 1)).contains(q) == (hits_set(strings_view(hits@).take(i as int)).contains(q) || q == hits@[i as int]@) by {
                    lemma_take_contains(strings_view(hits@), i as int, q);
                };
            }
            assert(strings_view(hits@).take(i + 1) =~= strings_view(hits@).take(i as int).push(
                hits@[i as int]@,
            ));
            assert(self@ =~= old(self)@.union(hits_set(strings_view(hits@).take(i + 1))));
            i = i + 1;
        }
        assert(strings_view(hits@).take(i as int) =~= strings_view(hits@));
    }

    /// Takes out every path of `hits`.
    pub fn remove_all(&mut self, hits: &Vec<String>)
        requires
            old(self).wf(),
        ensures
            final(self).wf(),
            final(self)@ == old(self)@.difference(hits_set(strings_view(hits@))),
    {
        let mut i: usize = 0;
        while i < hits.len()
            invariant
                0 <= i <= hits.len(),
                self.wf(),
                self@ == old(self)@.difference(hits_set(strings_view(hits@).take(i as int))),
            decreases hits.len() - i,
        {
            self.remove(&hits[i]);
            proof {
                assert forall|q: Seq<char>| #[trigger] hits_set(strings_view(hits@).take(i + 1)).contains(q) == (hits_set(strings_view(hits@).take(i as int)).contains(q) || q == hits@[i as int]@) by {
                    lemma_take_contains(strings_view(hits@), i as int, q);
                };
            }
            assert(strings_view(hits@).take(i + 1) =~= strings_view(hits@).take(i as int).push(
                hits@[i as int]@,
            ));
            assert(self@ =~= old(self)@.difference(
                hits_set(strings_view(hits@).take(i + 1)),
            ));
            i = i + 1;
        }
        assert(strings_view(hits@).take(i as int) =~= strings_view(hits@));
    }

    /// The paths, each once.
    pub fn to_vec(&self) -> (r: Vec<String>)
        requires
            self.wf(),
        ensures
            strings_view(r@).to_set() == self@,
            strings_view(r@).no_duplicates(),
    {
        self.files.clone()
    }
}

/// Builds the file set: the union of `taken`, then minus each of `skipped`.
pub fn build(taken: &Vec<Vec<String>>, skipped: &Vec<Vec<String>>) -> (r: FileSet)
    ensures
        r.wf(),
        r@ == built(nested_view(taken@), nested_view(skipped@)),
{
    let ghost tv = nested_view(taken@);
    let ghost sv = nested_view(skipped@);
    let mut set = FileSet::new();
    let mut i: usize = 0;
    while i < taken.len()
        invariant
            0 <= i <= taken.len(),
            tv == nested_view(taken@),
            set.wf(),
            set@ == union_of(tv.take(i as int)),
        decreases taken.len() - i,
    {
        set.add_all(&taken[i]);
        assert(tv.take(i + 1).drop_last() =~= tv.take(i as int));
        i = i + 1;
    }
    assert(tv.take(i as int) =~= tv);
    let ghost all = set@;
    let mut j: usize = 0;
    while j < skipped.len()
        invariant
            0 <= j <= skipped.len(),
            sv == nested_view(skipped@),
            set.wf(),
            set@ == all.difference(union_of(sv.take(j as int))),
        decreases skipped.len() - j,
    {
        set.remove_all(&skipped[j]);
        assert(sv.take(j + 1).drop_last() =~= sv.take(j as int));
        assert(set@ =~= all.difference(union_of(sv.take(j + 1))));
        j = j + 1;
    }
    assert(sv.take(j as int) =~= sv);
    set
}

/// One specification taken and none skipped gives exactly what that
/// specification yields.
pub proof fn law_single_spec(hits: Seq<Seq<char>>)
    ensures
        built(seq![hits], Seq::empty()) == hits_set(hits),
{
    assert(seq![hits].drop_last() =~= Seq::<Seq<Seq<char>>>::empty());
    assert(built(seq![hits], Seq::empty()) =~= hits_set(hits));
}

/// Skipping a specification that is also the only one taken leaves nothing.
pub proof fn law_self_exclusion(hits: Seq<Seq<char>>)
    ensures
        built(seq![hits], seq![hits]) == Set::<Seq<char>>::empty(),
{
    assert(seq![hits].drop_last() =~= Seq::<Seq<Seq<char>>>::empty());
    assert(built(seq![hits], seq![hits]) =~= Set::<Seq<char>>::empty());
}

/// The order of two taken specifications does not change the set.
pub proof fn law_taken_order(a: Seq<Seq<char>>, b: Seq<Seq<char>>, skipped: Seq<Seq<Seq<char>>>)
    ensures
        built(seq![a, b], skipped) == built(seq![b, a], skipped),
{
    assert(seq![a, b].drop_last() =~= seq![a]);
    assert(seq![b, a].drop_last() =~= seq![b]);
    assert(seq![a].drop_last() =~= Seq::<Seq<Seq<char>>>::empty());
    assert(seq![b].drop_last() =~= Seq::<Seq<Seq<char>>>::empty());
    assert(seq![a, b].last() == b);
    assert(seq![b, a].last() == a);
    assert(seq![a].last() == a);
    assert(seq![b].last() == b);
    assert(union_of(seq![a, b]) == union_of(seq![a]).union(hits_set(b)));
    assert(union_of(seq![b, a]) == union_of(seq![b]).union(hits_set(a)));
    assert(union_of(Seq::<Seq<Seq<char>>>::empty()) == Set::<Seq<char>>::empty());
    assert(union_of(seq![a]) == union_of(seq![a].drop_last()).union(hits_set(a)));
    assert(union_of(seq![b]) == union_of(seq![b].drop_last()).union(hits_set(b)));
    assert(union_of(seq![a, b]) =~= union_of(seq![b, a]));
}

/// A path that some skipped specification yields is never in the set,
/// whichever specification took it in.
pub proof fn law_exclusion_wins(
    taken: Seq<Seq<Seq<char>>>,
    skipped: Seq<Seq<Seq<char>>>,
    k: int,
    q: Seq<char>,
)
    requires
        0 <= k < skipped.len(),
        skipped[k].contains(q),
    ensures
        !built(taken, skipped).contains(q),
{
    lemma_union_of_contains(skipped, k, q);
}

/// A path is in the union when one of the results holds it.
proof fn lemma_union_of_contains(specs: Seq<Seq<Seq<char>>>, k: int, q: Seq<char>)
    requires
        0 <= k < specs.len(),
        specs[k].contains(q),
    ensures
        union_of(specs).contains(q),
    decreases specs.len(),
{
    if k < specs.len() - 1 {
        lemma_union_of_contains(specs.drop_last(), k, q);
    }
}

proof fn lemma_push_contains<A>(s: Seq<A>, x: A, q: A)
    ensures
        s.push(x).contains(q) == (s.contains(q) || q == x),
{
    if s.contains(q) {
        let k = choose|k: int| 0 <= k < s.len() && s[k] == q;
        assert(s.push(x)[k] == q);
    }
    if q == x {
        assert(s.push(x)[s.len() as int] == q);
    }
    if s.push(x).contains(q) {
        let k = choose|k: int| 0 <= k < s.len() + 1 && s.push(x)[k] == q;
        if k < s.len() {
            assert(s[k] == q);
        }
    }
}

proof fn lemma_take_contains<A>(s: Seq<A>, i: int, q: A)
    requires
        0 <= i < s.len(),
    ensures
        s.take(i + 1).contains(q) == (s.take(i).contains(q) || q == s[i]),
{
    assert(s.take(i + 1) =~= s.take(i).push(s[i]));
    lemma_push_contains(s.take(i), s[i], q);
}

} // verus!
