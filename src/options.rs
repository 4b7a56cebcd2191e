use vstd::prelude::*;
use vstd::utf8::encode_utf8;

verus! {

/// One timestamp attribute of a file.
#[derive(Clone, Copy, Debug, PartialEq, Eq, Structural)]
pub enum OptEnum {
    A,
    M,
    C,
}

/// A set of timestamp attributes: last access, modification and creation.
#[derive(Clone, Copy, Debug, PartialEq, Eq, Structural)]
pub struct OptSet {
    pub a: bool,
    pub m: bool,
    pub c: bool,
}

impl View for OptSet {
    type V = Set<OptEnum>;

    open spec fn view(&self) -> Set<OptEnum> {
        Set::new(
            |o: OptEnum|
                match o {
                    OptEnum::A => self.a,
                    OptEnum::M => self.m,
                    OptEnum::C => self.c,
                },
        )
    }
}

/// The attributes of `s` in the fixed order access, modification, creation.
pub open spec fn opt_seq(s: OptSet) -> Seq<OptEnum> {
    let s1: Seq<OptEnum> = if s.a { seq![OptEnum::A] } else { Seq::empty() };
    let s2 = if s.m { s1.push(OptEnum::M) } else { s1 };
    if s.c { s2.push(OptEnum::C) } else { s2 }
}

/// The attributes that both sets hold.
pub open spec fn common(x: OptSet, y: OptSet) -> OptSet {
    OptSet { a: x.a && y.a, m: x.m && y.m, c: x.c && y.c }
}

impl OptSet {
    pub fn new() -> (r: OptSet)
        ensures
            r@ == Set::<OptEnum>::empty(),
    {
        let r = OptSet { a: false, m: false, c: false };
        assert(r@ =~= Set::<OptEnum>::empty());
        r
    }

    pub fn all() -> (r: OptSet)
        ensures
            r@ == Set::<OptEnum>::full(),
    {
        let r = OptSet { a: true, m: true, c: true };
        assert(r@ =~= Set::<OptEnum>::full());
        r
    }

    pub fn is_empty(&self) -> (r: bool)
        ensures
            r == (self@ == Set::<OptEnum>::empty()),
    {
        if !self.a && !self.m && !self.c {
            assert(self@ =~= Set::<OptEnum>::empty());
            true
        } else {
            assert(self@.contains(OptEnum::A) || self@.contains(OptEnum::M) || self@.contains(
                OptEnum::C,
            ));
            false
        }
    }

    pub fn contains(&self, o: OptEnum) -> (r: bool)
        ensures
            r == self@.contains(o),
    {
        match o {
            OptEnum::A => self.a,
            OptEnum::M => self.m,
            OptEnum::C => self.c,
        }
    }

    /// The attributes of both sets.
    pub fn intersect(&self, other: &OptSet) -> (r: OptSet)
        ensures
            r == common(*self, *other),
            r@ == self@.intersect(other@),
    {
        let r = OptSet { a: self.a && other.a, m: self.m && other.m, c: self.c && other.c };
        assert(r@ =~= self@.intersect(other@));
        r
    }

    /// The attributes in the order access, modification, creation.
    pub fn to_vec(&self) -> (r: Vec<OptEnum>)
        ensures
            r@ == opt_seq(*self),
    {
        let mut r: Vec<OptEnum> = Vec::new();
        if self.a {
            r.push(OptEnum::A);
        }
        if self.m {
            r.push(OptEnum::M);
        }
        if self.c {
            r.push(OptEnum::C);
        }
        assert(r@ =~= opt_seq(*self));
        r
    }
}

/// The one-letter status code of an attribute.
pub fn letter(o: OptEnum) -> (r: char)
    ensures
        r == match o {
            OptEnum::A => 'A',
            OptEnum::M => 'M',
            OptEnum::C => 'C',
        },
{
    match o {
        OptEnum::A => 'A',
        OptEnum::M => 'M',
        OptEnum::C => 'C',
    }
}

} // verus!
