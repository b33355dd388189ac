use vstd::prelude::*;
use crate::value::{Argument, Val};
use crate::token::Token;

verus! {

/// The map that an association list denotes: a later entry overrides an
/// earlier one with the same key.
pub open spec fn map_of<K, V>(s: Seq<(K, V)>) -> Map<K, V>
    decreases s.len(),
{
    if s.len() == 0 {
        Map::empty()
    } else {
        map_of(s.drop_last()).insert(s.last().0, s.last().1)
    }
}

pub proof fn lemma_map_of_absent<K, V>(s: Seq<(K, V)>, k: K)
    requires
        forall|j: int| 0 <= j < s.len() ==> s[j].0 != k,
    ensures
        !map_of(s).contains_key(k),
    decreases s.len(),
{
    if s.len() > 0 {
        lemma_map_of_absent(s.drop_last(), k);
    }
}

pub proof fn lemma_map_of_found<K, V>(s: Seq<(K, V)>, k: K, i: int)
    requires
        0 <= i < s.len(),
        s[i].0 == k,
        forall|j: int| i < j < s.len() ==> s[j].0 != k,
    ensures
        map_of(s).contains_key(k),
        map_of(s)[k] == s[i].1,
    decreases s.len(),
{
    if i < s.len() - 1 {
        lemma_map_of_found(s.drop_last(), k, i);
    }
}

/// Variable bindings, from name to value; a later binding replaces an earlier one.
///
/// An association list rather than a `HashMap`: the keys are values that
/// hold strings, and for a std map under such keys Verus gives no
/// specification of its contents that a contract could build on (a map
/// keyed by `Argument` was not tried), while this list's contents are
/// stated exactly by `map_of`.
#[derive(Debug)]
pub struct Bindings {
    entries: Vec<(Argument, Argument)>,
}

pub open spec fn binding_views(s: Seq<(Argument, Argument)>) -> Seq<(Val, Val)> {
    s.map_values(|e: (Argument, Argument)| (e.0@, e.1@))
}

impl View for Bindings {
    type V = Map<Val, Val>;

    closed spec fn view(&self) -> Map<Val, Val> {
        map_of(binding_views(self.entries@))
    }
}

impl Bindings {
    pub fn new() -> (r: Bindings)
        ensures
            r@ == Map::<Val, Val>::empty(),
    {
        let r = Bindings { entries: Vec::new() };
        assert(binding_views(r.entries@) =~= Seq::<(Val, Val)>::empty());
        r
    }

    /// Binds `name` to `value`, replacing an earlier binding.
    pub fn insert(&mut self, name: Argument, value: Argument)
        ensures
            final(self)@ == old(self)@.insert(name@, value@),
    {
        let ghost old_entries = self.entries@;
        self.entries.push((name, value));
        assert(binding_views(self.entries@).drop_last() =~= binding_views(old_entries));
    }

    /// The value bound to `name`, if any.
    pub fn get(&self, name: &Argument) -> (r: Option<&Argument>)
        ensures
            r is None <==> !self@.contains_key(name@),
            r matches Some(v) ==> self@[name@] == v@,
    {
        let mut i: usize = self.entries.len();
        while i > 0
            invariant
                i <= self.entries@.len(),
                forall|j: int| i <= j < self.entries@.len() ==> self.entries@[j].0@ != name@,
            decreases i,
        {
            if self.entries[i - 1].0 == *name {
                proof {
                    lemma_map_of_found(binding_views(self.entries@), name@, i - 1);
                }
                return Some(&self.entries[i - 1].1);
            }
            i = i - 1;
        }
        proof {
            lemma_map_of_absent(binding_views(self.entries@), name@);
        }
        None
    }

    /// The bindings as pairs, oldest first; a name may occur more than once,
    /// and its last pair is the one in force.
    pub fn entries(&self) -> (r: &Vec<(Argument, Argument)>)
        ensures
            map_of(binding_views(r@)) == self@,
    {
        &self.entries
    }
}

/// Stored subroutine bodies, from name to token sequence; an association
/// list for the same reason as `Bindings`.
#[derive(Debug)]
pub struct SubroutineTable {
    entries: Vec<(Argument, Vec<Token>)>,
}

pub open spec fn body_views(s: Seq<(Argument, Vec<Token>)>) -> Seq<(Val, Seq<Token>)> {
    s.map_values(|e: (Argument, Vec<Token>)| (e.0@, e.1@))
}

impl View for SubroutineTable {
    type V = Map<Val, Seq<Token>>;

    closed spec fn view(&self) -> Map<Val, Seq<Token>> {
        map_of(body_views(self.entries@))
    }
}

impl SubroutineTable {
    pub fn new() -> (r: SubroutineTable)
        ensures
            r@ == Map::<Val, Seq<Token>>::empty(),
    {
        let r = SubroutineTable { entries: Vec::new() };
        assert(body_views(r.entries@) =~= Seq::<(Val, Seq<Token>)>::empty());
        r
    }

    /// Stores `body` under `name`, replacing an earlier body.
    pub fn insert(&mut self, name: Argument, body: Vec<Token>)
        ensures
            final(self)@ == old(self)@.insert(name@, body@),
    {
        let ghost old_entries = self.entries@;
        self.entries.push((name, body));
        assert(body_views(self.entries@).drop_last() =~= body_views(old_entries));
    }

    /// The body stored under `name`, if any.
    pub fn get(&self, name: &Argument) -> (r: Option<&Vec<Token>>)
        ensures
            r is None <==> !self@.contains_key(name@),
            r matches Some(b) ==> self@[name@] == b@,
    {
        let mut i: usize = self.entries.len();
        while i > 0
            invariant
                i <= self.entries@.len(),
                forall|j: int| i <= j < self.entries@.len() ==> self.entries@[j].0@ != name@,
            decreases i,
        {
            if self.entries[i - 1].0 == *name {
                proof {
                    lemma_map_of_found(body_views(self.entries@), name@, i - 1);
                }
                return Some(&self.entries[i - 1].1);
            }
            i = i - 1;
        }
        proof {
            lemma_map_of_absent(body_views(self.entries@), name@);
        }
        None
    }
}

} // verus!
