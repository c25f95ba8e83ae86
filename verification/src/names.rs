//! Sets of names that keep the order in which the names came.
use vstd::prelude::*;

use crate::text::{same, views};

verus! {

/// A set of names. No name occurs twice; names are listed in the order in which
/// they were first added.
#[derive(Debug)]
pub struct NameSet {
    names: Vec<String>,
}

/// `list` with `name` at its end, unless it holds `name` already.
pub open spec fn listed_with(list: Seq<Seq<char>>, name: Seq<char>) -> Seq<Seq<char>> {
    if list.contains(name) {
        list
    } else {
        list.push(name)
    }
}

/// The names of `list`, each at its first place only.
pub open spec fn distinct(list: Seq<Seq<char>>) -> Seq<Seq<char>>
    decreases list.len(),
{
    if list.len() == 0 {
        Seq::empty()
    } else {
        listed_with(distinct(list.drop_last()), list.last())
    }
}

impl View for NameSet {
    type V = Seq<Seq<char>>;

    /// The names in the order in which they were first added.
    closed spec fn view(&self) -> Seq<Seq<char>> {
        views(self.names@)
    }
}

impl NameSet {
    #[verifier::type_invariant]
    spec fn well_formed(self) -> bool {
        views(self.names@).no_duplicates()
    }

    /// The set without names.
    pub fn new() -> (r: NameSet)
        ensures
            r@ == Seq::<Seq<char>>::empty(),
    {
        let r = NameSet { names: Vec::new() };
        assert(views(r.names@) =~= Seq::empty());
        r
    }

    /// The number of names.
    pub fn len(&self) -> (r: usize)
        ensures
            r == self@.len(),
            r == self@.to_set().len(),
    {
        proof {
            use_type_invariant(self);
            self@.unique_seq_to_set();
        }
        self.names.len()
    }

    /// Whether there is no name.
    pub fn is_empty(&self) -> (r: bool)
        ensures
            r == (self@.len() == 0),
    {
        self.names.len() == 0
    }

    /// Whether `name` is in the set.
    pub fn contains(&self, name: &str) -> (r: bool)
        ensures
            r == self@.contains(name@),
    {
        let mut i: usize = 0;
        while i < self.names.len()
            invariant
                i <= self.names@.len(),
                self@ == views(self.names@),
                forall|k: int| 0 <= k < i ==> #[trigger] self@[k] != name@,
            decreases self.names@.len() - i,
        {
            assert(self@[i as int] == self.names@[i as int]@);
            if same(self.names[i].as_str(), name) {
                return true;
            }
            i = i + 1;
        }
        false
    }

    /// This set and `name`.
    pub fn with(self, name: &str) -> (r: NameSet)
        ensures
            r@ == listed_with(self@, name@),
    {
        if self.contains(name) {
            self
        } else {
            proof {
                use_type_invariant(&self);
            }
            let ghost before = self@;
            let mut names = self.names;
            names.push(name.to_owned());
            assert(views(names@) =~= before.push(name@));
            NameSet { names }
        }
    }

    /// The names as texts, in order.
    pub fn list(&self) -> (r: &Vec<String>)
        ensures
            views(r@) == self@,
            self@.no_duplicates(),
    {
        proof {
            use_type_invariant(self);
        }
        &self.names
    }

    /// A set with the same names in the same order.
    pub fn duplicate(&self) -> (r: NameSet)
        ensures
            r@ == self@,
    {
        proof {
            use_type_invariant(self);
        }
        let mut names: Vec<String> = Vec::new();
        let mut i: usize = 0;
        while i < self.names.len()
            invariant
                i <= self.names@.len(),
                names@ =~= self.names@.take(i as int),
            decreases self.names@.len() - i,
        {
            names.push(self.names[i].clone());
            i = i + 1;
        }
        assert(names@ =~= self.names@);
        NameSet { names }
    }
}

/// A list reduced to first places has no duplicates and the same names.
pub proof fn lemma_distinct(list: Seq<Seq<char>>)
    ensures
        distinct(list).no_duplicates(),
        forall|name: Seq<char>| distinct(list).contains(name) <==> list.contains(name),
    decreases list.len(),
{
    if list.len() > 0 {
        let shorter = list.drop_last();
        let before = distinct(shorter);
        lemma_distinct(shorter);
        assert(list =~= shorter.push(list.last()));
        assert forall|name: Seq<char>|
            distinct(list).contains(name) <==> list.contains(name) by {
            if list.contains(name) {
                let i = choose|i: int| 0 <= i < list.len() && list[i] == name;
                if i < shorter.len() {
                    assert(shorter[i] == name);
                    assert(shorter.contains(name));
                    assert(before.contains(name));
                    let k = choose|k: int| 0 <= k < before.len() && before[k] == name;
                    assert(distinct(list)[k] == name);
                } else if !before.contains(name) {
                    assert(distinct(list).last() == name);
                }
            }
            if distinct(list).contains(name) {
                let k = choose|k: int|
                    0 <= k < distinct(list).len() && distinct(list)[k] == name;
                if k < before.len() {
                    assert(before[k] == name);
                    assert(shorter.contains(name));
                    let i = choose|i: int| 0 <= i < shorter.len() && shorter[i] == name;
                    assert(list[i] == name);
                } else {
                    assert(list.last() == name);
                }
            }
        }
    }
}

/// A list without duplicates is its own list of first places.
pub proof fn lemma_distinct_already(list: Seq<Seq<char>>)
    requires
        list.no_duplicates(),
    ensures
        distinct(list) == list,
    decreases list.len(),
{
    if list.len() > 0 {
        lemma_distinct_already(list.drop_last());
        assert(!list.drop_last().contains(list.last()));
        assert(list =~= list.drop_last().push(list.last()));
    } else {
        assert(list =~= Seq::empty());
    }
}

} // verus!
