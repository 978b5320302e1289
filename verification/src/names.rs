//! A flat set of names, kept in the order in which they were first added.

use crate::text::str_eq;
use vstd::prelude::*;

verus! {

/// `names` with `name` added at its end, unless it is among them already.
pub open spec fn with_name(names: Seq<Seq<char>>, name: Seq<char>) -> Seq<Seq<char>> {
    if names.contains(name) {
        names
    } else {
        names.push(name)
    }
}

/// The first of `names`, from the index `from` on, that is not among
/// `known`.
pub open spec fn first_missing(names: Seq<Seq<char>>, known: Seq<Seq<char>>, from: int) -> Option<
    Seq<char>,
>
    decreases names.len() - from,
{
    if from < 0 || from >= names.len() {
        None
    } else if !known.contains(names[from]) {
        Some(names[from])
    } else {
        first_missing(names, known, from + 1)
    }
}

/// Every one of `names` is among `others`.
pub open spec fn within(names: Seq<Seq<char>>, others: Seq<Seq<char>>) -> bool {
    forall|n: Seq<char>| #[trigger] names.contains(n) ==> others.contains(n)
}

/// Adding a name keeps what was there and makes the name one of them.
pub proof fn lemma_with_name(names: Seq<Seq<char>>, name: Seq<char>)
    ensures
        within(names, with_name(names, name)),
        with_name(names, name).contains(name),
        forall|n: Seq<char>| #[trigger]
            with_name(names, name).contains(n) ==> names.contains(n) || n == name,
{
    let added = names.push(name);
    assert(added[names.len() as int] == name);
    assert forall|n: Seq<char>| #[trigger] names.contains(n) implies added.contains(n) by {
        let i = choose|i: int| 0 <= i < names.len() && names[i] == n;
        assert(added[i] == n);
    }
    assert forall|n: Seq<char>| #[trigger] added.contains(n) implies names.contains(n) || n
        == name by {
        let i = choose|i: int| 0 <= i < added.len() && added[i] == n;
        if i < names.len() {
            assert(names[i] == n);
        }
    }
}

/// No name is missing exactly when every name, from `from` on, is known;
/// and a name that is missing is one of the names and not known.
pub proof fn lemma_first_missing(names: Seq<Seq<char>>, known: Seq<Seq<char>>, from: int)
    requires
        0 <= from,
    ensures
        first_missing(names, known, from) is None <==> forall|i: int|
            from <= i < names.len() ==> known.contains(#[trigger] names[i]),
        first_missing(names, known, from) matches Some(name) ==> names.contains(name)
            && !known.contains(name),
    decreases names.len() - from,
{
    if from < names.len() {
        lemma_first_missing(names, known, from + 1);
    }
}

/// A set of names, such as the variables or the labels of a program.
pub struct NameSet {
    names: Vec<String>,
}

impl NameSet {
    /// The names, in the order in which they were first added.
    pub closed spec fn view(&self) -> Seq<Seq<char>> {
        Seq::new(self.names@.len(), |i: int| self.names@[i]@)
    }

    /// No name is held twice.
    pub closed spec fn wf(&self) -> bool {
        forall|i: int, j: int|
            0 <= i < j < self.names@.len() ==> self.names@[i]@ != self.names@[j]@
    }

    /// The empty set.
    pub fn new() -> (set: NameSet)
        ensures
            set@ == Seq::<Seq<char>>::empty(),
            set.wf(),
    {
        let set = NameSet { names: Vec::new() };
        assert(set@ =~= Seq::<Seq<char>>::empty());
        set
    }

    /// Whether `name` is in the set.
    pub fn contains(&self, name: &str) -> (found: bool)
        ensures
            found == self@.contains(name@),
    {
        let mut i: usize = 0;
        while i < self.names.len()
            invariant
                i <= self.names@.len(),
                forall|k: int| 0 <= k < i ==> self@[k] != name@,
            decreases self.names@.len() - i,
        {
            if str_eq(self.names[i].as_str(), name) {
                assert(self@[i as int] == name@);
                return true;
            }
            i = i + 1;
        }
        false
    }

    /// Adds `name`; a name already in the set is not added again.
    pub fn insert(&mut self, name: &str)
        requires
            old(self).wf(),
        ensures
            final(self)@ == with_name(old(self)@, name@),
            final(self).wf(),
    {
        if !self.contains(name) {
            self.names.push(name.to_owned());
            assert(self@ =~= old(self)@.push(name@));
            assert forall|i: int, j: int| 0 <= i < j < self.names@.len() implies self.names@[i]@
                != self.names@[j]@ by {
                if j == old(self).names@.len() {
                    assert(old(self)@[i] == self.names@[i]@);
                }
            }
        }
    }

    /// The first name of `self`, in the order in which they were added,
    /// that `known` does not hold.
    pub fn first_missing(&self, known: &NameSet) -> (missing: Option<String>)
        ensures
            match first_missing(self@, known@, 0) {
                Some(name) => missing matches Some(m) && m@ == name,
                None => missing is None,
            },
    {
        let mut i: usize = 0;
        while i < self.names.len()
            invariant
                i <= self.names@.len(),
                first_missing(self@, known@, i as int) == first_missing(self@, known@, 0),
            decreases self.names@.len() - i,
        {
            if !known.contains(self.names[i].as_str()) {
                return Some(self.names[i].clone());
            }
            i = i + 1;
        }
        None
    }
}

} // verus!
