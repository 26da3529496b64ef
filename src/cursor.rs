//! A bidirectional selection cursor over an ordered list.
//!
//! The cursor is in one of three states: the list is empty, the list is
//! non-empty with nothing selected, or one index of the list is selected.
//! Stepping from "nothing selected" enters the list at the end that lies in
//! the direction of the step; stepping past either end does nothing.
use vstd::prelude::*;
use vstd::std_specs::cmp::PartialEqSpec;

verus! {

/// The index that a forward step leads to, from `cur` in a list of `len` items.
pub open spec fn step_next(len: nat, cur: Option<int>) -> Option<int> {
    match cur {
        None => if len == 0 { None } else { Some(0) },
        Some(i) => if i + 1 < len { Some(i + 1) } else { Some(i) },
    }
}

/// The index that a backward step leads to, from `cur` in a list of `len` items.
pub open spec fn step_previous(len: nat, cur: Option<int>) -> Option<int> {
    match cur {
        None => if len == 0 { None } else { Some(len - 1) },
        Some(i) => if i > 0 { Some(i - 1) } else { Some(i) },
    }
}

/// The selection after `n` forward steps.
pub open spec fn steps_next(len: nat, cur: Option<int>, n: nat) -> Option<int>
    decreases n,
{
    if n == 0 {
        cur
    } else {
        step_next(len, steps_next(len, cur, (n - 1) as nat))
    }
}

/// The selection after `n` backward steps.
pub open spec fn steps_previous(len: nat, cur: Option<int>, n: nat) -> Option<int>
    decreases n,
{
    if n == 0 {
        cur
    } else {
        step_previous(len, steps_previous(len, cur, (n - 1) as nat))
    }
}

/// The first index of `s` that holds an item equal to `v`, if there is one.
pub open spec fn first_match<T: PartialEq + PartialEqSpec>(s: Seq<T>, v: &T) -> Option<int> {
    if exists|i: int| 0 <= i < s.len() && #[trigger] s[i].eq_spec(v) {
        Some(
            choose|i: int|
                0 <= i < s.len() && s[i].eq_spec(v) && forall|j: int|
                    0 <= j < i ==> !(#[trigger] s[j].eq_spec(v)),
        )
    } else {
        None
    }
}

proof fn lemma_steps_next_advance(len: nat, i: int, k: nat)
    requires
        0 <= i,
        i + k < len,
    ensures
        steps_next(len, Some(i), k) == Some(i + k),
    decreases k,
{
    if k > 0 {
        lemma_steps_next_advance(len, i, (k - 1) as nat);
    }
}

proof fn lemma_steps_previous_retreat(len: nat, i: int, k: nat)
    requires
        k <= i < len,
    ensures
        steps_previous(len, Some(i), k) == Some(i - k),
    decreases k,
{
    if k > 0 {
        lemma_steps_previous_retreat(len, i, (k - 1) as nat);
    }
}

/// From any selected index `i` of a non-empty list, `len - 1 - i` forward
/// steps select the last item and one more forward step changes nothing;
/// likewise `i` backward steps select the first item and one more backward
/// step changes nothing.
pub proof fn lemma_steps_reach_the_ends(len: nat, i: int)
    requires
        0 <= i < len,
    ensures
        steps_next(len, Some(i), (len - 1 - i) as nat) == Some(len - 1),
        step_next(len, Some(len - 1)) == Some(len - 1),
        steps_previous(len, Some(i), i as nat) == Some(0int),
        step_previous(len, Some(0int)) == Some(0int),
{
    lemma_steps_next_advance(len, i, (len - 1 - i) as nat);
    lemma_steps_previous_retreat(len, i, i as nat);
}

#[derive(Debug)]
pub struct StatefulVec<T> {
    storage: Vec<T>,
    current: Option<usize>,
}

impl<T> StatefulVec<T> {
    #[verifier::type_invariant]
    spec fn inv(self) -> bool {
        match self.current {
            Some(i) => i < self.storage.len(),
            None => true,
        }
    }

    /// The items, in order.
    pub closed spec fn items(&self) -> Seq<T> {
        self.storage@
    }

    /// The selected index, if any.
    pub closed spec fn selection(&self) -> Option<int> {
        match self.current {
            Some(i) => Some(i as int),
            None => None,
        }
    }

    pub fn new(storage: Vec<T>, current: Option<usize>) -> (r: Self)
        ensures
            r.items() == storage@,
            r.selection() == (match current {
                Some(i) => if i < storage@.len() { Some(i as int) } else { None::<int> },
                None => None::<int>,
            }),
    {
        let current = match current {
            Some(current) => {
                if current >= storage.len() {
                    None
                } else {
                    Some(current)
                }
            },
            None => None,
        };
        StatefulVec { storage, current }
    }

    /// The items, in order.
    pub fn storage(&self) -> (r: &Vec<T>)
        ensures
            r@ == self.items(),
    {
        &self.storage
    }

    /// The selected index, if any.
    pub fn current(&self) -> (r: Option<usize>)
        ensures
            r matches Some(i) ==> self.selection() == Some(i as int) && i < self.items().len(),
            r.is_none() ==> self.selection().is_none(),
    {
        proof {
            use_type_invariant(self);
        }
        self.current
    }

    pub fn has_previous(&self) -> (r: bool)
        ensures
            r == (step_previous(self.items().len(), self.selection()) != self.selection()),
    {
        proof {
            use_type_invariant(self);
        }
        match self.current {
            Some(current) => current > 0,
            None => self.storage.len() > 0,
        }
    }

    pub fn select_previous(&mut self)
        ensures
            final(self).items() == old(self).items(),
            final(self).selection() == step_previous(old(self).items().len(), old(self).selection()),
    {
        proof {
            use_type_invariant(&*self);
        }
        if !self.has_previous() {
            return ;
        }
        self.current = match self.current {
            Some(current) => Some(current - 1),
            None => Some(self.storage.len() - 1),
        };
    }

    pub fn has_next(&self) -> (r: bool)
        ensures
            r == (step_next(self.items().len(), self.selection()) != self.selection()),
    {
        proof {
            use_type_invariant(self);
        }
        match self.current {
            Some(current) => current + 1 < self.storage.len(),
            None => self.storage.len() > 0,
        }
    }

    pub fn select_next(&mut self)
        ensures
            final(self).items() == old(self).items(),
            final(self).selection() == step_next(old(self).items().len(), old(self).selection()),
    {
        proof {
            use_type_invariant(&*self);
        }
        if !self.has_next() {
            return ;
        }
        self.current = match self.current {
            Some(current) => Some(current + 1),
            None => Some(0),
        };
    }

    pub fn current_item(&self) -> (r: Option<&T>)
        ensures
            self.selection() matches Some(i) ==> 0 <= i < self.items().len(),
            r == (match self.selection() {
                Some(i) => Some(&self.items()[i]),
                None => None::<&T>,
            }),
    {
        proof {
            use_type_invariant(self);
        }
        match self.current {
            Some(current) => Some(&self.storage[current]),
            None => None,
        }
    }
}

impl<T: PartialEq + PartialEqSpec> StatefulVec<T> {
    /// Selects the first item equal to `value`; leaves the selection as it
    /// was when no item is.
    pub fn select_if_found(&mut self, value: &T)
        requires
            T::obeys_eq_spec(),
        ensures
            final(self).items() == old(self).items(),
            final(self).selection() == (match first_match(old(self).items(), value) {
                Some(i) => Some(i),
                None => old(self).selection(),
            }),
    {
        proof {
            use_type_invariant(&*self);
        }
        let mut i: usize = 0;
        while i < self.storage.len()
            invariant
                0 <= i <= self.storage@.len(),
                forall|j: int| 0 <= j < i ==> !(#[trigger] self.storage@[j].eq_spec(value)),
                self.storage@ == old(self).storage@,
                self.current == old(self).current,
                T::obeys_eq_spec(),
            decreases self.storage@.len() - i,
        {
            if self.storage[i].eq(value) {
                proof {
                    let s = self.storage@;
                    assert(s[i as int].eq_spec(value));
                    let k = choose|k: int|
                        0 <= k < s.len() && s[k].eq_spec(value) && forall|j: int|
                            0 <= j < k ==> !(#[trigger] s[j].eq_spec(value));
                    assert(k == i as int);
                }
                self.current = Some(i);
                return ;
            }
            i = i + 1;
        }
    }
}

} // verus!
