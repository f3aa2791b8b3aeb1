//! A map keyed by animation state, stored densely by state code.

use vstd::prelude::*;
use crate::state::{AnimState, STATE_COUNT, lemma_code_inverse, lemma_code_injective};

verus! {

/// The map that a sequence of key/value pairs describes when each pair is
/// inserted in turn: a later pair for a key replaces an earlier one.
pub open spec fn map_of_pairs<K, V>(s: Seq<(K, V)>) -> Map<K, V>
    decreases s.len(),
{
    if s.len() == 0 {
        Map::empty()
    } else {
        map_of_pairs(s.drop_last()).insert(s.last().0, s.last().1)
    }
}

/// A finite map from `AnimState` to `V`, one slot per state.
pub struct StateTable<V> {
    slots: Vec<Option<V>>,
}

impl<V> View for StateTable<V> {
    type V = Map<AnimState, V>;

    open spec fn view(&self) -> Map<AnimState, V> {
        Map::new(
            |s: AnimState| self.slot(s) is Some,
            |s: AnimState| self.slot(s)->Some_0,
        )
    }
}

impl<V> StateTable<V> {
    pub closed spec fn slot(&self, s: AnimState) -> Option<V> {
        self.slots@[s.spec_code() as int]
    }

    pub closed spec fn wf(&self) -> bool {
        self.slots@.len() == STATE_COUNT
    }
}

impl<V: Copy> StateTable<V> {

    /// The table with no entries.
    pub fn new() -> (r: Self)
        ensures
            r.wf(),
            r@ == Map::<AnimState, V>::empty(),
    {
        let mut slots: Vec<Option<V>> = Vec::new();
        let mut i: usize = 0;
        while i < STATE_COUNT
            invariant
                i <= STATE_COUNT,
                slots@.len() == i,
                forall|j: int| 0 <= j < i ==> slots@[j] is None,
            decreases STATE_COUNT - i,
        {
            slots.push(None);
            i = i + 1;
        }
        let r = StateTable { slots };
        assert(r@ =~= Map::<AnimState, V>::empty()) by {
            assert forall|s: AnimState| !(#[trigger] r@.dom().contains(s)) by {
                lemma_code_inverse(s);
            }
        }
        r
    }

    /// The value stored for `s`, if any.
    pub fn get(&self, s: AnimState) -> (r: Option<V>)
        requires
            self.wf(),
        ensures
            r == (if self@.contains_key(s) { Some(self@[s]) } else { None }),
    {
        proof {
            lemma_code_inverse(s);
        }
        self.slots[s.code()]
    }

    /// Whether `s` has an entry.
    pub fn contains(&self, s: AnimState) -> (r: bool)
        requires
            self.wf(),
        ensures
            r == self@.contains_key(s),
    {
        proof {
            lemma_code_inverse(s);
        }
        self.slots[s.code()].is_some()
    }

    /// Stores `v` for `s`, replacing any earlier value.
    pub fn insert(&mut self, s: AnimState, v: V)
        requires
            old(self).wf(),
        ensures
            final(self).wf(),
            final(self)@ == old(self)@.insert(s, v),
    {
        proof {
            lemma_code_inverse(s);
        }
        let c = s.code();
        self.slots.set(c, Some(v));
        proof {
            assert forall|t: AnimState| #[trigger] self.slot(t) == (if t == s {
                Some(v)
            } else {
                old(self).slot(t)
            }) by {
                lemma_code_injective(s, t);
                lemma_code_inverse(t);
            }
        }
        assert(self@ =~= old(self)@.insert(s, v));
    }

    /// Builds the table that a list of pairs describes, later pairs winning.
    pub fn from_pairs(pairs: &Vec<(AnimState, V)>) -> (r: Self)
        ensures
            r.wf(),
            r@ == map_of_pairs(pairs@),
    {
        let mut r = Self::new();
        let mut i: usize = 0;
        while i < pairs.len()
            invariant
                i <= pairs@.len(),
                r.wf(),
                r@ == map_of_pairs(pairs@.subrange(0, i as int)),
            decreases pairs@.len() - i,
        {
            let (k, v) = pairs[i];
            r.insert(k, v);
            assert(pairs@.subrange(0, i + 1).drop_last() =~= pairs@.subrange(0, i as int));
            i = i + 1;
        }
        assert(pairs@.subrange(0, pairs@.len() as int) =~= pairs@);
        r
    }

    /// The entries in order of state code, one per key.
    pub fn to_pairs(&self) -> (r: Vec<(AnimState, V)>)
        requires
            self.wf(),
        ensures
            map_of_pairs(r@) == self@,
    {
        let mut r: Vec<(AnimState, V)> = Vec::new();
        let mut i: usize = 0;
        while i < STATE_COUNT
            invariant
                i <= STATE_COUNT,
                self.wf(),
                map_of_pairs(r@) == self@.restrict(
                    Set::new(|s: AnimState| s.spec_code() < i),
                ),
            decreases STATE_COUNT - i,
        {
            let s = AnimState::from_code(i);
            let ghost old_r = r@;
            if let Some(v) = self.slots[i] {
                r.push((s, v));
                assert(r@.drop_last() == old_r);
            }
            proof {
                lemma_code_inverse(s);
                let lo = Set::new(|t: AnimState| t.spec_code() < i);
                let hi = Set::new(|t: AnimState| t.spec_code() < i + 1);
                assert forall|t: AnimState| #[trigger] hi.contains(t) == (lo.contains(t) || t
                    == s) by {
                    lemma_code_injective(s, t);
                }
                assert(map_of_pairs(r@) =~= self@.restrict(hi));
            }
            i = i + 1;
        }
        proof {
            assert forall|t: AnimState| #[trigger] self@.dom().contains(t) implies Set::new(
                |u: AnimState| u.spec_code() < STATE_COUNT,
            ).contains(t) by {
                lemma_code_inverse(t);
            }
            assert(map_of_pairs(r@) =~= self@);
        }
        r
    }
}

} // verus!
