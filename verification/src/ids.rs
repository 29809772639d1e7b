//! Sets of MyAnimeList ids, kept in ascending order.

use vstd::prelude::*;

verus! {

/// Each element is smaller than those after it.
pub open spec fn strictly_ascending(ids: Seq<u64>) -> bool {
    forall|i: int, j: int| 0 <= i < j < ids.len() ==> ids[i] < ids[j]
}

/// A finite set of ids. It is held as the ascending list of its elements.
pub struct IdSet {
    ids: Vec<u64>,
}

impl View for IdSet {
    type V = Set<u64>;

    closed spec fn view(&self) -> Set<u64> {
        self.ids@.to_set()
    }
}

impl IdSet {
    #[verifier::type_invariant]
    spec fn ascending(&self) -> bool {
        strictly_ascending(self.ids@)
    }

    /// The empty set.
    pub fn new() -> (set: IdSet)
        ensures
            set@ == Set::<u64>::empty(),
    {
        let set = IdSet { ids: Vec::new() };
        assert(set.ids@.to_set() =~= Set::<u64>::empty());
        set
    }

    /// The number of ids below `id`, which is the place of `id` in the list
    /// where the set holds it.
    fn rank(&self, id: u64) -> (at: usize)
        ensures
            at <= self.ids@.len(),
            forall|i: int| 0 <= i < at ==> self.ids@[i] < id,
            forall|i: int| at <= i < self.ids@.len() ==> self.ids@[i] >= id,
    {
        proof {
            use_type_invariant(self);
        }
        let mut at: usize = 0;
        while at < self.ids.len() && self.ids[at] < id
            invariant
                at <= self.ids@.len(),
                forall|i: int| 0 <= i < at ==> self.ids@[i] < id,
            decreases self.ids@.len() - at,
        {
            at = at + 1;
        }
        at
    }

    /// Tells whether the set holds `id`.
    pub fn contains(&self, id: u64) -> (r: bool)
        ensures
            r == self@.contains(id),
    {
        let at = self.rank(id);
        let found = at < self.ids.len() && self.ids[at] == id;
        proof {
            if self.ids@.contains(id) {
                let k = choose|k: int| 0 <= k < self.ids@.len() && self.ids@[k] == id;
                use_type_invariant(self);
                if k > at {
                    assert(self.ids@[at as int] < self.ids@[k]);
                }
            }
            if found {
                assert(self.ids@[at as int] == id);
            }
        }
        found
    }

    /// Adds `id` to the set.
    pub fn insert(&mut self, id: u64)
        ensures
            final(self)@ == old(self)@.insert(id),
    {
        let at = self.rank(id);
        proof {
            use_type_invariant(&*self);
        }
        if at < self.ids.len() && self.ids[at] == id {
            assert(self.ids@.to_set().insert(id) =~= self.ids@.to_set());
        } else {
            let ghost before = self.ids@;
            let mut ids: Vec<u64> = Vec::new();
            core::mem::swap(&mut self.ids, &mut ids);
            ids.insert(at, id);
            assert(ids@ == before.insert(at as int, id));
            assert forall|i: int, j: int| 0 <= i < j < ids@.len() implies ids@[i] < ids@[j] by {
                let a = if i < at { i } else { i - 1 };
                let b = if j < at { j } else { j - 1 };
                if i != at && j != at {
                    assert(before[a] < before[b]);
                }
            }
            self.ids = ids;
            assert forall|x: u64| self.ids@.to_set().contains(x) == before.to_set().insert(
                id,
            ).contains(x) by {
                if before.contains(x) {
                    let k = choose|k: int| 0 <= k < before.len() && before[k] == x;
                    let m = if k < at { k } else { k + 1 };
                    assert(self.ids@[m] == x);
                }
                if x == id {
                    assert(self.ids@[at as int] == x);
                }
                if self.ids@.contains(x) {
                    let m = choose|m: int| 0 <= m < self.ids@.len() && self.ids@[m] == x;
                    if m != at {
                        let k = if m < at { m } else { m - 1 };
                        assert(before[k] == x);
                    }
                }
            }
            assert(self.ids@.to_set() =~= before.to_set().insert(id));
        }
    }

    /// Adds each of `ids` to the set.
    pub fn extend(&mut self, ids: &Vec<u64>)
        ensures
            final(self)@ == old(self)@ + ids@.to_set(),
    {
        let mut i: usize = 0;
        assert(ids@.take(0).to_set() =~= Set::<u64>::empty());
        assert(self@ + Set::<u64>::empty() =~= self@);
        while i < ids.len()
            invariant
                i <= ids.len(),
                self@ == old(self)@ + ids@.take(i as int).to_set(),
            decreases ids.len() - i,
        {
            self.insert(ids[i]);
            proof {
                let shorter = ids@.take(i as int);
                let longer = ids@.take(i + 1);
                assert(longer == shorter.push(ids@[i as int]));
                assert forall|x: u64| longer.to_set().contains(x) == shorter.to_set().insert(
                    ids@[i as int],
                ).contains(x) by {
                    if shorter.contains(x) {
                        let k = choose|k: int| 0 <= k < shorter.len() && shorter[k] == x;
                        assert(longer[k] == x);
                    }
                    if x == ids@[i as int] {
                        assert(longer[i as int] == x);
                    }
                    if longer.contains(x) {
                        let k = choose|k: int| 0 <= k < longer.len() && longer[k] == x;
                        if k < i {
                            assert(shorter[k] == x);
                        }
                    }
                }
                assert(longer.to_set() =~= shorter.to_set().insert(ids@[i as int]));
                assert(self@ =~= old(self)@ + longer.to_set());
            }
            i = i + 1;
        }
        assert(ids@.take(i as int) == ids@);
    }

    /// The ids of this set that `other` holds, where `wanted` is true, or
    /// those that it does not hold, where `wanted` is false.
    fn split_by(&self, other: &IdSet, wanted: bool) -> (part: IdSet)
        ensures
            forall|x: u64| part@.contains(x) == (self@.contains(x) && other@.contains(x) == wanted),
    {
        proof {
            use_type_invariant(self);
        }
        let mut kept: Vec<u64> = Vec::new();
        let mut i: usize = 0;
        while i < self.ids.len()
            invariant
                i <= self.ids@.len(),
                strictly_ascending(self.ids@),
                strictly_ascending(kept@),
                forall|k: int|
                    0 <= k < kept@.len() ==> exists|m: int|
                        0 <= m < i && self.ids@[m] == #[trigger] kept@[k],
                forall|k: int|
                    0 <= k < kept@.len() ==> other@.contains(#[trigger] kept@[k]) == wanted,
                forall|m: int|
                    0 <= m < i && other@.contains(#[trigger] self.ids@[m]) == wanted
                        ==> kept@.contains(self.ids@[m]),
            decreases self.ids@.len() - i,
        {
            let id = self.ids[i];
            if other.contains(id) == wanted {
                let ghost before = kept@;
                assert forall|k: int| 0 <= k < before.len() implies before[k] < id by {
                    let m = choose|m: int| 0 <= m < i && self.ids@[m] == before[k];
                    assert(self.ids@[m] < self.ids@[i as int]);
                }
                kept.push(id);
                assert forall|m: int|
                    0 <= m < i + 1 && other@.contains(#[trigger] self.ids@[m])
                        == wanted implies kept@.contains(self.ids@[m]) by {
                    if m < i {
                        let k = choose|k: int| 0 <= k < before.len() && before[k] == self.ids@[m];
                        assert(kept@[k] == self.ids@[m]);
                    } else {
                        assert(kept@[before.len() as int] == id);
                    }
                }
                assert forall|k: int| 0 <= k < kept@.len() implies exists|m: int|
                    0 <= m < i + 1 && self.ids@[m] == #[trigger] kept@[k] by {
                    if k < before.len() {
                        let m = choose|m: int| 0 <= m < i && self.ids@[m] == before[k];
                        assert(self.ids@[m] == kept@[k]);
                    } else {
                        assert(self.ids@[i as int] == kept@[k]);
                    }
                }
            }
            i = i + 1;
        }
        let part = IdSet { ids: kept };
        proof {
            assert forall|x: u64|
                part@.contains(x) == (self@.contains(x) && other@.contains(x) == wanted) by {
                if kept@.contains(x) {
                    let k = choose|k: int| 0 <= k < kept@.len() && kept@[k] == x;
                    let m = choose|m: int| 0 <= m < i && self.ids@[m] == kept@[k];
                    assert(self.ids@.contains(x));
                }
                if self.ids@.contains(x) && other@.contains(x) == wanted {
                    let m = choose|m: int| 0 <= m < self.ids@.len() && self.ids@[m] == x;
                    assert(kept@.contains(self.ids@[m]));
                }
            }
        }
        part
    }

    /// The ids of this set that `other` does not hold.
    pub fn without(&self, other: &IdSet) -> (rest: IdSet)
        ensures
            rest@ == self@.difference(other@),
    {
        let rest = self.split_by(other, false);
        assert(rest@ =~= self@.difference(other@));
        rest
    }

    /// The ids that both sets hold.
    pub fn common(&self, other: &IdSet) -> (both: IdSet)
        ensures
            both@ == self@.intersect(other@),
    {
        let both = self.split_by(other, true);
        assert(both@ =~= self@.intersect(other@));
        both
    }

    /// The ids of the set in ascending order, each once.
    pub fn to_vec(&self) -> (ids: Vec<u64>)
        ensures
            strictly_ascending(ids@),
            ids@.to_set() == self@,
    {
        proof {
            use_type_invariant(self);
        }
        self.ids.clone()
    }
}

} // verus!
