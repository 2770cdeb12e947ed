//! A set of account ids, kept as a vector without repeats.
use vstd::prelude::*;
use crate::text::{chars_of, seq_equal, str_to_string};

verus! {

/// The account ids that currently hold a mark (a warmup in progress, or a
/// queued automatic warmup).
pub struct AccountIdSet {
    ids: Vec<String>,
}

impl View for AccountIdSet {
    type V = Set<Seq<char>>;

    open spec fn view(&self) -> Set<Seq<char>> {
        self.id_seq().to_set()
    }
}

impl AccountIdSet {
    pub closed spec fn id_seq(&self) -> Seq<Seq<char>> {
        self.ids@.map_values(|s: String| s@)
    }

    /// No id is held twice (kept by every operation, so callers need not carry it).
    #[verifier::type_invariant]
    spec fn wf(self) -> bool {
        self.id_seq().no_duplicates()
    }

    pub fn new() -> (r: Self)
        ensures
            r@ == Set::<Seq<char>>::empty(),
    {
        let r = AccountIdSet { ids: Vec::new() };
        assert(r.id_seq() =~= Seq::<Seq<char>>::empty());
        assert(r@ =~= Set::<Seq<char>>::empty());
        r
    }

    fn index_of(&self, id: &str) -> (r: Option<usize>)
        ensures
            match r {
                Some(i) => i < self.ids@.len() && self.id_seq()[i as int] == id@,
                None => !self.id_seq().contains(id@),
            },
    {
        let target = chars_of(id);
        let mut i: usize = 0;
        while i < self.ids.len()
            invariant
                i <= self.ids@.len(),
                target@ == id@,
                forall|k: int| 0 <= k < i ==> self.id_seq()[k] != id@,
            decreases self.ids@.len() - i,
        {
            let cand = chars_of(self.ids[i].as_str());
            if seq_equal(&cand, &target) {
                return Some(i);
            }
            i += 1;
        }
        None
    }

    pub fn contains(&self, id: &str) -> (r: bool)
        ensures
            r == self@.contains(id@),
    {
        self.index_of(id).is_some()
    }

    /// Adds `id`; `true` when it was not held before (`HashSet::insert`).
    pub fn insert(&mut self, id: &str) -> (r: bool)
        ensures
            final(self)@ == old(self)@.insert(id@),
            r == !old(self)@.contains(id@),
    {
        match self.index_of(id) {
            Some(_) => false,
            None => {
                proof {
                    use_type_invariant(&*self);
                }
                let ghost before = self.id_seq();
                let mut ids: Vec<String> = Vec::new();
                std::mem::swap(&mut ids, &mut self.ids);
                ids.push(str_to_string(id));
                let ghost after = ids@.map_values(|s: String| s@);
                assert(after =~= before.push(id@));
                assert(after.no_duplicates()) by {
                    assert forall|a: int, b: int|
                        0 <= a < after.len() && 0 <= b < after.len() && a != b implies after[a]
                        != after[b] by {
                        if a < before.len() && b < before.len() {
                            assert(after[a] == before[a] && after[b] == before[b]);
                        } else if a < before.len() {
                            assert(before.contains(after[a]));
                        } else {
                            assert(before.contains(after[b]));
                        }
                    }
                }
                self.ids = ids;
                assert(self.id_seq() =~= before.push(id@));
                assert(self@ =~= before.to_set().insert(id@)) by {
                    assert forall|x: Seq<char>| self@.contains(x) <==> before.to_set().insert(
                        id@,
                    ).contains(x) by {
                        if x == id@ {
                            assert(self.id_seq()[before.len() as int] == x);
                        }
                        if before.contains(x) {
                            let k = choose|k: int| 0 <= k < before.len() && before[k] == x;
                            assert(self.id_seq()[k] == x);
                        }
                    }
                }
                true
            },
        }
    }

    /// Drops `id`; `true` when it was held (`HashSet::remove`).
    pub fn remove(&mut self, id: &str) -> (r: bool)
        ensures
            final(self)@ == old(self)@.remove(id@),
            r == old(self)@.contains(id@),
    {
        match self.index_of(id) {
            None => {
                assert(self@ =~= self@.remove(id@));
                false
            },
            Some(i) => {
                proof {
                    use_type_invariant(&*self);
                }
                let ghost before = self.id_seq();
                let mut ids: Vec<String> = Vec::new();
                std::mem::swap(&mut ids, &mut self.ids);
                ids.remove(i);
                let ghost after = ids@.map_values(|s: String| s@);
                assert(after =~= before.remove(i as int));
                assert(after.no_duplicates()) by {
                    assert forall|a: int, b: int|
                        0 <= a < after.len() && 0 <= b < after.len() && a != b implies after[a]
                        != after[b] by {
                        let a0: int = if a < i { a } else { a + 1 };
                        let b0: int = if b < i { b } else { b + 1 };
                        assert(after[a] == before[a0] && after[b] == before[b0]);
                    }
                }
                self.ids = ids;
                assert(self.id_seq() =~= before.remove(i as int));
                assert(self@ =~= before.to_set().remove(id@)) by {
                    assert forall|x: Seq<char>| self@.contains(x) <==> before.to_set().remove(
                        id@,
                    ).contains(x) by {
                        if self.id_seq().contains(x) {
                            let k = choose|k: int|
                                0 <= k < self.id_seq().len() && self.id_seq()[k] == x;
                            if k < i {
                                assert(before[k] == x);
                            } else {
                                assert(before[k + 1] == x);
                            }
                        }
                        if before.contains(x) && x != id@ {
                            let k = choose|k: int| 0 <= k < before.len() && before[k] == x;
                            if k < i {
                                assert(self.id_seq()[k] == x);
                            } else {
                                assert(self.id_seq()[k - 1] == x);
                            }
                        }
                    }
                }
                true
            },
        }
    }
}

} // verus!
