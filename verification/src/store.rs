use crate::errors::AppError;
use crate::identity::Identity;
use crate::record::StakeRecord;
use crate::vault::Vault;
use vstd::prelude::*;

verus! {

/// What is kept under one key: the stake record and, while the record holds a
/// stake, its principal vault.
#[derive(Clone, Copy, Debug, PartialEq, Eq)]
pub struct Position {
    pub record: StakeRecord,
    pub vault: Option<Vault>,
}

#[derive(Clone, Copy, Debug)]
struct Slot {
    key: Identity,
    position: Position,
}

/// The stake records, each under the identity derived for its staker and
/// asset: at most one under any key.
#[derive(Debug)]
pub struct RecordStore {
    slots: Vec<Slot>,
}

impl View for RecordStore {
    type V = Map<Identity, Position>;

    closed spec fn view(&self) -> Map<Identity, Position> {
        Map::new(
            |key: Identity| self.holds(key),
            |key: Identity| self.slots@[self.slot_of(key)].position,
        )
    }
}

impl RecordStore {
    spec fn at(&self, i: int, key: Identity) -> bool {
        0 <= i < self.slots@.len() && self.slots@[i].key == key
    }

    spec fn holds(&self, key: Identity) -> bool {
        exists|i: int| self.at(i, key)
    }

    spec fn slot_of(&self, key: Identity) -> int {
        choose|i: int| self.at(i, key)
    }

    /// No key is held twice.
    pub closed spec fn wf(&self) -> bool {
        forall|i: int, j: int|
            0 <= i < j < self.slots@.len() ==> self.slots@[i].key != self.slots@[j].key
    }

    proof fn lemma_slot(&self, i: int)
        requires
            self.wf(),
            0 <= i < self.slots@.len(),
        ensures
            self@.contains_key(self.slots@[i].key),
            self@[self.slots@[i].key] == self.slots@[i].position,
            self.slot_of(self.slots@[i].key) == i,
    {
        let key = self.slots@[i].key;
        assert(self.at(i, key));
        let j = self.slot_of(key);
        assert(self.at(j, key));
        if j < i {
            assert(self.slots@[j].key != self.slots@[i].key);
        } else if i < j {
            assert(self.slots@[i].key != self.slots@[j].key);
        }
    }

    proof fn lemma_absent(&self, key: Identity)
        requires
            forall|i: int| 0 <= i < self.slots@.len() ==> self.slots@[i].key != key,
        ensures
            !self@.contains_key(key),
    {
        if self.holds(key) {
            let j = self.slot_of(key);
            assert(self.at(j, key));
        }
    }

    /// A store that holds nothing.
    pub fn new() -> (store: RecordStore)
        ensures
            store.wf(),
            store@ == Map::<Identity, Position>::empty(),
    {
        let store = RecordStore { slots: Vec::new() };
        proof {
            assert forall|key: Identity| !store@.contains_key(key) by {
                store.lemma_absent(key);
            }
            assert(store@ =~= Map::<Identity, Position>::empty());
        }
        store
    }

    fn index_of(&self, key: &Identity) -> (found: Option<usize>)
        requires
            self.wf(),
        ensures
            match found {
                Some(i) => self.at(i as int, *key) && self@.contains_key(*key) && self@[*key]
                    == self.slots@[i as int].position,
                None => !self@.contains_key(*key),
            },
    {
        let mut i: usize = 0;
        while i < self.slots.len()
            invariant
                self.wf(),
                i <= self.slots@.len(),
                forall|k: int| 0 <= k < i ==> self.slots@[k].key != *key,
            decreases self.slots@.len() - i,
        {
            if self.slots[i].key.same(key) {
                proof {
                    self.lemma_slot(i as int);
                }
                return Some(i);
            }
            i += 1;
        }
        proof {
            self.lemma_absent(*key);
        }
        None
    }

    /// What is kept under `key`, if anything is.
    pub fn lookup(&self, key: &Identity) -> (found: Option<Position>)
        requires
            self.wf(),
        ensures
            found == if self@.contains_key(*key) {
                Some(self@[*key])
            } else {
                None
            },
    {
        match self.index_of(key) {
            Some(i) => Some(self.slots[i].position),
            None => None,
        }
    }

    /// Puts `position` under `key`, which must hold nothing yet: a key is
    /// created once. Refused with `AlreadyInitialized`, and the store
    /// unchanged, where the key holds something.
    pub fn create(&mut self, key: Identity, position: Position) -> (result: Result<(), AppError>)
        requires
            old(self).wf(),
        ensures
            final(self).wf(),
            old(self)@.contains_key(key) ==> result == Err::<(), AppError>(
                AppError::AlreadyInitialized,
            ) && final(self)@ == old(self)@,
            !old(self)@.contains_key(key) ==> result == Ok::<(), AppError>(()) && final(self)@
                == old(self)@.insert(key, position),
    {
        if self.index_of(&key).is_some() {
            return Err(AppError::AlreadyInitialized);
        }
        let ghost before = *self;
        self.slots.push(Slot { key, position });
        proof {
            let after = *self;
            let last = before.slots@.len() as int;
            assert forall|i: int, j: int|
                0 <= i < j < after.slots@.len() implies after.slots@[i].key
                != after.slots@[j].key by {
                if j == last {
                    assert(before.slots@[i].key != key) by {
                        if before.slots@[i].key == key {
                            assert(before.at(i, key));
                        }
                    }
                }
            }
            assert forall|k: Identity| #[trigger]
                after@.contains_key(k) == before@.insert(key, position).contains_key(k) by {
                if before.holds(k) {
                    let j = before.slot_of(k);
                    assert(after.at(j, k));
                }
                if after.holds(k) {
                    let j = after.slot_of(k);
                    if j != last {
                        assert(before.at(j, k));
                    }
                }
                assert(after.at(last, key));
            }
            assert forall|k: Identity| #[trigger] after@.contains_key(k) implies after@[k]
                == before@.insert(key, position)[k] by {
                let j = after.slot_of(k);
                assert(after.at(j, k));
                after.lemma_slot(j);
                if k != key {
                    assert(j != last);
                    before.lemma_slot(j);
                } else {
                    after.lemma_slot(last);
                }
            }
            assert(after@ =~= before@.insert(key, position));
        }
        Ok(())
    }

    /// Replaces what is kept under `key` by `position` and returns what was
    /// there. Where the key holds nothing, nothing changes.
    pub fn update(&mut self, key: &Identity, position: Position) -> (previous: Option<Position>)
        requires
            old(self).wf(),
        ensures
            final(self).wf(),
            old(self)@.contains_key(*key) ==> previous == Some(old(self)@[*key]) && final(self)@
                == old(self)@.insert(*key, position),
            !old(self)@.contains_key(*key) ==> previous.is_none() && final(self)@ == old(self)@,
    {
        match self.index_of(key) {
            None => None,
            Some(i) => {
                let ghost before = *self;
                let previous = self.slots[i].position;
                self.slots.set(i, Slot { key: *key, position });
                proof {
                    let after = *self;
                    assert forall|a: int, b: int|
                        0 <= a < b < after.slots@.len() implies after.slots@[a].key
                        != after.slots@[b].key by {
                        assert(before.slots@[a].key != before.slots@[b].key);
                    }
                    assert forall|k: Identity| #[trigger]
                        after@.contains_key(k) == before@.insert(*key, position).contains_key(
                        k,
                    ) by {
                        if before.holds(k) {
                            let j = before.slot_of(k);
                            assert(after.at(j, k));
                        }
                        if after.holds(k) {
                            let j = after.slot_of(k);
                            assert(before.at(j, k));
                        }
                        assert(after.at(i as int, *key));
                    }
                    assert forall|k: Identity| #[trigger] after@.contains_key(k) implies after@[k]
                        == before@.insert(*key, position)[k] by {
                        let j = after.slot_of(k);
                        assert(after.at(j, k));
                        after.lemma_slot(j);
                        if k != *key {
                            before.lemma_slot(j);
                        } else {
                            after.lemma_slot(i as int);
                        }
                    }
                    assert(after@ =~= before@.insert(*key, position));
                }
                Some(previous)
            },
        }
    }

    /// Takes what is kept under `key` out of the store, for good, and hands
    /// it back. Where the key holds nothing, nothing changes.
    pub fn delete(&mut self, key: &Identity) -> (removed: Option<Position>)
        requires
            old(self).wf(),
        ensures
            final(self).wf(),
            old(self)@.contains_key(*key) ==> removed == Some(old(self)@[*key]) && final(self)@
                == old(self)@.remove(*key),
            !old(self)@.contains_key(*key) ==> removed.is_none() && final(self)@ == old(self)@,
    {
        match self.index_of(key) {
            None => None,
            Some(i) => {
                let ghost before = *self;
                let slot = self.slots.remove(i);
                proof {
                    let after = *self;
                    let gone = i as int;
                    assert forall|a: int| 0 <= a < after.slots@.len() implies after.slots@[a]
                        == before.slots@[if a < gone {
                        a
                    } else {
                        a + 1
                    }] by {}
                    assert forall|a: int, b: int|
                        0 <= a < b < after.slots@.len() implies after.slots@[a].key
                        != after.slots@[b].key by {
                        let a0 = if a < gone { a } else { a + 1 };
                        let b0 = if b < gone { b } else { b + 1 };
                        assert(before.slots@[a0].key != before.slots@[b0].key);
                    }
                    assert forall|k: Identity| #[trigger]
                        after@.contains_key(k) == before@.remove(*key).contains_key(k) by {
                        if before.holds(k) && k != *key {
                            let j = before.slot_of(k);
                            assert(before.at(j, k));
                            let j1 = if j < gone { j } else { j - 1 };
                            assert(after.at(j1, k));
                        }
                        if after.holds(k) {
                            let j = after.slot_of(k);
                            assert(after.at(j, k));
                            let j0 = if j < gone { j } else { j + 1 };
                            assert(before.at(j0, k));
                            if k == *key {
                                before.lemma_slot(j0);
                                before.lemma_slot(gone);
                            }
                        }
                    }
                    assert forall|k: Identity| #[trigger] after@.contains_key(k) implies after@[k]
                        == before@.remove(*key)[k] by {
                        let j = after.slot_of(k);
                        assert(after.at(j, k));
                        after.lemma_slot(j);
                        let j0 = if j < gone { j } else { j + 1 };
                        before.lemma_slot(j0);
                    }
                    assert(after@ =~= before@.remove(*key));
                }
                Some(slot.position)
            },
        }
    }
}

} // verus!
