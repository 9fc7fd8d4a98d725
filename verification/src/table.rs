//! A small table from numbers to values, kept in the order in which the
//! numbers came in.

use vstd::prelude::*;

verus! {

/// One number with its value.
#[derive(Copy, Clone, Debug)]
pub struct Slot<T> {
    pub key: u64,
    pub value: T,
}

/// The value of the first slot among `slots` that has this key.
pub open spec fn lookup<T>(slots: Seq<Slot<T>>, key: u64) -> Option<T>
    decreases slots.len(),
{
    if slots.len() == 0 {
        None
    } else if slots[0].key == key {
        Some(slots[0].value)
    } else {
        lookup(slots.drop_first(), key)
    }
}

/// The slots as a map.
pub open spec fn map_of<T>(slots: Seq<Slot<T>>) -> Map<u64, T> {
    Map::new(|k: u64| lookup(slots, k) is Some, |k: u64| lookup(slots, k).unwrap())
}

/// The slots but those of this key.
pub open spec fn without<T>(slots: Seq<Slot<T>>, key: u64) -> Seq<Slot<T>>
    decreases slots.len(),
{
    if slots.len() == 0 {
        Seq::empty()
    } else if slots.last().key == key {
        without(slots.drop_last(), key)
    } else {
        without(slots.drop_last(), key).push(slots.last())
    }
}

/// The keys of the slots, in order.
pub open spec fn keys_of<T>(slots: Seq<Slot<T>>) -> Seq<u64> {
    Seq::new(slots.len(), |i: int| slots[i].key)
}

/// Whether no two slots have the same key.
pub open spec fn distinct<T>(slots: Seq<Slot<T>>) -> bool {
    forall|i: int, j: int|
        0 <= i < slots.len() && 0 <= j < slots.len() && i != j ==> (#[trigger] slots[i]).key != (
        #[trigger] slots[j]).key
}

proof fn lemma_lookup_push<T>(slots: Seq<Slot<T>>, slot: Slot<T>, key: u64)
    ensures
        lookup(slots.push(slot), key) == if lookup(slots, key) is Some {
            lookup(slots, key)
        } else if slot.key == key {
            Some(slot.value)
        } else {
            None
        },
    decreases slots.len(),
{
    let all = slots.push(slot);
    if slots.len() == 0 {
        assert(all.drop_first() =~= Seq::<Slot<T>>::empty());
        assert(all[0] == slot);
        assert(lookup(all.drop_first(), key) is None);
    } else {
        assert(all.drop_first() =~= slots.drop_first().push(slot));
        assert(all[0] == slots[0]);
        if slots[0].key != key {
            lemma_lookup_push(slots.drop_first(), slot, key);
        }
    }
}

proof fn lemma_lookup_at<T>(slots: Seq<Slot<T>>, i: int)
    requires
        0 <= i < slots.len(),
    ensures
        lookup(slots, slots[i].key) is Some,
    decreases slots.len(),
{
    if slots[0].key != slots[i].key {
        assert(slots.drop_first()[i - 1] == slots[i]);
        lemma_lookup_at(slots.drop_first(), i - 1);
    }
}

proof fn lemma_lookup_found<T>(slots: Seq<Slot<T>>, key: u64)
    ensures
        lookup(slots, key) is Some <==> exists|i: int|
            0 <= i < slots.len() && (#[trigger] slots[i]).key == key,
    decreases slots.len(),
{
    if slots.len() > 0 {
        let rest = slots.drop_first();
        lemma_lookup_found(rest, key);
        if slots[0].key == key {
        } else {
            if lookup(rest, key) is Some {
                let i = choose|i: int| 0 <= i < rest.len() && (#[trigger] rest[i]).key == key;
                assert(slots[i + 1] == rest[i]);
            }
            if exists|i: int| 0 <= i < slots.len() && (#[trigger] slots[i]).key == key {
                let i = choose|i: int| 0 <= i < slots.len() && (#[trigger] slots[i]).key == key;
                assert(rest[i - 1] == slots[i]);
            }
        }
    }
}

proof fn lemma_lookup_without<T>(slots: Seq<Slot<T>>, key: u64, other: u64)
    ensures
        lookup(without(slots, key), other) == if other == key {
            None
        } else {
            lookup(slots, other)
        },
    decreases slots.len(),
{
    if slots.len() > 0 {
        let head = slots.drop_last();
        let last = slots.last();
        lemma_lookup_without(head, key, other);
        assert(head.push(last) =~= slots);
        lemma_lookup_push(head, last, other);
        if last.key != key {
            lemma_lookup_push(without(head, key), last, other);
        }
    }
}

proof fn lemma_map_without<T>(slots: Seq<Slot<T>>, key: u64)
    ensures
        map_of(without(slots, key)) == map_of(slots).remove(key),
{
    assert forall|k: u64|
        map_of(without(slots, key)).dom().contains(k) == map_of(slots).remove(key).dom().contains(
            k,
        ) by {
        lemma_lookup_without(slots, key, k);
    }
    assert forall|k: u64| #[trigger]
        map_of(without(slots, key)).dom().contains(k) implies map_of(without(slots, key))[k]
        == map_of(slots).remove(key)[k] by {
        lemma_lookup_without(slots, key, k);
    }
    assert(map_of(without(slots, key)) =~= map_of(slots).remove(key));
}

proof fn lemma_map_push<T>(slots: Seq<Slot<T>>, slot: Slot<T>)
    requires
        lookup(slots, slot.key) is None,
    ensures
        map_of(slots.push(slot)) == map_of(slots).insert(slot.key, slot.value),
{
    assert forall|k: u64|
        map_of(slots.push(slot)).dom().contains(k) == map_of(slots).insert(
            slot.key,
            slot.value,
        ).dom().contains(k) by {
        lemma_lookup_push(slots, slot, k);
    }
    assert forall|k: u64| #[trigger]
        map_of(slots.push(slot)).dom().contains(k) implies map_of(slots.push(slot))[k] == map_of(
        slots,
    ).insert(slot.key, slot.value)[k] by {
        lemma_lookup_push(slots, slot, k);
    }
    assert(map_of(slots.push(slot)) =~= map_of(slots).insert(slot.key, slot.value));
}

proof fn lemma_without_keys<T>(slots: Seq<Slot<T>>, key: u64)
    requires
        distinct(slots),
    ensures
        distinct(without(slots, key)),
        forall|i: int|
            0 <= i < without(slots, key).len() ==> (#[trigger] without(slots, key)[i]).key != key
                && lookup(slots, without(slots, key)[i].key) is Some,
    decreases slots.len(),
{
    if slots.len() > 0 {
        let head = slots.drop_last();
        let last = slots.last();
        assert(distinct(head)) by {
            assert forall|i: int, j: int|
                0 <= i < head.len() && 0 <= j < head.len() && i != j implies (#[trigger] head[i]).key
                != (#[trigger] head[j]).key by {
                assert(head[i] == slots[i] && head[j] == slots[j]);
            }
        }
        lemma_without_keys(head, key);
        let kept = without(head, key);
        assert forall|i: int| 0 <= i < kept.len() implies lookup(slots, (#[trigger] kept[i]).key)
            is Some by {
            lemma_lookup_found(head, kept[i].key);
            let j = choose|j: int| 0 <= j < head.len() && (#[trigger] head[j]).key == kept[i].key;
            assert(slots[j] == head[j]);
            lemma_lookup_at(slots, j);
        }
        if last.key != key {
            let all = kept.push(last);
            lemma_lookup_at(slots, slots.len() - 1);
            assert forall|i: int, j: int|
                0 <= i < all.len() && 0 <= j < all.len() && i != j implies (#[trigger] all[i]).key
                != (#[trigger] all[j]).key by {
                if i < kept.len() && j < kept.len() {
                    assert(all[i] == kept[i] && all[j] == kept[j]);
                } else {
                    let k = if i < kept.len() {
                        i
                    } else {
                        j
                    };
                    assert(all[k] == kept[k]);
                    lemma_lookup_found(head, kept[k].key);
                    let m = choose|m: int|
                        0 <= m < head.len() && (#[trigger] head[m]).key == kept[k].key;
                    assert(slots[m] == head[m]);
                    assert(slots[m].key != slots[slots.len() - 1].key);
                }
            }
        }
    }
}

/// A table from numbers to values. No number stands in it twice.
pub struct Slots<T> {
    slots: Vec<Slot<T>>,
}

impl<T: Copy> View for Slots<T> {
    type V = Map<u64, T>;

    closed spec fn view(&self) -> Map<u64, T> {
        map_of(self.slots@)
    }
}

impl<T> Slots<T> {
    #[verifier::type_invariant]
    spec fn no_key_twice(&self) -> bool {
        distinct(self.slots@)
    }
}

impl<T: Copy> Slots<T> {
    /// The keys in the order in which they came in.
    pub closed spec fn order(&self) -> Seq<u64> {
        keys_of(self.slots@)
    }

    /// The order holds each key of the table, once.
    pub proof fn lemma_order(&self)
        ensures
            forall|k: u64| self.order().contains(k) <==> self@.dom().contains(k),
    {
        assert forall|k: u64| self.order().contains(k) <==> self@.dom().contains(k) by {
            lemma_lookup_found(self.slots@, k);
            if self.order().contains(k) {
                let i = choose|i: int| 0 <= i < self.order().len() && self.order()[i] == k;
                assert(self.slots@[i].key == k);
            }
            if self@.dom().contains(k) {
                let i = choose|i: int|
                    0 <= i < self.slots@.len() && (#[trigger] self.slots@[i]).key == k;
                assert(self.order()[i] == k);
            }
        }
    }

    /// An empty table.
    pub fn new() -> (r: Slots<T>)
        ensures
            r@ == Map::<u64, T>::empty(),
            r.order() == Seq::<u64>::empty(),
    {
        let r = Slots { slots: Vec::new() };
        assert(r@ =~= Map::<u64, T>::empty());
        assert(r.order() =~= Seq::<u64>::empty());
        r
    }

    /// How many keys the table holds.
    pub fn len(&self) -> (r: usize)
        ensures
            r == self.order().len(),
    {
        self.slots.len()
    }

    /// The value of a key.
    pub fn get(&self, key: u64) -> (r: Option<T>)
        ensures
            r is Some == self@.dom().contains(key),
            r matches Some(value) ==> value == self@[key],
    {
        let mut i: usize = 0;
        assert(self.slots@.skip(0) =~= self.slots@);
        while i < self.slots.len()
            invariant
                i <= self.slots.len(),
                lookup(self.slots@, key) == lookup(self.slots@.skip(i as int), key),
            decreases self.slots.len() - i,
        {
            assert(self.slots@.skip(i as int)[0] == self.slots@[i as int]);
            assert(self.slots@.skip(i as int).drop_first() =~= self.slots@.skip(i + 1));
            if self.slots[i].key == key {
                return Some(self.slots[i].value);
            }
            i += 1;
        }
        None
    }

    /// The keys in the order in which they came in: each key of the
    /// table, once.
    pub fn keys(&self) -> (r: Vec<u64>)
        ensures
            r@ == self.order(),
            r@.no_duplicates(),
            forall|k: u64| r@.contains(k) <==> self@.dom().contains(k),
    {
        let mut out: Vec<u64> = Vec::new();
        let mut i: usize = 0;
        while i < self.slots.len()
            invariant
                i <= self.slots.len(),
                out@ == keys_of(self.slots@).take(i as int),
            decreases self.slots.len() - i,
        {
            out.push(self.slots[i].key);
            assert(keys_of(self.slots@).take(i + 1) =~= keys_of(self.slots@).take(i as int).push(
                self.slots@[i as int].key,
            ));
            i += 1;
        }
        proof {
            use_type_invariant(self);
            assert(keys_of(self.slots@).take(self.slots@.len() as int) =~= keys_of(self.slots@));
            assert(out@ == self.order());
            self.lemma_order();
            assert forall|k: u64| out@.contains(k) <==> self@.dom().contains(k) by {
                assert(self.order().contains(k) <==> self@.dom().contains(k));
            }
            assert forall|i: int, j: int|
                0 <= i < out@.len() && 0 <= j < out@.len() && i != j implies out@[i] != out@[j] by {
                assert(self.slots@[i].key != self.slots@[j].key);
            }
        }
        out
    }

    /// A key that the table does not hold: one above every key that it
    /// holds. There is none exactly if the table holds the largest number
    /// there is.
    pub fn fresh_key(&self) -> (r: Option<u64>)
        ensures
            r is None == self@.dom().contains(u64::MAX),
            r matches Some(key) ==> !self@.dom().contains(key),
            r matches Some(key) ==> forall|k: u64| self@.dom().contains(k) ==> k < key,
    {
        let mut next: u64 = 0;
        let mut i: usize = 0;
        while i < self.slots.len()
            invariant
                i <= self.slots.len(),
                forall|k: int| 0 <= k < i ==> (#[trigger] self.slots@[k]).key < next,
            decreases self.slots.len() - i,
        {
            let key = self.slots[i].key;
            if key == u64::MAX {
                proof {
                    lemma_lookup_at(self.slots@, i as int);
                }
                return None;
            }
            if key >= next {
                next = key + 1;
            }
            i += 1;
        }
        proof {
            assert forall|k: u64| self@.dom().contains(k) implies k < next by {
                lemma_lookup_found(self.slots@, k);
                let j = choose|j: int|
                    0 <= j < self.slots@.len() && (#[trigger] self.slots@[j]).key == k;
                assert(self.slots@[j].key < next);
            }
        }
        Some(next)
    }

    /// Takes a key out, and hands back its value if it had one.
    pub fn remove(&mut self, key: u64) -> (r: Option<T>)
        ensures
            r is Some == old(self)@.dom().contains(key),
            r matches Some(value) ==> value == old(self)@[key],
            final(self)@ == old(self)@.remove(key),
    {
        proof {
            use_type_invariant(&*self);
        }
        let found = self.get(key);
        let mut kept: Vec<Slot<T>> = Vec::new();
        let mut i: usize = 0;
        assert(self.slots@.take(0) =~= Seq::<Slot<T>>::empty());
        while i < self.slots.len()
            invariant
                i <= self.slots.len(),
                kept@ == without(self.slots@.take(i as int), key),
            decreases self.slots.len() - i,
        {
            let slot = self.slots[i];
            assert(self.slots@.take(i + 1).drop_last() =~= self.slots@.take(i as int));
            assert(self.slots@.take(i + 1).last() == slot);
            if slot.key != key {
                kept.push(slot);
            }
            i += 1;
        }
        proof {
            assert(self.slots@.take(self.slots@.len() as int) =~= self.slots@);
            lemma_map_without(self.slots@, key);
            lemma_without_keys(self.slots@, key);
        }
        self.slots = kept;
        found
    }

    /// Puts a value under a key, in place of the one that was there.
    pub fn insert(&mut self, key: u64, value: T)
        ensures
            final(self)@ == old(self)@.insert(key, value),
    {
        proof {
            use_type_invariant(&*self);
        }
        let mut kept: Vec<Slot<T>> = Vec::new();
        let mut i: usize = 0;
        assert(self.slots@.take(0) =~= Seq::<Slot<T>>::empty());
        while i < self.slots.len()
            invariant
                i <= self.slots.len(),
                kept@ == without(self.slots@.take(i as int), key),
            decreases self.slots.len() - i,
        {
            let slot = self.slots[i];
            assert(self.slots@.take(i + 1).drop_last() =~= self.slots@.take(i as int));
            assert(self.slots@.take(i + 1).last() == slot);
            if slot.key != key {
                kept.push(slot);
            }
            i += 1;
        }
        let slot = Slot { key, value };
        proof {
            assert(self.slots@.take(self.slots@.len() as int) =~= self.slots@);
            lemma_map_without(self.slots@, key);
            lemma_without_keys(self.slots@, key);
            lemma_lookup_without(self.slots@, key, key);
            lemma_map_push(kept@, slot);
            assert(map_of(self.slots@).remove(key).insert(key, value) =~= map_of(
                self.slots@,
            ).insert(key, value));
            let all = kept@.push(slot);
            assert forall|i: int, j: int|
                0 <= i < all.len() && 0 <= j < all.len() && i != j implies (#[trigger] all[i]).key
                != (#[trigger] all[j]).key by {
                if i < kept@.len() {
                    assert(all[i] == kept@[i]);
                }
                if j < kept@.len() {
                    assert(all[j] == kept@[j]);
                }
            }
        }
        kept.push(slot);
        self.slots = kept;
    }
}

} // verus!
