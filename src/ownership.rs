//! Handler state handed across the native boundary.
//!
//! A delegate instance cannot own Rust values; it stores keys. The table owns
//! the values: installing one returns its key, lending it out to a callback
//! and restoring it keep it owned, and redeeming the key at teardown hands it
//! back exactly once.

use vstd::prelude::*;

verus! {

/// What the table holds under one key.
pub enum Slot<T> {
    /// Owned by the table.
    Held(T),
    /// Handed to a callback that runs now; it comes back by `restore`.
    Lent,
    /// Handed back at teardown; the key is spent.
    Reclaimed,
}

/// The slots after a value is installed: it goes under a new key, the next
/// one.
pub open spec fn install_spec<T>(slots: Seq<Slot<T>>, value: T) -> Seq<Slot<T>> {
    slots.push(Slot::Held(value))
}

/// The slots after `key` is redeemed: a held value is reclaimed; anything
/// else is left as it was.
pub open spec fn redeem_spec<T>(slots: Seq<Slot<T>>, key: int) -> Seq<Slot<T>> {
    if 0 <= key < slots.len() && slots[key] is Held {
        slots.update(key, Slot::Reclaimed)
    } else {
        slots
    }
}

/// The value that redeeming `key` hands back, if any.
pub open spec fn redeemed_value<T>(slots: Seq<Slot<T>>, key: int) -> Option<T> {
    if 0 <= key < slots.len() && slots[key] is Held {
        Some(slots[key]->Held_0)
    } else {
        None
    }
}

/// How many keys have been redeemed.
pub open spec fn reclaimed_count<T>(slots: Seq<Slot<T>>) -> nat
    decreases slots.len(),
{
    if slots.len() == 0 {
        0
    } else {
        reclaimed_count(slots.drop_last()) + if slots.last() is Reclaimed {
            1nat
        } else {
            0nat
        }
    }
}

/// Values owned on behalf of native objects, each under the key that the
/// object stores.
pub struct HandleTable<T> {
    slots: Vec<Slot<T>>,
    reclaimed: usize,
}

impl<T> HandleTable<T> {
    /// The slot under each key; keys are positions.
    pub closed spec fn slots(&self) -> Seq<Slot<T>> {
        self.slots@
    }

    /// The counter of reclaimed keys matches the slots.
    pub closed spec fn wf(&self) -> bool {
        self.reclaimed as nat == reclaimed_count(self.slots@)
    }

    /// An empty table.
    pub fn new() -> (t: HandleTable<T>)
        ensures
            t.wf(),
            t.slots() == Seq::<Slot<T>>::empty(),
    {
        HandleTable { slots: Vec::new(), reclaimed: 0 }
    }

    /// How many keys have been handed out.
    pub fn installed(&self) -> (n: usize)
        ensures
            n == self.slots().len(),
    {
        self.slots.len()
    }

    /// How many keys have been redeemed.
    pub fn reclaimed(&self) -> (n: usize)
        requires
            self.wf(),
        ensures
            n == reclaimed_count(self.slots()),
    {
        self.reclaimed
    }

    /// Takes ownership of `value` and returns the key it is held under.
    pub fn install(&mut self, value: T) -> (key: usize)
        requires
            old(self).wf(),
            old(self).slots().len() < usize::MAX,
        ensures
            final(self).wf(),
            key == old(self).slots().len(),
            final(self).slots() == install_spec(old(self).slots(), value),
    {
        let key = self.slots.len();
        self.slots.push(Slot::Held(value));
        proof {
            assert(self.slots@.drop_last() =~= old(self).slots@);
        }
        key
    }

    fn replace_slot(&mut self, key: usize, slot: Slot<T>) -> (previous: Slot<T>)
        requires
            key < old(self).slots@.len(),
        ensures
            previous == old(self).slots@[key as int],
            final(self).slots@ == old(self).slots@.update(key as int, slot),
            final(self).reclaimed == old(self).reclaimed,
    {
        self.slots.push(slot);
        let previous = self.slots.swap_remove(key);
        proof {
            assert(self.slots@ =~= old(self).slots@.update(key as int, slot));
        }
        previous
    }

    /// Hands back the value held under `key`, spending the key; a key that
    /// holds nothing (never handed out, lent, or already redeemed) gives
    /// `None` and changes nothing.
    pub fn redeem(&mut self, key: usize) -> (r: Option<T>)
        requires
            old(self).wf(),
        ensures
            final(self).wf(),
            r == redeemed_value(old(self).slots(), key as int),
            final(self).slots() == redeem_spec(old(self).slots(), key as int),
    {
        let len = self.slots.len();
        if key >= len {
            return None;
        }
        let previous = self.replace_slot(key, Slot::Reclaimed);
        match previous {
            Slot::Held(v) => {
                proof {
                    lemma_reclaim_counts(old(self).slots@, key as int);
                    lemma_count_bounded(self.slots@);
                }
                self.reclaimed = self.reclaimed + 1;
                Some(v)
            },
            other => {
                let _ = self.replace_slot(key, other);
                proof {
                    assert(self.slots@ =~= old(self).slots@);
                }
                None
            },
        }
    }

    /// Lends the value held under `key` to a callback; `None` when nothing is
    /// held there.
    pub fn lend(&mut self, key: usize) -> (r: Option<T>)
        requires
            old(self).wf(),
        ensures
            final(self).wf(),
            r == redeemed_value(old(self).slots(), key as int),
            r is Some ==> final(self).slots() == old(self).slots().update(key as int, Slot::Lent),
            r is None ==> final(self).slots() == old(self).slots(),
    {
        if key >= self.slots.len() {
            return None;
        }
        let previous = self.replace_slot(key, Slot::Lent);
        match previous {
            Slot::Held(v) => {
                proof {
                    lemma_count_same_kind(old(self).slots@, key as int, Slot::Lent);
                }
                Some(v)
            },
            other => {
                let _ = self.replace_slot(key, other);
                proof {
                    assert(self.slots@ =~= old(self).slots@);
                }
                None
            },
        }
    }

    /// Takes back a value lent under `key`. Where nothing is lent under
    /// `key`, the value is not taken and comes back as `Some`.
    pub fn restore(&mut self, key: usize, value: T) -> (refused: Option<T>)
        requires
            old(self).wf(),
        ensures
            final(self).wf(),
            (0 <= key < old(self).slots().len() && old(self).slots()[key as int] is Lent) ==> refused is None
                && final(self).slots() == old(self).slots().update(key as int, Slot::Held(value)),
            !(0 <= key < old(self).slots().len() && old(self).slots()[key as int] is Lent) ==> refused == Some(value)
                && final(self).slots() == old(self).slots(),
    {
        if key >= self.slots.len() || !matches!(self.slots[key], Slot::Lent) {
            return Some(value);
        }
        let _ = self.replace_slot(key, Slot::Held(value));
        proof {
            lemma_count_same_kind(old(self).slots@, key as int, Slot::Held(value));
        }
        None
    }
}

/// No more keys are redeemed than were handed out.
pub proof fn lemma_count_bounded<T>(slots: Seq<Slot<T>>)
    ensures
        reclaimed_count(slots) <= slots.len(),
    decreases slots.len(),
{
    if slots.len() > 0 {
        lemma_count_bounded(slots.drop_last());
    }
}

/// Reclaiming a slot that is not yet reclaimed adds one to the count.
pub proof fn lemma_reclaim_counts<T>(slots: Seq<Slot<T>>, key: int)
    requires
        0 <= key < slots.len(),
        !(slots[key] is Reclaimed),
    ensures
        reclaimed_count(slots.update(key, Slot::Reclaimed)) == reclaimed_count(slots) + 1,
    decreases slots.len(),
{
    let s2 = slots.update(key, Slot::Reclaimed);
    if key == slots.len() - 1 {
        assert(s2.drop_last() =~= slots.drop_last());
    } else {
        assert(s2.drop_last() =~= slots.drop_last().update(key, Slot::Reclaimed));
        lemma_reclaim_counts(slots.drop_last(), key);
    }
}

/// Changing a slot that is not reclaimed into another that is not leaves the
/// count as it was.
pub proof fn lemma_count_same_kind<T>(slots: Seq<Slot<T>>, key: int, slot: Slot<T>)
    requires
        0 <= key < slots.len(),
        !(slots[key] is Reclaimed),
        !(slot is Reclaimed),
    ensures
        reclaimed_count(slots.update(key, slot)) == reclaimed_count(slots),
    decreases slots.len(),
{
    let s2 = slots.update(key, slot);
    if key == slots.len() - 1 {
        assert(s2.drop_last() =~= slots.drop_last());
    } else {
        assert(s2.drop_last() =~= slots.drop_last().update(key, slot));
        lemma_count_same_kind(slots.drop_last(), key, slot);
    }
}

} // verus!

verus! {

/// The slots after installing each of `values`, in order.
pub open spec fn install_all<T>(slots: Seq<Slot<T>>, values: Seq<T>) -> Seq<Slot<T>>
    decreases values.len(),
{
    if values.len() == 0 {
        slots
    } else {
        install_spec(install_all(slots, values.drop_last()), values.last())
    }
}

/// The slots after redeeming each of `keys`, in order.
pub open spec fn redeem_all<T>(slots: Seq<Slot<T>>, keys: Seq<int>) -> Seq<Slot<T>>
    decreases keys.len(),
{
    if keys.len() == 0 {
        slots
    } else {
        redeem_spec(redeem_all(slots, keys.drop_last()), keys.last())
    }
}

/// The keys that installing `n` values hands out after `first`.
pub open spec fn keys_from(first: int, n: nat) -> Seq<int> {
    Seq::new(n, |i: int| first + i)
}

proof fn lemma_install_all<T>(slots: Seq<Slot<T>>, values: Seq<T>)
    ensures
        install_all(slots, values) == slots + values.map_values(|v: T| Slot::Held(v)),
        reclaimed_count(install_all(slots, values)) == reclaimed_count(slots),
    decreases values.len(),
{
    if values.len() == 0 {
        assert(slots + values.map_values(|v: T| Slot::Held(v)) =~= slots);
    } else {
        lemma_install_all(slots, values.drop_last());
        let before = install_all(slots, values.drop_last());
        assert(before.push(Slot::Held(values.last())).drop_last() =~= before);
        assert(slots + values.map_values(|v: T| Slot::Held(v)) =~= (slots + values.drop_last().map_values(
            |v: T| Slot::Held(v),
        )).push(Slot::Held(values.last())));
    }
}

/// The slots after `done` of the installed values have been redeemed again.
spec fn cycled<T>(slots: Seq<Slot<T>>, values: Seq<T>, done: nat) -> Seq<Slot<T>> {
    slots + Seq::new(done, |i: int| Slot::<T>::Reclaimed) + values.subrange(done as int, values.len() as int).map_values(
        |v: T| Slot::Held(v),
    )
}

proof fn lemma_redeem_in_turn<T>(slots: Seq<Slot<T>>, values: Seq<T>, done: nat)
    requires
        done <= values.len(),
    ensures
        redeem_all(install_all(slots, values), keys_from(slots.len() as int, done)) == cycled(slots, values, done),
        reclaimed_count(cycled(slots, values, done)) == reclaimed_count(slots) + done,
        forall|i: int|
            0 <= i < done ==> #[trigger] redeemed_value(
                redeem_all(install_all(slots, values), keys_from(slots.len() as int, i as nat)),
                slots.len() + i,
            ) == Some(values[i]),
    decreases done,
{
    lemma_install_all(slots, values);
    let n = slots.len() as int;
    if done == 0 {
        assert(keys_from(n, 0) =~= Seq::<int>::empty());
        assert(cycled(slots, values, 0) =~= slots + values.map_values(|v: T| Slot::Held(v)));
    } else {
        let d = (done - 1) as nat;
        lemma_redeem_in_turn(slots, values, d);
        let keys = keys_from(n, done);
        assert(keys.drop_last() =~= keys_from(n, d));
        assert(keys.last() == n + d);
        let before = cycled(slots, values, d);
        assert(before[n + d] == Slot::Held(values[d as int]));
        assert(before.update(n + d, Slot::Reclaimed) =~= cycled(slots, values, done));
        lemma_reclaim_counts(before, n + d);
    }
}

/// Creating handler state for `values.len()` native objects and tearing each
/// object down again hands each value back once, to its own teardown, and
/// counts exactly that many reclaims; redeeming any of those keys once more
/// finds nothing and changes nothing, so no value is freed twice.
pub proof fn lemma_create_destroy_cycles<T>(slots: Seq<Slot<T>>, values: Seq<T>)
    ensures
        ({
            let keys = keys_from(slots.len() as int, values.len());
            let end = redeem_all(install_all(slots, values), keys);
            &&& reclaimed_count(end) == reclaimed_count(slots) + values.len()
            &&& forall|i: int|
                0 <= i < values.len() ==> #[trigger] redeemed_value(
                    redeem_all(install_all(slots, values), keys.take(i)),
                    keys[i],
                ) == Some(values[i])
            &&& forall|i: int|
                0 <= i < values.len() ==> redeemed_value(end, #[trigger] keys[i]) is None && redeem_spec(
                    end,
                    keys[i],
                ) == end
        }),
{
    let n = slots.len() as int;
    let keys = keys_from(n, values.len());
    lemma_redeem_in_turn(slots, values, values.len());
    let end = redeem_all(install_all(slots, values), keys);
    assert forall|i: int| 0 <= i < values.len() implies #[trigger] redeemed_value(
        redeem_all(install_all(slots, values), keys.take(i)),
        keys[i],
    ) == Some(values[i]) by {
        assert(keys.take(i) =~= keys_from(n, i as nat));
        assert(redeemed_value(
            redeem_all(install_all(slots, values), keys_from(n, i as nat)),
            n + i,
        ) == Some(values[i]));
    }
    assert forall|i: int| 0 <= i < values.len() implies redeemed_value(end, #[trigger] keys[i]) is None
        && redeem_spec(end, keys[i]) == end by {
        assert(end[n + i] == Slot::<T>::Reclaimed);
    }
}

} // verus!
