//! A pool of entries that are drawn for exclusive use and may have closed in
//! the meantime.

use vstd::prelude::*;
use std::collections::VecDeque;

verus! {

/// What the pool asks of an entry: whether it has closed.
pub trait PoolEntry {
    /// Whether the entry has closed, as contracts speak of it.
    spec fn closed(&self) -> bool;

    /// Whether the entry has closed. The pool calls this, and relies on it
    /// to answer as `closed` does.
    fn is_closed(&self) -> (closed: bool)
        ensures
            closed == self.closed(),
    ;
}

/// The entries of a pool, in the order in which they are drawn. Closed
/// entries stay in the pool until a draw meets them.
pub struct Pool<T> {
    entries: VecDeque<T>,
}

impl<T> View for Pool<T> {
    type V = Seq<T>;

    closed spec fn view(&self) -> Seq<T> {
        self.entries@
    }
}

/// The number of closed entries that stand in front of the first live one.
pub open spec fn leading_closed<T: PoolEntry>(entries: Seq<T>) -> nat
    decreases entries.len(),
{
    if entries.len() == 0 || !entries[0].closed() {
        0
    } else {
        1 + leading_closed(entries.drop_first())
    }
}

/// `leading_closed` stops at the first live entry: every entry in front of
/// that position is closed, and the entry at it, if there is one, is live.
pub proof fn lemma_leading_closed<T: PoolEntry>(entries: Seq<T>)
    ensures
        leading_closed(entries) <= entries.len(),
        forall|i: int| 0 <= i < leading_closed(entries) ==> (#[trigger] entries[i]).closed(),
        leading_closed(entries) < entries.len() ==> !entries[leading_closed(entries) as int].closed(),
    decreases entries.len(),
{
    if entries.len() > 0 && entries[0].closed() {
        let rest = entries.drop_first();
        lemma_leading_closed(rest);
        assert(leading_closed(entries) == 1 + leading_closed(rest));
        assert forall|i: int| 0 <= i < leading_closed(entries) implies (#[trigger] entries[i]).closed() by {
            if i > 0 {
                assert(entries[i] == rest[i - 1]);
            }
        }
        if leading_closed(entries) < entries.len() {
            assert(entries[leading_closed(entries) as int] == rest[leading_closed(rest) as int]);
        }
    }
}

/// The entry that a draw takes from `entries`: the first live one, if any.
pub open spec fn drawn<T: PoolEntry>(entries: Seq<T>) -> Option<T> {
    if leading_closed(entries) < entries.len() {
        Some(entries[leading_closed(entries) as int])
    } else {
        None
    }
}

/// The entries that a draw leaves of `entries`: those behind the first live
/// one. The closed entries in front of it are gone, and so are all where
/// none is live.
pub open spec fn left<T: PoolEntry>(entries: Seq<T>) -> Seq<T> {
    if leading_closed(entries) < entries.len() {
        entries.skip(leading_closed(entries) as int + 1)
    } else {
        Seq::empty()
    }
}

/// A draw never takes a closed entry: what it takes is an entry of the pool
/// that is live, and it takes nothing exactly when no entry is live.
pub proof fn lemma_drawn_is_live<T: PoolEntry>(entries: Seq<T>)
    ensures
        drawn(entries) matches Some(entry) ==> !entry.closed() && entries.contains(entry),
        drawn(entries) is None <==> forall|i: int|
            0 <= i < entries.len() ==> (#[trigger] entries[i]).closed(),
{
    lemma_leading_closed(entries);
}

/// A draw from an empty pool takes nothing and leaves the pool empty.
pub proof fn lemma_draw_from_empty<T: PoolEntry>()
    ensures
        drawn(Seq::<T>::empty()) is None,
        left(Seq::<T>::empty()) == Seq::<T>::empty(),
{
}

/// After a live entry was pushed to a pool that held no live entry, an empty
/// pool among them, the next draw takes that entry and leaves the pool
/// empty.
pub proof fn lemma_draw_after_push<T: PoolEntry>(entries: Seq<T>, entry: T)
    requires
        drawn(entries) is None,
        !entry.closed(),
    ensures
        drawn(entries.push(entry)) == Some(entry),
        left(entries.push(entry)) == Seq::<T>::empty(),
    decreases entries.len(),
{
    let pushed = entries.push(entry);
    if entries.len() == 0 {
        assert(pushed.skip(1) =~= Seq::<T>::empty());
    } else {
        lemma_leading_closed(entries);
        let rest = entries.drop_first();
        assert(pushed.drop_first() =~= rest.push(entry));
        lemma_leading_closed(rest);
        lemma_draw_after_push(rest, entry);
        lemma_leading_closed(pushed.drop_first());
        assert(leading_closed(pushed) == 1 + leading_closed(pushed.drop_first()));
        assert(pushed.skip(leading_closed(pushed) as int + 1) =~= Seq::<T>::empty());
    }
}

impl<T: PoolEntry> Pool<T> {
    /// An empty pool.
    pub fn new() -> (pool: Self)
        ensures
            pool@ == Seq::<T>::empty(),
    {
        Pool { entries: VecDeque::new() }
    }

    /// The number of entries in the pool, closed ones included.
    pub fn len(&self) -> (len: usize)
        ensures
            len == self@.len(),
    {
        self.entries.len()
    }

    /// Adds `entry` behind the entries that the pool holds.
    pub fn push(&mut self, entry: T)
        ensures
            final(self)@ == old(self)@.push(entry),
    {
        self.entries.push_back(entry);
    }

    /// Draws the first live entry for exclusive use. The closed entries in
    /// front of it leave the pool and are dropped. Where the pool holds no
    /// live entry, nothing is drawn and the pool is left empty. The entry
    /// drawn does not come back by itself: who wants it used again pushes it.
    pub fn acquire(&mut self) -> (entry: Option<T>)
        ensures
            entry == drawn(old(self)@),
            final(self)@ == left(old(self)@),
            entry matches Some(live) ==> !live.closed(),
    {
        let ghost mut dropped: nat = 0;
        loop
            invariant
                dropped + self@.len() == old(self)@.len(),
                self@ == old(self)@.skip(dropped as int),
                leading_closed(old(self)@) == dropped + leading_closed(self@),
            decreases self@.len(),
        {
            proof {
                lemma_leading_closed(self@);
            }
            let ghost before = self@;
            match self.entries.pop_front() {
                None => {
                    return None;
                },
                Some(entry) => {
                    assert(self@ =~= before.drop_first());
                    assert(self@ =~= old(self)@.skip(dropped as int + 1));
                    if !entry.is_closed() {
                        return Some(entry);
                    }
                    proof {
                        dropped = dropped + 1;
                    }
                },
            }
        }
    }
}

} // verus!
