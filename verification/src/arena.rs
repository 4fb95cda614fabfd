//! Arenas with stable identifiers.
//!
//! An identifier is handed out once and never again. The holder of an
//! identifier does not keep the entry alive: it asks the arena whether the
//! entry is still there. Removing an entry makes every later query report
//! that it is gone.

use vstd::prelude::*;

verus! {

/// Whether the slot `id` of `slots` holds an entry.
pub open spec fn slot_live<T>(slots: Seq<Option<T>>, id: int) -> bool {
    0 <= id < slots.len() && slots[id] is Some
}

/// An arena of `T`. Its view is the sequence of its slots by identifier:
/// `Some` for an entry that is there, `None` for one that was removed.
pub struct Arena<T> {
    pub slots: Vec<Option<T>>,
}

impl<T> View for Arena<T> {
    type V = Seq<Option<T>>;

    open spec fn view(&self) -> Seq<Option<T>> {
        self.slots@
    }
}

impl<T> Arena<T> {
    /// An arena that has handed out no identifier yet.
    pub fn new() -> (res: Self)
        ensures
            res@ == Seq::<Option<T>>::empty(),
    {
        Arena { slots: Vec::new() }
    }

    /// Stores `value` under a fresh identifier, the next in creation order.
    pub fn insert_new(&mut self, value: T) -> (id: usize)
        ensures
            id == old(self)@.len(),
            final(self)@ == old(self)@.push(Some(value)),
            final(self)@.len() <= usize::MAX,
    {
        let id = self.slots.len();
        self.slots.push(Some(value));
        assert(self.slots.len() <= usize::MAX);
        id
    }

    /// Whether the entry `id` is still there.
    pub fn contains(&self, id: usize) -> (live: bool)
        ensures
            live == slot_live(self@, id as int),
    {
        id < self.slots.len() && self.slots[id].is_some()
    }

    /// The entry `id`, if it is still there.
    pub fn get(&self, id: usize) -> (res: Option<&T>)
        ensures
            res is Some == slot_live(self@, id as int),
            res matches Some(r) ==> self@[id as int] == Some(*r),
    {
        if id < self.slots.len() {
            self.slots[id].as_ref()
        } else {
            None
        }
    }

    /// The entry `id` for changing in place, if it is still there. No other
    /// slot is touched, and the entry cannot be removed through the
    /// reference.
    pub fn get_mut(&mut self, id: usize) -> (res: Option<&mut T>)
        ensures
            res is Some == slot_live(old(self)@, id as int),
            res is None ==> final(self)@ == old(self)@,
            res matches Some(r) ==> old(self)@[id as int] == Some(*r) && final(self)@ == old(
                self,
            )@.update(id as int, Some(*final(r))),
    {
        if id < self.slots.len() {
            self.slots[id].as_mut()
        } else {
            None
        }
    }

    /// Removes the entry `id` and hands it out, if it is still there.
    pub fn remove(&mut self, id: usize) -> (res: Option<T>)
        ensures
            res == if slot_live(old(self)@, id as int) {
                old(self)@[id as int]
            } else {
                None
            },
            final(self)@ == if slot_live(old(self)@, id as int) {
                old(self)@.update(id as int, None)
            } else {
                old(self)@
            },
    {
        if id < self.slots.len() {
            let taken = self.slots[id].take();
            assert(self.slots@ =~= old(self).slots@.update(id as int, None));
            taken
        } else {
            None
        }
    }
}

} // verus!
