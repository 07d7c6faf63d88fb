//! Guards: what a granted borrow hands out.
//!
//! A guard carries a value and the duty to end the borrow: the place of the
//! borrow state that was changed when the borrow was granted, and which of
//! the two fields it guards. `map` and `filter_map` move that duty to a new
//! guard and never touch the borrow state; `release` ends the borrow and
//! uses the guard up.

use crate::borrow::release_mut;
use crate::borrow::release_shared;
use crate::borrow::returned_mut;
use crate::borrow::shared_borrows;
use crate::borrow::unshared;
use vstd::prelude::*;

verus! {

/// The guard of a shared borrow.
#[derive(Debug)]
pub struct Ref<T> {
    pub(crate) value: T,
    pub(crate) state: usize,
    pub(crate) is_lamport: bool,
}

impl<T> Ref<T> {
    /// What the guard carries.
    pub open(crate) spec fn value(&self) -> T {
        self.value
    }

    /// Where the borrow state stands that the guard will change back.
    pub open(crate) spec fn spec_state(&self) -> usize {
        self.state
    }

    /// Whether the guard is of the balance, not of the data.
    pub open(crate) spec fn spec_is_lamport(&self) -> bool {
        self.is_lamport
    }

    /// Whether this guard has the duty of `other`: the same borrow state,
    /// the same field.
    pub open spec fn stands_for<U>(&self, other: Ref<U>) -> bool {
        self.state() == other.state() && self.is_lamport() == other.is_lamport()
    }

    /// The memory once the guard is released: one shared borrow fewer in the
    /// borrow state that the guard points at.
    pub open spec fn released(&self, memory: Seq<u8>) -> Seq<u8> {
        memory.update(
            self.state() as int,
            unshared(memory[self.state() as int], self.is_lamport()),
        )
    }

    /// A guard over `value` for a shared borrow that the borrow state at
    /// `state` already counts.
    pub fn new(value: T, state: usize, is_lamport: bool) -> (guard: Ref<T>)
        ensures
            guard.value() == value,
            guard.state() == state,
            guard.is_lamport() == is_lamport,
    {
        Ref { value, state, is_lamport }
    }

    /// A guard over what `f` makes of the value. The duty to end the borrow
    /// goes over to it.
    #[inline]
    pub fn map<U, F>(orig: Ref<T>, f: F) -> (mapped: Ref<U>) where F: FnOnce(&T) -> U
        requires
            f.requires((&orig.value(),)),
        ensures
            f.ensures((&orig.value(),), mapped.value()),
            mapped.stands_for(orig),
    {
        let Ref { value, state, is_lamport } = orig;
        Ref { value: f(&value), state, is_lamport }
    }

    /// A guard over what `f` makes of the value, or the guard as it was
    /// where `f` makes nothing of it. The duty to end the borrow goes over
    /// to whichever comes back.
    #[inline]
    pub fn filter_map<U, F>(orig: Ref<T>, f: F) -> (r: Result<Ref<U>, Ref<T>>) where
        F: FnOnce(&T) -> Option<U>,

        requires
            f.requires((&orig.value(),)),
        ensures
            match r {
                Ok(mapped) => f.ensures((&orig.value(),), Some(mapped.value()))
                    && mapped.stands_for(orig),
                Err(kept) => f.ensures((&orig.value(),), None) && kept == orig,
            },
    {
        let Ref { value, state, is_lamport } = orig;
        match f(&value) {
            Some(mapped) => Ok(Ref { value: mapped, state, is_lamport }),
            None => Err(Ref { value, state, is_lamport }),
        }
    }

    /// What the guard carries.
    pub fn get(&self) -> (value: &T)
        ensures
            *value == self.value(),
    {
        &self.value
    }

    /// Where the borrow state stands that the guard will change back.
    #[verifier::when_used_as_spec(spec_state)]
    pub fn state(&self) -> (state: usize)
        ensures
            state == self.spec_state(),
    {
        self.state
    }

    /// Whether the guard is of the balance, not of the data.
    #[verifier::when_used_as_spec(spec_is_lamport)]
    pub fn is_lamport(&self) -> (is_lamport: bool)
        ensures
            is_lamport == self.spec_is_lamport(),
    {
        self.is_lamport
    }

    /// Ends the borrow: the borrow state counts one shared borrow fewer.
    pub fn release(self, memory: &mut [u8])
        requires
            self.state() < old(memory)@.len(),
            shared_borrows(old(memory)@[self.state() as int], self.is_lamport()) > 0,
        ensures
            final(memory)@ == self.released(old(memory)@),
    {
        // We just need to decrement the immutable borrow count
        memory[self.state] = release_shared(memory[self.state], self.is_lamport);
    }
}

/// The guard of a mutable borrow.
#[derive(Debug)]
pub struct RefMut<T> {
    pub(crate) value: T,
    pub(crate) state: usize,
    pub(crate) is_lamport: bool,
}

impl<T> RefMut<T> {
    /// What the guard carries.
    pub open(crate) spec fn value(&self) -> T {
        self.value
    }

    /// Where the borrow state stands that the guard will change back.
    pub open(crate) spec fn spec_state(&self) -> usize {
        self.state
    }

    /// Whether the guard is of the balance, not of the data.
    pub open(crate) spec fn spec_is_lamport(&self) -> bool {
        self.is_lamport
    }

    /// Whether this guard has the duty of `other`: the same borrow state,
    /// the same field.
    pub open spec fn stands_for<U>(&self, other: RefMut<U>) -> bool {
        self.state() == other.state() && self.is_lamport() == other.is_lamport()
    }

    /// The memory once the guard is released: the field no longer borrowed
    /// mutably in the borrow state that the guard points at.
    pub open spec fn released(&self, memory: Seq<u8>) -> Seq<u8> {
        memory.update(
            self.state() as int,
            returned_mut(memory[self.state() as int], self.is_lamport()),
        )
    }

    /// A guard over `value` for a mutable borrow that the borrow state at
    /// `state` already records.
    pub fn new(value: T, state: usize, is_lamport: bool) -> (guard: RefMut<T>)
        ensures
            guard.value() == value,
            guard.state() == state,
            guard.is_lamport() == is_lamport,
    {
        RefMut { value, state, is_lamport }
    }

    /// A guard over what `f` makes of the value. The duty to end the borrow
    /// goes over to it.
    #[inline]
    pub fn map<U, F>(orig: RefMut<T>, f: F) -> (mapped: RefMut<U>) where F: FnOnce(&mut T) -> U
        requires
            forall|v: &mut T| *v == orig.value() ==> f.requires((v,)),
        ensures
            exists|v: &mut T| *v == orig.value() && f.ensures((v,), mapped.value()),
            mapped.stands_for(orig),
    {
        let RefMut { value, state, is_lamport } = orig;
        let mut value = value;
        RefMut { value: f(&mut value), state, is_lamport }
    }

    /// A guard over what `f` makes of the value, or the guard with the value
    /// as `f` left it where `f` makes nothing of it. The duty to end the
    /// borrow goes over to whichever comes back.
    #[inline]
    pub fn filter_map<U, F>(orig: RefMut<T>, f: F) -> (r: Result<RefMut<U>, RefMut<T>>) where
        F: FnOnce(&mut T) -> Option<U>,

        requires
            forall|v: &mut T| *v == orig.value() ==> f.requires((v,)),
        ensures
            match r {
                Ok(mapped) => mapped.stands_for(orig) && exists|v: &mut T|
                    *v == orig.value() && f.ensures((v,), Some(mapped.value())),
                Err(kept) => kept.stands_for(orig) && exists|v: &mut T|
                    *v == orig.value() && f.ensures((v,), None) && kept.value() == *final(v),
            },
    {
        let RefMut { value, state, is_lamport } = orig;
        let mut value = value;
        match f(&mut value) {
            Some(mapped) => Ok(RefMut { value: mapped, state, is_lamport }),
            None => Err(RefMut { value, state, is_lamport }),
        }
    }

    /// What the guard carries.
    pub fn get(&self) -> (value: &T)
        ensures
            *value == self.value(),
    {
        &self.value
    }

    /// What the guard carries, to change it.
    pub fn get_mut(&mut self) -> (value: &mut T)
        ensures
            *value == old(self).value(),
            final(self).value() == *final(value),
            final(self).stands_for(*old(self)),
    {
        &mut self.value
    }

    /// Where the borrow state stands that the guard will change back.
    #[verifier::when_used_as_spec(spec_state)]
    pub fn state(&self) -> (state: usize)
        ensures
            state == self.spec_state(),
    {
        self.state
    }

    /// Whether the guard is of the balance, not of the data.
    #[verifier::when_used_as_spec(spec_is_lamport)]
    pub fn is_lamport(&self) -> (is_lamport: bool)
        ensures
            is_lamport == self.spec_is_lamport(),
    {
        self.is_lamport
    }

    /// Ends the borrow: the borrow state no longer says that the field is
    /// borrowed mutably.
    pub fn release(self, memory: &mut [u8])
        requires
            self.state() < old(memory)@.len(),
        ensures
            final(memory)@ == self.released(old(memory)@),
    {
        // We need to unset the mut borrow flag
        memory[self.state] = release_mut(memory[self.state], self.is_lamport);
    }
}

/// Releasing the guard that `map` or `filter_map` handed out does to the
/// memory what releasing the first guard would have done: the duty was
/// moved, not changed.
pub proof fn lemma_release_after_map<T, U>(orig: Ref<T>, mapped: Ref<U>, memory: Seq<u8>)
    requires
        mapped.stands_for(orig),
    ensures
        mapped.released(memory) == orig.released(memory),
{
}

/// Releasing the mutable guard that `map` or `filter_map` handed out does to
/// the memory what releasing the first guard would have done.
pub proof fn lemma_release_mut_after_map<T, U>(
    orig: RefMut<T>,
    mapped: RefMut<U>,
    memory: Seq<u8>,
)
    requires
        mapped.stands_for(orig),
    ensures
        mapped.released(memory) == orig.released(memory),
{
}

} // verus!
