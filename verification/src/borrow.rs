//! The borrow state of one account.
//!
//! One byte tracks two fields that are guarded apart: the high four bits
//! belong to the balance, the low four to the data. Of each four, the top
//! bit says that the field is borrowed mutably and the other three count the
//! shared borrows, seven at most.

use vstd::prelude::*;

verus! {

/// Why a request on an account was turned down.
#[derive(Clone, Copy, Debug, PartialEq, Eq, Structural)]
pub enum AccountError {
    /// The field is borrowed in a way that excludes the borrow asked for, or
    /// seven shared borrows of it are out already.
    AccountBorrowFailed,
    /// The data would grow past what one invocation may add, or by more than
    /// the growth counter can hold.
    InvalidRealloc,
}

/// What one shared borrow of the field adds to the state byte.
pub open spec fn unit(is_lamport: bool) -> int {
    if is_lamport {
        16
    } else {
        1
    }
}

/// The four bits of the field, as a number below sixteen.
pub open spec fn nibble(state: u8, is_lamport: bool) -> int {
    if is_lamport {
        state as int / 16
    } else {
        state as int % 16
    }
}

/// Whether the field is borrowed mutably.
pub open spec fn is_mutably_borrowed(state: u8, is_lamport: bool) -> bool {
    nibble(state, is_lamport) >= 8
}

/// How many shared borrows of the field are out.
pub open spec fn shared_borrows(state: u8, is_lamport: bool) -> int {
    nibble(state, is_lamport) % 8
}

/// Whether one more shared borrow of the field is granted.
pub open spec fn can_share(state: u8, is_lamport: bool) -> bool {
    !is_mutably_borrowed(state, is_lamport) && shared_borrows(state, is_lamport) < 7
}

/// Whether a mutable borrow of the field is granted: nothing else holds it.
pub open spec fn can_borrow_mut(state: u8, is_lamport: bool) -> bool {
    nibble(state, is_lamport) == 0
}

/// The state once one more shared borrow of the field is out.
pub open spec fn shared(state: u8, is_lamport: bool) -> u8
    recommends
        can_share(state, is_lamport),
{
    (state + unit(is_lamport)) as u8
}

/// The state once the field is borrowed mutably.
pub open spec fn borrowed_mut(state: u8, is_lamport: bool) -> u8
    recommends
        can_borrow_mut(state, is_lamport),
{
    (state + 8 * unit(is_lamport)) as u8
}

/// The state once one shared borrow of the field has ended.
pub open spec fn unshared(state: u8, is_lamport: bool) -> u8
    recommends
        shared_borrows(state, is_lamport) > 0,
{
    (state - unit(is_lamport)) as u8
}

/// The state once the mutable borrow of the field has ended. A field that
/// was not borrowed mutably stays as it is.
pub open spec fn returned_mut(state: u8, is_lamport: bool) -> u8 {
    if is_mutably_borrowed(state, is_lamport) {
        (state - 8 * unit(is_lamport)) as u8
    } else {
        state
    }
}

/// Asks for one more shared borrow of the field and gives the new state, or
/// nothing where the field is borrowed mutably or seven shared borrows are
/// out.
pub fn try_share(state: u8, is_lamport: bool) -> (next: Option<u8>)
    ensures
        can_share(state, is_lamport) ==> next == Some(shared(state, is_lamport)),
        !can_share(state, is_lamport) ==> next.is_none(),
{
    if is_lamport {
        assert((state & 0b1000_0000 != 0) <==> state / 16 >= 8) by (bit_vector);
        if state & 0b1000_0000 != 0 {
            return None;
        }
        assert(state / 16 < 8 ==> ((state & 0b0111_0000 == 0b0111_0000) <==> (state / 16) % 8
            >= 7)) by (bit_vector);
        if state & 0b0111_0000 == 0b0111_0000 {
            return None;
        }
        assert(1u8 << 4 == 16) by (bit_vector);
        Some(state + (1 << 4))
    } else {
        assert((state & 0b0000_1000 != 0) <==> state % 16 >= 8) by (bit_vector);
        if state & 0b0000_1000 != 0 {
            return None;
        }
        assert(state % 16 < 8 ==> ((state & 0b0111 == 0b0111) <==> (state % 16) % 8 >= 7))
            by (bit_vector);
        if state & 0b0111 == 0b0111 {
            return None;
        }
        Some(state + 1)
    }
}

/// Asks for the mutable borrow of the field and gives the new state, or
/// nothing where the field is borrowed in any way.
pub fn try_borrow_mut(state: u8, is_lamport: bool) -> (next: Option<u8>)
    ensures
        can_borrow_mut(state, is_lamport) ==> next == Some(borrowed_mut(state, is_lamport)),
        !can_borrow_mut(state, is_lamport) ==> next.is_none(),
{
    if is_lamport {
        assert((state & 0b1111_0000 != 0) <==> state / 16 != 0) by (bit_vector);
        if state & 0b1111_0000 != 0 {
            return None;
        }
        assert(state / 16 == 0 ==> (state | 0b1000_0000) == state + 128) by (bit_vector);
        Some(state | 0b1000_0000)
    } else {
        assert((state & 0b0000_1111 != 0) <==> state % 16 != 0) by (bit_vector);
        if state & 0b0000_1111 != 0 {
            return None;
        }
        assert(state % 16 == 0 ==> (state | 0b0000_1000) == state + 8) by (bit_vector);
        Some(state | 0b0000_1000)
    }
}

/// Ends one shared borrow of the field.
pub fn release_shared(state: u8, is_lamport: bool) -> (next: u8)
    requires
        shared_borrows(state, is_lamport) > 0,
    ensures
        next == unshared(state, is_lamport),
{
    if is_lamport {
        assert(1u8 << 4 == 16) by (bit_vector);
        state - (1 << 4)
    } else {
        state - 1
    }
}

/// Ends the mutable borrow of the field.
pub fn release_mut(state: u8, is_lamport: bool) -> (next: u8)
    ensures
        next == returned_mut(state, is_lamport),
{
    if is_lamport {
        assert(state & 0b0111_1111 == if state / 16 >= 8 {
            (state - 128) as u8
        } else {
            state
        }) by (bit_vector);
        state & 0b0111_1111
    } else {
        assert(state & 0b1111_0111 == if state % 16 >= 8 {
            (state - 8) as u8
        } else {
            state
        }) by (bit_vector);
        state & 0b1111_0111
    }
}

/// The state once shared borrows of the fields in `fields` have been asked
/// for one after the other, or nothing where one of them is turned down.
pub open spec fn shared_all(state: u8, fields: Seq<bool>) -> Option<u8>
    decreases fields.len(),
{
    if fields.len() == 0 {
        Some(state)
    } else {
        match shared_all(state, fields.drop_last()) {
            Some(before) => if can_share(before, fields.last()) {
                Some(shared(before, fields.last()))
            } else {
                None
            },
            None => None,
        }
    }
}

/// The state once shared borrows of the fields in `fields` have ended one
/// after the other.
pub open spec fn unshared_all(state: u8, fields: Seq<bool>) -> u8
    decreases fields.len(),
{
    if fields.len() == 0 {
        state
    } else {
        unshared(unshared_all(state, fields.drop_last()), fields.last())
    }
}

/// How many of `fields` are the field asked for.
pub open spec fn tally(fields: Seq<bool>, is_lamport: bool) -> nat {
    fields.to_multiset().count(is_lamport)
}

/// A shared borrow that was granted and has ended leaves the state as it
/// was, and while it is out it is counted for its field alone.
pub proof fn lemma_share_then_release(state: u8, is_lamport: bool)
    requires
        can_share(state, is_lamport),
    ensures
        unshared(shared(state, is_lamport), is_lamport) == state,
        shared_borrows(shared(state, is_lamport), is_lamport) == shared_borrows(state, is_lamport)
            + 1,
        !is_mutably_borrowed(shared(state, is_lamport), is_lamport),
        nibble(shared(state, is_lamport), !is_lamport) == nibble(state, !is_lamport),
{
}

/// A mutable borrow that was granted and has ended leaves the state as it
/// was, and while it is out nothing else is granted for its field.
pub proof fn lemma_borrow_mut_then_release(state: u8, is_lamport: bool)
    requires
        can_borrow_mut(state, is_lamport),
    ensures
        returned_mut(borrowed_mut(state, is_lamport), is_lamport) == state,
        !can_share(borrowed_mut(state, is_lamport), is_lamport),
        !can_borrow_mut(borrowed_mut(state, is_lamport), is_lamport),
        nibble(borrowed_mut(state, is_lamport), !is_lamport) == nibble(state, !is_lamport),
{
}

/// While a shared borrow of a field is out, no mutable borrow of it is
/// granted.
pub proof fn lemma_shared_excludes_mut(state: u8, is_lamport: bool)
    requires
        can_share(state, is_lamport),
    ensures
        !can_borrow_mut(shared(state, is_lamport), is_lamport),
{
}

/// With seven shared borrows of a field out, an eighth is turned down; once
/// any one of the seven has ended, a shared borrow is granted again.
pub proof fn lemma_eighth_share(state: u8, is_lamport: bool)
    requires
        !is_mutably_borrowed(state, is_lamport),
        shared_borrows(state, is_lamport) == 7,
    ensures
        !can_share(state, is_lamport),
        can_share(unshared(state, is_lamport), is_lamport),
        shared(unshared(state, is_lamport), is_lamport) == state,
{
}

/// Where a run of shared borrows is granted, the state has grown by one
/// unit for each of them, and no field has more than seven.
pub proof fn lemma_shared_all(state: u8, fields: Seq<bool>)
    requires
        shared_all(state, fields) is Some,
    ensures
        shared_all(state, fields)->0 == state + 16 * tally(fields, true) + tally(fields, false),
        tally(fields, true) > 0 ==> nibble(state, true) + tally(fields, true) <= 7,
        tally(fields, false) > 0 ==> nibble(state, false) + tally(fields, false) <= 7,
    decreases fields.len(),
{
    broadcast use vstd::multiset::group_multiset_axioms;

    if fields.len() == 0 {
        fields.to_multiset_ensures();
    } else {
        let front = fields.drop_last();
        let last = fields.last();
        lemma_shared_all(state, front);
        assert(fields =~= front.push(last));
        vstd::seq_lib::to_multiset_build(front, last);
    }
}

/// A run of shared borrows that ends takes one unit off the state for each
/// of them, where the state counts at least as many.
pub proof fn lemma_unshared_all(state: u8, fields: Seq<bool>)
    requires
        tally(fields, true) > 0 ==> tally(fields, true) <= nibble(state, true) <= 7,
        tally(fields, false) > 0 ==> tally(fields, false) <= nibble(state, false) <= 7,
    ensures
        unshared_all(state, fields) == state - 16 * tally(fields, true) - tally(fields, false),
    decreases fields.len(),
{
    broadcast use vstd::multiset::group_multiset_axioms;

    if fields.len() == 0 {
        fields.to_multiset_ensures();
    } else {
        let front = fields.drop_last();
        let last = fields.last();
        assert(fields =~= front.push(last));
        vstd::seq_lib::to_multiset_build(front, last);
        lemma_unshared_all(state, front);
    }
}

/// Shared borrows that were granted one after the other and have ended in
/// any order leave the state as it was before the first of them.
pub proof fn lemma_shared_round_trip(state: u8, granted: Seq<bool>, ended: Seq<bool>)
    requires
        shared_all(state, granted) is Some,
        ended.to_multiset() == granted.to_multiset(),
    ensures
        unshared_all(shared_all(state, granted)->0, ended) == state,
{
    lemma_shared_all(state, granted);
    lemma_unshared_all(shared_all(state, granted)->0, ended);
}

} // verus!
