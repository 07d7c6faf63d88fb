//! Handles onto the accounts in the input buffer.

use crate::borrow::borrowed_mut;
use crate::borrow::can_borrow_mut;
use crate::borrow::can_share;
use crate::borrow::shared;
use crate::borrow::try_borrow_mut;
use crate::borrow::try_share;
use crate::borrow::AccountError;
use crate::codec::i32_bytes;
use crate::codec::le_u64;
use crate::codec::lemma_overwrite_i32;
use crate::codec::lemma_overwrite_u64;
use crate::codec::overwrite;
use crate::codec::read_i32;
use crate::codec::read_key;
use crate::codec::read_u64;
use crate::codec::u64_bytes;
use crate::codec::write_bytes;
use crate::codec::write_i32;
use crate::codec::write_u64;
use crate::cpi::AccountInfoC;
use crate::cpi::AccountMetaC;
use crate::guard::Ref;
use crate::guard::RefMut;
use crate::input::Input;
use crate::input::Span;
use crate::input::SpanMut;
use crate::key::key_bytes;
use crate::layout::counter_at;
use crate::layout::data_len_at;
use crate::layout::max_permitted_data_increase;
use crate::layout::COUNTER_AT;
use crate::layout::DATA_LEN_AT;
use crate::layout::EXECUTABLE_AT;
use crate::layout::HEADER_LEN;
use crate::layout::IS_SIGNER_AT;
use crate::layout::IS_WRITABLE_AT;
use crate::layout::KEY_AT;
use crate::layout::KEY_LEN;
use crate::layout::LAMPORTS_AT;
use crate::layout::MAX_INCREASE;
use crate::layout::OWNER_AT;
use solana_program_memory::sol_memset;
use solana_pubkey::Pubkey;
use vstd::prelude::*;

verus! {

/// `solana_program_memory::sol_memset` sets the first `n` bytes of `s` to
/// `c` and leaves the rest alone. It must not be asked for more bytes than
/// `s` holds.
pub assume_specification[ sol_memset ](s: &mut [u8], c: u8, n: usize)
    requires
        n <= old(s)@.len(),
    ensures
        final(s)@ == overwrite(old(s)@, 0, Seq::new(n as nat, |i: int| c)),
;

/// The growth counter after the data went from `old_len` to `new_len`, or
/// nothing where that is not granted: the growth does not fit the counter,
/// or the counter would pass `limit`. Shrinking is always granted and gives
/// back what it takes off.
pub open spec fn counter_after(counter: int, old_len: int, new_len: int, limit: int) -> Option<
    int,
> {
    if new_len <= old_len {
        Some(counter - (old_len - new_len))
    } else if new_len - old_len > i32::MAX || counter + (new_len - old_len) > i32::MAX || counter
        + (new_len - old_len) > limit {
        None
    } else {
        Some(counter + (new_len - old_len))
    }
}

/// Computes the growth counter after the data went from `old_len` to
/// `new_len`, given that at most `limit` bytes may be added in all.
pub fn realloc_counter(counter: i32, old_len: usize, new_len: usize, limit: usize) -> (r: Result<
    i32,
    AccountError,
>)
    requires
        counter - (old_len - new_len) >= i32::MIN,
    ensures
        match counter_after(counter as int, old_len as int, new_len as int, limit as int) {
            Some(next) => r == Ok::<i32, AccountError>(next as i32) && i32::MIN <= next
                <= i32::MAX,
            None => r == Err::<i32, AccountError>(AccountError::InvalidRealloc),
        },
{
    if new_len <= old_len {
        // No checks: what comes off has been added before, or was there
        // from the start
        let less = old_len - new_len;
        Ok((counter as i64 - less as i64) as i32)
    } else {
        // Need to check that the diff fits in an i32 and that max realloc
        // has not been reached
        let more = match i32::try_from(new_len - old_len) {
            Ok(more) => more,
            Err(_) => { return Err(AccountError::InvalidRealloc); },
        };
        let new_counter = match counter.checked_add(more) {
            Some(new_counter) => new_counter,
            None => { return Err(AccountError::InvalidRealloc); },
        };
        if limit <= i32::MAX as usize && new_counter > limit as i32 {
            return Err(AccountError::InvalidRealloc);
        }
        Ok(new_counter)
    }
}

/// `n` bytes of zero.
pub open spec fn zeros(n: int) -> Seq<u8> {
    Seq::new(n as nat, |i: int| 0u8)
}

/// What `realloc` answers for the account at `header` of the buffer `s`:
/// the data must not be borrowed, and the growth must be granted.
pub open spec fn realloc_result(s: Seq<u8>, header: int, new_len: int) -> Result<
    (),
    AccountError,
> {
    if !can_borrow_mut(s[header], false) {
        Err(AccountError::AccountBorrowFailed)
    } else if counter_after(
        counter_at(s, header),
        data_len_at(s, header),
        new_len,
        MAX_INCREASE as int,
    ) is None {
        Err(AccountError::InvalidRealloc)
    } else {
        Ok(())
    }
}

/// The buffer `s` with the counter and the length of the account at `header`
/// set anew and, with `zero_from`, with zeros from that length of the data
/// up to the new one.
pub open spec fn resized(
    s: Seq<u8>,
    header: int,
    counter: i32,
    new_len: int,
    zero_from: Option<int>,
) -> Seq<u8> {
    let set = overwrite(
        overwrite(s, header + COUNTER_AT, i32_bytes(counter)),
        header + DATA_LEN_AT,
        u64_bytes(new_len as u64),
    );
    match zero_from {
        Some(old_len) => overwrite(set, header + HEADER_LEN + old_len, zeros(new_len - old_len)),
        None => set,
    }
}

/// The buffer `s` after `realloc` on the account at `header`: as it was
/// where the request fails or asks for the length that the data has, else
/// with the new counter and the new length and, where that was asked for,
/// with zeros in the bytes that the data has gained.
pub open spec fn realloc_bytes(s: Seq<u8>, header: int, new_len: int, zero_init: bool) -> Seq<u8> {
    let old_len = data_len_at(s, header);
    if realloc_result(s, header, new_len) is Err || new_len == old_len {
        s
    } else {
        resized(
            s,
            header,
            counter_after(counter_at(s, header), old_len, new_len, MAX_INCREASE as int)->0 as i32,
            new_len,
            if zero_init && new_len > old_len {
                Some(old_len)
            } else {
                None
            },
        )
    }
}

/// Setting the counter and the length of an account anew, with zeros in
/// what the data gains, leaves its borrow state alone: it may be set before
/// or after.
proof fn lemma_resized_keeps_state(
    s: Seq<u8>,
    header: int,
    counter: i32,
    new_len: int,
    zero_from: Option<int>,
    during: u8,
    after: u8,
)
    requires
        0 <= header,
        header + HEADER_LEN <= s.len(),
        zero_from is Some ==> 0 <= zero_from->0 <= new_len,
    ensures
        resized(s.update(header, during), header, counter, new_len, zero_from).update(
            header,
            after,
        ) == resized(s, header, counter, new_len, zero_from).update(header, after),
        counter_at(s.update(header, during), header) == counter_at(s, header),
        data_len_at(s.update(header, during), header) == data_len_at(s, header),
{
    assert(resized(s.update(header, during), header, counter, new_len, zero_from).update(
        header,
        after,
    ) =~= resized(s, header, counter, new_len, zero_from).update(header, after));
}

/// The steps of `realloc` make what `realloc_bytes` says: `borrowed` is the
/// buffer with the data borrowed, `done` the buffer with the new length set
/// or, where that was not granted or not needed, as before, and `end` the
/// buffer with the borrow ended.
proof fn lemma_realloc_bytes(
    s: Seq<u8>,
    header: int,
    new_len: int,
    zero_init: bool,
    borrowed: Seq<u8>,
    done: Seq<u8>,
    end: Seq<u8>,
)
    requires
        0 <= header,
        0 <= new_len,
        header + HEADER_LEN <= s.len(),
        can_borrow_mut(s[header], false),
        borrowed == s.update(header, borrowed_mut(s[header], false)),
        match counter_after(
            counter_at(borrowed, header),
            data_len_at(borrowed, header),
            new_len,
            MAX_INCREASE as int,
        ) {
            None => done == borrowed,
            Some(counter) => done == if new_len == data_len_at(borrowed, header) {
                borrowed
            } else {
                resized(
                    borrowed,
                    header,
                    counter as i32,
                    new_len,
                    if zero_init && new_len > data_len_at(borrowed, header) {
                        Some(data_len_at(borrowed, header))
                    } else {
                        None
                    },
                )
            },
        },
        done.len() == s.len(),
        end == done.update(header, crate::borrow::returned_mut(done[header], false)),
    ensures
        end == realloc_bytes(s, header, new_len, zero_init),
{
    let during = borrowed_mut(s[header], false);
    let old_len = data_len_at(s, header);
    lemma_resized_keeps_state(s, header, 0, 0, None, during, s[header]);
    assert(borrowed.update(header, s[header]) =~= s);
    match counter_after(counter_at(s, header), old_len, new_len, MAX_INCREASE as int) {
        None => {
            assert(done[header] == during);
        },
        Some(counter) => {
            if new_len == old_len {
                assert(done[header] == during);
            } else {
                let zero_from = if zero_init && new_len > old_len {
                    Some(old_len)
                } else {
                    None
                };
                lemma_resized_keeps_state(
                    s,
                    header,
                    counter as i32,
                    new_len,
                    zero_from,
                    during,
                    s[header],
                );
                let plain = resized(s, header, counter as i32, new_len, zero_from);
                assert(done[header] == during);
                assert(plain[header] == s[header]);
                assert(plain.update(header, s[header]) =~= plain);
            }
        },
    }
}

/// What holds of an account once its counter and its length are set anew:
/// both read back as they were written, and every byte outside the account
/// is as it was.
proof fn lemma_resized(
    s: Seq<u8>,
    header: int,
    counter: i32,
    new_len: int,
    zero_from: Option<int>,
)
    requires
        0 <= header,
        0 <= new_len <= u64::MAX,
        header + HEADER_LEN + new_len <= s.len(),
        zero_from is Some ==> 0 <= zero_from->0 <= new_len,
    ensures
        resized(s, header, counter, new_len, zero_from).len() == s.len(),
        counter_at(resized(s, header, counter, new_len, zero_from), header) == counter,
        data_len_at(resized(s, header, counter, new_len, zero_from), header) == new_len,
        forall|i: int|
            0 <= i < s.len() && !(header + COUNTER_AT <= i < header + HEADER_LEN + new_len)
                ==> resized(s, header, counter, new_len, zero_from)[i] == s[i],
{
    let first = overwrite(s, header + COUNTER_AT, i32_bytes(counter));
    let set = overwrite(first, header + DATA_LEN_AT, u64_bytes(new_len as u64));
    lemma_overwrite_i32(s, header + COUNTER_AT, counter);
    lemma_overwrite_u64(first, header + DATA_LEN_AT, new_len as u64);
    assert(counter_at(set, header) == counter_at(first, header));
    let last = resized(s, header, counter, new_len, zero_from);
    assert(counter_at(last, header) == counter_at(set, header));
    assert(data_len_at(last, header) == data_len_at(set, header));
}

/// The header of an account, read out of the input buffer.
#[derive(Clone, Copy, Debug, Default)]
pub struct NoStdAccountInfoInner {
    /// Four bits for the balance and four for the data: in each, a flag for
    /// the mutable borrow and three bits that count the shared ones.
    pub borrow_state: u8,
    /// Was the transaction signed by this account's public key?
    pub is_signer: u8,
    /// Is the account writable?
    pub is_writable: u8,
    /// This account's data contains a loaded program (and is now read-only)
    pub executable: u8,
    /// By how much the data has grown since the program was entered.
    pub realloc_byte_counter: i32,
    /// Public key of the account
    pub key: Pubkey,
    /// Program that owns this account
    pub owner: Pubkey,
    /// The lamports in the account. Modifiable by programs.
    pub lamports: u64,
    /// The length of the data.
    pub data_len: usize,
}

impl NoStdAccountInfoInner {
    /// Whether this is the header that the buffer `s` holds at `header`.
    pub open spec fn stands_at(&self, s: Seq<u8>, header: int) -> bool {
        &&& self.borrow_state == s[header]
        &&& self.is_signer == s[header + IS_SIGNER_AT]
        &&& self.is_writable == s[header + IS_WRITABLE_AT]
        &&& self.executable == s[header + EXECUTABLE_AT]
        &&& self.realloc_byte_counter == counter_at(s, header)
        &&& key_bytes(self.key) == s.subrange(header + KEY_AT, header + KEY_AT + KEY_LEN)
        &&& key_bytes(self.owner) == s.subrange(header + OWNER_AT, header + OWNER_AT + KEY_LEN)
        &&& self.lamports == le_u64(s, header + LAMPORTS_AT)
        &&& self.data_len == data_len_at(s, header)
    }
}

/// A handle onto one account: the place in the input buffer where the
/// header of the account starts. A duplicate account has the handle of the
/// account it repeats, so both go by one borrow state.
#[derive(Clone, Copy, Debug, PartialEq, Eq, Structural)]
pub struct NoStdAccountInfo {
    pub(crate) inner: usize,
}

impl NoStdAccountInfo {
    /// Where the header of the account starts.
    pub open(crate) spec fn spec_header(&self) -> usize {
        self.inner
    }

    /// Where the header of the account starts.
    #[verifier::when_used_as_spec(spec_header)]
    pub fn header(&self) -> (header: usize)
        ensures
            header == self.spec_header(),
    {
        self.inner
    }

    /// A handle that points at the start of the buffer. It stands for no
    /// account: it fills the places of an array that the parser has not
    /// reached.
    pub fn vacant() -> (info: NoStdAccountInfo)
        ensures
            info.header() == 0,
    {
        NoStdAccountInfo { inner: 0 }
    }

    /// Whether the handle is of an account of this input, which is intact.
    pub open spec fn valid_in(&self, input: &Input) -> bool {
        input.wf() && input.holds(self.header() as int)
    }

    /// The borrow state of the account.
    pub open spec fn borrow_state(&self, s: Seq<u8>) -> u8 {
        s[self.header() as int]
    }

    /// The account of the buffer `s` as the host takes it in a call into
    /// another program: the places of its key, its balance, its data and
    /// its owner, the length of its data, its flags, and a rent epoch of
    /// zero.
    pub open spec fn info(&self, s: Seq<u8>) -> AccountInfoC {
        AccountInfoC {
            key: (self.header() + KEY_AT) as usize,
            lamports: (self.header() + LAMPORTS_AT) as usize,
            data_len: data_len_at(s, self.header() as int) as u64,
            data: (self.header() + HEADER_LEN) as usize,
            owner: (self.header() + OWNER_AT) as usize,
            rent_epoch: 0,
            is_signer: s[self.header() + IS_SIGNER_AT] != 0,
            is_writable: s[self.header() + IS_WRITABLE_AT] != 0,
            executable: s[self.header() + EXECUTABLE_AT] != 0,
        }
    }

    /// The account of the buffer `s` as an instruction names it: the place
    /// of its key and its writable flag, and as a signer where it has
    /// signed or `sign` says that the program signs for it.
    pub open spec fn meta(&self, s: Seq<u8>, sign: bool) -> AccountMetaC {
        AccountMetaC {
            pubkey: (self.header() + KEY_AT) as usize,
            is_writable: s[self.header() + IS_WRITABLE_AT] != 0,
            is_signer: sign || s[self.header() + IS_SIGNER_AT] != 0,
        }
    }

    /// The header of the account as the buffer holds it now.
    pub fn inner(&self, input: &Input) -> (inner: NoStdAccountInfoInner)
        requires
            self.valid_in(input),
        ensures
            inner.stands_at(input@, self.header() as int),
    {
        let bytes = input.as_bytes();
        NoStdAccountInfoInner {
            borrow_state: bytes[self.inner],
            is_signer: bytes[self.inner + IS_SIGNER_AT],
            is_writable: bytes[self.inner + IS_WRITABLE_AT],
            executable: bytes[self.inner + EXECUTABLE_AT],
            realloc_byte_counter: read_i32(bytes, self.inner + COUNTER_AT),
            key: self.key(input),
            owner: self.owner(input),
            lamports: read_u64(bytes, self.inner + LAMPORTS_AT),
            data_len: self.data_len(input),
        }
    }

    /// The account as the host takes it in a call into another program.
    pub fn to_info_c(&self, input: &Input) -> (info: AccountInfoC)
        requires
            self.valid_in(input),
        ensures
            info == self.info(input@),
            info.data + info.data_len <= input@.len(),
    {
        AccountInfoC {
            key: self.inner + KEY_AT,
            lamports: self.inner + LAMPORTS_AT,
            data_len: self.data_len(input) as u64,
            data: self.inner + HEADER_LEN,
            owner: self.inner + OWNER_AT,
            rent_epoch: 0,
            is_signer: self.is_signer(input),
            is_writable: self.is_writable(input),
            executable: self.executable(input),
        }
    }

    /// The account as an instruction names it.
    pub fn to_meta_c(&self, input: &Input) -> (meta: AccountMetaC)
        requires
            self.valid_in(input),
        ensures
            meta == self.meta(input@, false),
    {
        AccountMetaC {
            pubkey: self.inner + KEY_AT,
            is_writable: self.is_writable(input),
            is_signer: self.is_signer(input),
        }
    }

    /// The account as an instruction names it, as a signer. For an address
    /// that the program derives: it did not sign the transaction, but the
    /// program signs for it in the call.
    pub fn to_meta_c_signer(&self, input: &Input) -> (meta: AccountMetaC)
        requires
            self.valid_in(input),
        ensures
            meta == self.meta(input@, true),
    {
        AccountMetaC {
            pubkey: self.inner + KEY_AT,
            is_writable: self.is_writable(input),
            is_signer: true,
        }
    }

    /// The key of the account.
    #[inline(always)]
    pub fn key(&self, input: &Input) -> (key: Pubkey)
        requires
            self.valid_in(input),
        ensures
            key_bytes(key) == input@.subrange(self.header() + KEY_AT, self.header() + KEY_AT + KEY_LEN),
    {
        Pubkey::new_from_array(read_key(input.as_bytes(), self.inner + KEY_AT))
    }

    /// The program that owns the account.
    #[inline(always)]
    pub fn owner(&self, input: &Input) -> (owner: Pubkey)
        requires
            self.valid_in(input),
        ensures
            key_bytes(owner) == input@.subrange(
                self.header() + OWNER_AT,
                self.header() + OWNER_AT + KEY_LEN,
            ),
    {
        Pubkey::new_from_array(read_key(input.as_bytes(), self.inner + OWNER_AT))
    }

    /// Whether the transaction was signed by the key of the account.
    #[inline(always)]
    pub fn is_signer(&self, input: &Input) -> (flag: bool)
        requires
            self.valid_in(input),
        ensures
            flag == (input@[self.header() + IS_SIGNER_AT] != 0),
    {
        input.as_bytes()[self.inner + IS_SIGNER_AT] != 0
    }

    /// Whether the account may be written to.
    #[inline(always)]
    pub fn is_writable(&self, input: &Input) -> (flag: bool)
        requires
            self.valid_in(input),
        ensures
            flag == (input@[self.header() + IS_WRITABLE_AT] != 0),
    {
        input.as_bytes()[self.inner + IS_WRITABLE_AT] != 0
    }

    /// Whether the data of the account is a loaded program.
    #[inline(always)]
    pub fn executable(&self, input: &Input) -> (flag: bool)
        requires
            self.valid_in(input),
        ensures
            flag == (input@[self.header() + EXECUTABLE_AT] != 0),
    {
        input.as_bytes()[self.inner + EXECUTABLE_AT] != 0
    }

    /// How long the data of the account is.
    #[inline(always)]
    pub fn data_len(&self, input: &Input) -> (len: usize)
        requires
            self.valid_in(input),
        ensures
            len == data_len_at(input@, self.header() as int),
    {
        read_u64(input.as_bytes(), self.inner + DATA_LEN_AT) as usize
    }

    /// The place of the balance, with no look at the borrow state and no
    /// mark in it. For a program that has made sure that it holds no
    /// account twice.
    pub fn unchecked_borrow_lamports(&self, input: &Input) -> (place: Span)
        requires
            self.valid_in(input),
        ensures
            place.start() == self.header() + LAMPORTS_AT,
            place.len() == 8,
            place.end() <= input@.len(),
    {
        Span { start: self.inner + LAMPORTS_AT, len: 8 }
    }

    /// The place of the balance to write to, with no look at the borrow
    /// state and no mark in it.
    pub fn unchecked_borrow_mut_lamports(&self, input: &Input) -> (place: SpanMut)
        requires
            self.valid_in(input),
        ensures
            place.header() == self.header(),
            place.start() == self.header() + LAMPORTS_AT,
            place.len() == 8,
            input.admits(&place),
    {
        SpanMut { header: self.inner, start: self.inner + LAMPORTS_AT, len: 8 }
    }

    /// The place of the data, with no look at the borrow state and no mark
    /// in it.
    pub fn unchecked_borrow_data(&self, input: &Input) -> (place: Span)
        requires
            self.valid_in(input),
        ensures
            place.start() == self.header() + HEADER_LEN,
            place.len() == data_len_at(input@, self.header() as int),
            place.end() <= input@.len(),
    {
        Span { start: self.data_ptr(input), len: self.data_len(input) }
    }

    /// The place of the data to write to, with no look at the borrow state
    /// and no mark in it.
    pub fn unchecked_borrow_mut_data(&self, input: &Input) -> (place: SpanMut)
        requires
            self.valid_in(input),
        ensures
            place.header() == self.header(),
            place.start() == self.header() + HEADER_LEN,
            place.len() == data_len_at(input@, self.header() as int),
            input.admits(&place),
    {
        SpanMut { header: self.inner, start: self.data_ptr(input), len: self.data_len(input) }
    }

    /// Tries to borrow the balance to read it. Fails where the balance is
    /// borrowed mutably or seven shared borrows of it are out.
    pub fn try_borrow_lamports(&self, input: &mut Input) -> (r: Result<Ref<Span>, AccountError>)
        requires
            self.valid_in(old(input)),
        ensures
            final(input).accounts() == old(input).accounts(),
            final(input).wf(),
            match r {
                Ok(guard) => {
                    &&& can_share(self.borrow_state(old(input)@), true)
                    &&& final(input)@ == old(input)@.update(
                        self.header() as int,
                        shared(self.borrow_state(old(input)@), true),
                    )
                    &&& guard.state() == self.header()
                    &&& guard.is_lamport()
                    &&& guard.value().start() == self.header() + LAMPORTS_AT
                    &&& guard.value().len() == 8
                },
                Err(e) => {
                    &&& !can_share(self.borrow_state(old(input)@), true)
                    &&& e == AccountError::AccountBorrowFailed
                    &&& final(input)@ == old(input)@
                },
            },
    {
        let borrow_state = input.as_bytes()[self.inner];

        // Check that no mutable borrow is out and that the shared borrows
        // have not reached their limit
        let Some(next) = try_share(borrow_state, true) else {
            return Err(AccountError::AccountBorrowFailed);
        };

        // Count the borrow
        input.bytes[self.inner] = next;

        // Return the place of the balance
        Ok(Ref { value: self.unchecked_borrow_lamports(input), state: self.inner, is_lamport: true })
    }

    /// Tries to borrow the balance to change it. Fails where the balance is
    /// borrowed in any form.
    pub fn try_borrow_mut_lamports(&self, input: &mut Input) -> (r: Result<
        RefMut<SpanMut>,
        AccountError,
    >)
        requires
            self.valid_in(old(input)),
        ensures
            final(input).accounts() == old(input).accounts(),
            final(input).wf(),
            match r {
                Ok(guard) => {
                    &&& can_borrow_mut(self.borrow_state(old(input)@), true)
                    &&& final(input)@ == old(input)@.update(
                        self.header() as int,
                        borrowed_mut(self.borrow_state(old(input)@), true),
                    )
                    &&& guard.state() == self.header()
                    &&& guard.is_lamport()
                    &&& guard.value().header() == self.header()
                    &&& guard.value().start() == self.header() + LAMPORTS_AT
                    &&& guard.value().len() == 8
                    &&& final(input).admits(&guard.value())
                },
                Err(e) => {
                    &&& !can_borrow_mut(self.borrow_state(old(input)@), true)
                    &&& e == AccountError::AccountBorrowFailed
                    &&& final(input)@ == old(input)@
                },
            },
    {
        let borrow_state = input.as_bytes()[self.inner];

        // Check that no borrow, mutable or shared, is out for the balance
        let Some(next) = try_borrow_mut(borrow_state, true) else {
            return Err(AccountError::AccountBorrowFailed);
        };

        // Set the mutable borrow flag of the balance
        input.bytes[self.inner] = next;

        // Return the place of the balance
        Ok(
            RefMut {
                value: self.unchecked_borrow_mut_lamports(input),
                state: self.inner,
                is_lamport: true,
            },
        )
    }

    /// Tries to borrow the data to read it. Fails where the data is borrowed
    /// mutably or seven shared borrows of it are out.
    pub fn try_borrow_data(&self, input: &mut Input) -> (r: Result<Ref<Span>, AccountError>)
        requires
            self.valid_in(old(input)),
        ensures
            final(input).accounts() == old(input).accounts(),
            final(input).wf(),
            match r {
                Ok(guard) => {
                    &&& can_share(self.borrow_state(old(input)@), false)
                    &&& final(input)@ == old(input)@.update(
                        self.header() as int,
                        shared(self.borrow_state(old(input)@), false),
                    )
                    &&& guard.state() == self.header()
                    &&& !guard.is_lamport()
                    &&& guard.value().start() == self.header() + HEADER_LEN
                    &&& guard.value().len() == data_len_at(old(input)@, self.header() as int)
                },
                Err(e) => {
                    &&& !can_share(self.borrow_state(old(input)@), false)
                    &&& e == AccountError::AccountBorrowFailed
                    &&& final(input)@ == old(input)@
                },
            },
    {
        let borrow_state = input.as_bytes()[self.inner];

        // Check that no mutable borrow is out and that the shared borrows
        // have not reached their limit
        let Some(next) = try_share(borrow_state, false) else {
            return Err(AccountError::AccountBorrowFailed);
        };

        // Count the borrow
        input.bytes[self.inner] = next;

        // Return the place of the data
        Ok(Ref { value: self.unchecked_borrow_data(input), state: self.inner, is_lamport: false })
    }

    /// Tries to borrow the data to change it. Fails where the data is
    /// borrowed in any form.
    pub fn try_borrow_mut_data(&self, input: &mut Input) -> (r: Result<
        RefMut<SpanMut>,
        AccountError,
    >)
        requires
            self.valid_in(old(input)),
        ensures
            final(input).accounts() == old(input).accounts(),
            final(input).wf(),
            match r {
                Ok(guard) => {
                    &&& can_borrow_mut(self.borrow_state(old(input)@), false)
                    &&& final(input)@ == old(input)@.update(
                        self.header() as int,
                        borrowed_mut(self.borrow_state(old(input)@), false),
                    )
                    &&& guard.state() == self.header()
                    &&& !guard.is_lamport()
                    &&& guard.value().header() == self.header()
                    &&& guard.value().start() == self.header() + HEADER_LEN
                    &&& guard.value().len() == data_len_at(old(input)@, self.header() as int)
                    &&& final(input).admits(&guard.value())
                },
                Err(e) => {
                    &&& !can_borrow_mut(self.borrow_state(old(input)@), false)
                    &&& e == AccountError::AccountBorrowFailed
                    &&& final(input)@ == old(input)@
                },
            },
    {
        let borrow_state = input.as_bytes()[self.inner];

        // Check that no borrow, mutable or shared, is out for the data
        let Some(next) = try_borrow_mut(borrow_state, false) else {
            return Err(AccountError::AccountBorrowFailed);
        };

        // Set the mutable borrow flag of the data
        input.bytes[self.inner] = next;

        // Return the place of the data
        Ok(
            RefMut {
                value: self.unchecked_borrow_mut_data(input),
                state: self.inner,
                is_lamport: false,
            },
        )
    }

    /// Writes the new length and the new counter of the account and, with
    /// `zero_from`, zeros over what the data gains.
    fn resize(&self, input: &mut Input, new_counter: i32, new_len: usize, zero_from: Option<usize>)
        requires
            self.valid_in(old(input)),
            new_len == old(input).accounts()[self.header() as int] + new_counter,
            new_counter <= MAX_INCREASE,
            zero_from is Some ==> zero_from->0 <= new_len,
        ensures
            final(input)@ == resized(
                old(input)@,
                self.header() as int,
                new_counter,
                new_len as int,
                match zero_from {
                    Some(old_len) => Some(old_len as int),
                    None => None,
                },
            ),
            final(input).accounts() == old(input).accounts(),
            final(input).wf(),
    {
        let ghost s = input@;
        let ghost h = self.inner as int;
        let ghost from: Option<int> = match zero_from {
            Some(old_len) => Some(old_len as int),
            None => None,
        };
        proof {
            lemma_resized(s, h, new_counter, new_len as int, from);
        }
        write_i32(&mut input.bytes, self.inner + COUNTER_AT, new_counter);
        write_u64(&mut input.bytes, self.inner + DATA_LEN_AT, new_len as u64);
        if let Some(old_len) = zero_from {
            let len_increase = new_len - old_len;
            let ghost set = input@;
            let (_, rest) = input.bytes.as_mut_slice().split_at_mut(
                self.inner + HEADER_LEN + old_len,
            );
            let (new_data_slice, _) = rest.split_at_mut(len_increase);
            sol_memset(new_data_slice, 0, len_increase);
            assert(input@ =~= overwrite(set, h + HEADER_LEN + old_len, zeros(len_increase as int)));
        }
    }

    /// Changes the length of the data and, where `zero_init` says so, sets
    /// the bytes that the data gains to zero.
    ///
    /// In one invocation the data of an account can grow by
    /// `MAX_PERMITTED_DATA_INCREASE` bytes in all; what a shrinking takes
    /// off can be added again. The room to grow is zero when the program is
    /// entered, so zeroing it again is wasted work, unless the program has
    /// written there before, shrunk the data and now grows it again.
    pub fn realloc(&self, input: &mut Input, new_len: usize, zero_init: bool) -> (r: Result<
        (),
        AccountError,
    >)
        requires
            self.valid_in(old(input)),
        ensures
            r == realloc_result(old(input)@, self.header() as int, new_len as int),
            final(input)@ == realloc_bytes(
                old(input)@,
                self.header() as int,
                new_len as int,
                zero_init,
            ),
            final(input).accounts() == old(input).accounts(),
            final(input).wf(),
    {
        let ghost s = input@;
        let ghost h = self.inner as int;
        let data = match self.try_borrow_mut_data(input) {
            Ok(data) => data,
            Err(e) => { return Err(e); },
        };
        let old_len = data.get().len();
        let ghost borrowed = input@;
        let outcome = self.resize_borrowed(input, old_len, new_len, zero_init);
        let ghost done = input@;
        input.release_mut(data);
        proof {
            lemma_realloc_bytes(s, h, new_len as int, zero_init, borrowed, done, input@);
        }
        outcome
    }

    /// What `realloc` does while it holds the data: checks that the growth
    /// is granted, and sets the new length.
    fn resize_borrowed(&self, input: &mut Input, old_len: usize, new_len: usize, zero_init: bool) -> (r:
        Result<(), AccountError>)
        requires
            self.valid_in(old(input)),
            old_len == data_len_at(old(input)@, self.header() as int),
        ensures
            final(input).accounts() == old(input).accounts(),
            final(input).wf(),
            match counter_after(
                counter_at(old(input)@, self.header() as int),
                old_len as int,
                new_len as int,
                MAX_INCREASE as int,
            ) {
                None => r == Err::<(), AccountError>(AccountError::InvalidRealloc) && final(input)@
                    == old(input)@,
                Some(counter) => r == Ok::<(), AccountError>(()) && final(input)@ == if new_len
                    == old_len {
                    old(input)@
                } else {
                    resized(
                        old(input)@,
                        self.header() as int,
                        counter as i32,
                        new_len as int,
                        if zero_init && new_len > old_len {
                            Some(old_len as int)
                        } else {
                            None
                        },
                    )
                },
            },
    {
        if new_len == old_len {
            // Nothing to do
            return Ok(());
        }
        let counter = read_i32(input.as_bytes(), self.inner + COUNTER_AT);
        let new_counter = realloc_counter(counter, old_len, new_len, max_permitted_data_increase())?;

        // Set new length and new counter in the serialized data after all
        // validation, and zero init if specified
        let zero_from = if zero_init && new_len > old_len {
            Some(old_len)
        } else {
            None
        };
        self.resize(input, new_counter, new_len, zero_from);
        Ok(())
    }

    /// Makes `new_owner` the owner of the account. The owner is not
    /// guarded: the borrow state is neither looked at nor changed.
    pub fn reassign(&self, input: &mut Input, new_owner: &Pubkey)
        requires
            self.valid_in(old(input)),
        ensures
            final(input)@ == overwrite(
                old(input)@,
                self.header() + OWNER_AT,
                key_bytes(*new_owner),
            ),
            final(input).accounts() == old(input).accounts(),
            final(input).wf(),
    {
        // Set the non-mut owner field
        let owner = new_owner.to_bytes();
        write_bytes(&mut input.bytes, self.inner + OWNER_AT, owner.as_slice());
    }

    /// Where the data of the account starts.
    fn data_ptr(&self, input: &Input) -> (start: usize)
        requires
            self.valid_in(input),
        ensures
            start == self.header() + HEADER_LEN,
    {
        self.inner + HEADER_LEN
    }
}

/// Two handles of one account go by one borrow state: once a mutable borrow
/// of a field is granted through one of them, neither a shared nor a mutable
/// borrow of that field is granted through the other, and once a shared
/// borrow is granted through one, no mutable borrow is granted through the
/// other.
pub proof fn lemma_aliases_conflict(
    s: Seq<u8>,
    one: NoStdAccountInfo,
    other: NoStdAccountInfo,
    is_lamport: bool,
)
    requires
        one.header() == other.header(),
        one.header() < s.len(),
    ensures
        can_borrow_mut(one.borrow_state(s), is_lamport) ==> {
            let taken = s.update(
                one.header() as int,
                borrowed_mut(one.borrow_state(s), is_lamport),
            );
            &&& !can_share(other.borrow_state(taken), is_lamport)
            &&& !can_borrow_mut(other.borrow_state(taken), is_lamport)
        },
        can_share(one.borrow_state(s), is_lamport) ==> {
            let taken = s.update(one.header() as int, shared(one.borrow_state(s), is_lamport));
            !can_borrow_mut(other.borrow_state(taken), is_lamport)
        },
{
}

/// Asking `realloc` for the length that the data has changes nothing: not
/// the length, not the growth counter, nor anything else in the buffer.
pub proof fn lemma_realloc_same_len(s: Seq<u8>, header: int, zero_init: bool)
    ensures
        realloc_bytes(s, header, data_len_at(s, header), zero_init) == s,
        counter_after(
            counter_at(s, header),
            data_len_at(s, header),
            data_len_at(s, header),
            MAX_INCREASE as int,
        ) == Some(counter_at(s, header)),
{
}

/// Growing the data by `d` bytes and then shrinking it by `d` bytes brings
/// the growth counter back to where it was.
pub proof fn lemma_grow_then_shrink(counter: int, len: int, d: int, limit: int)
    requires
        0 <= d,
        counter_after(counter, len, len + d, limit) is Some,
    ensures
        counter_after(counter_after(counter, len, len + d, limit)->0, len + d, len, limit)
            == Some(counter),
{
}

/// Growing the data of an account by `d` bytes and then shrinking it by `d`
/// bytes, both through `realloc`, brings its length and its growth counter
/// back to where they were.
pub proof fn lemma_realloc_grow_then_shrink(
    s: Seq<u8>,
    header: int,
    d: int,
    zero_init: bool,
    zero_again: bool,
)
    requires
        0 <= header,
        0 <= d,
        header + HEADER_LEN + data_len_at(s, header) + d <= s.len(),
        data_len_at(s, header) + d <= u64::MAX,
        i32::MIN <= counter_at(s, header),
        realloc_result(s, header, data_len_at(s, header) + d) is Ok,
    ensures
        ({
            let grown = realloc_bytes(s, header, data_len_at(s, header) + d, zero_init);
            let back = realloc_bytes(grown, header, data_len_at(s, header), zero_again);
            &&& realloc_result(grown, header, data_len_at(s, header)) is Ok
            &&& data_len_at(grown, header) == data_len_at(s, header) + d
            &&& data_len_at(back, header) == data_len_at(s, header)
            &&& counter_at(back, header) == counter_at(s, header)
        }),
{
    let len = data_len_at(s, header);
    let counter = counter_at(s, header);
    if d > 0 {
        let up = counter_after(counter, len, len + d, MAX_INCREASE as int)->0;
        let zero_from = if zero_init {
            Some(len)
        } else {
            None
        };
        lemma_resized(s, header, up as i32, len + d, zero_from);
        let grown = realloc_bytes(s, header, len + d, zero_init);
        assert(grown == resized(s, header, up as i32, len + d, zero_from));
        assert(grown[header] == s[header]);
        lemma_resized(grown, header, counter as i32, len, None);
    }
}

} // verus!
