//! The layout of the input buffer.
//!
//! ```text
//! u64 account_count
//! account_count times:
//!   u8 marker                 0xff, or the index of the earlier account
//!                             that this entry repeats
//!   not a duplicate:          a duplicate:
//!     u8  is_signer             [7] padding
//!     u8  is_writable
//!     u8  executable
//!     i32 growth counter
//!     [32] key
//!     [32] owner
//!     u64 lamports
//!     u64 data_len
//!     [data_len] data
//!     [10240] room to grow
//!     padding up to a multiple of eight
//!     u64 rent epoch
//! u64 instruction_data_len
//! [instruction_data_len] instruction data
//! [32] program id
//! ```
//!
//! All integers are little-endian. Once an account has a handle, the byte of
//! its marker holds its borrow state.

use crate::codec::le_i32;
use crate::codec::le_u64;
use vstd::prelude::*;

verus! {

/// Where the signer flag stands in an account's header.
pub const IS_SIGNER_AT: usize = 1;

/// Where the writable flag stands in an account's header.
pub const IS_WRITABLE_AT: usize = 2;

/// Where the executable flag stands in an account's header.
pub const EXECUTABLE_AT: usize = 3;

/// Where the growth counter stands in an account's header.
pub const COUNTER_AT: usize = 4;

/// Where the key stands in an account's header.
pub const KEY_AT: usize = 8;

/// Where the owner stands in an account's header.
pub const OWNER_AT: usize = 40;

/// Where the balance stands in an account's header.
pub const LAMPORTS_AT: usize = 72;

/// Where the length of the data stands in an account's header.
pub const DATA_LEN_AT: usize = 80;

/// The length of an account's header; the data follows it.
pub const HEADER_LEN: usize = 88;

/// The length of a key.
pub const KEY_LEN: usize = 32;

/// The marker of an entry that is no duplicate.
pub const NON_DUP: u8 = 0xff;

/// By how many bytes the data of one account may grow in one invocation.
pub const MAX_INCREASE: usize = 10240;

/// The boundary on which the rent epoch of an account starts.
pub const ALIGN: usize = 8;

/// `solana_program_entrypoint::NON_DUP_MARKER`, which is `u8::MAX`.
#[verifier::external_body]
pub(crate) fn non_dup_marker() -> (marker: u8)
    ensures
        marker == NON_DUP,
{
    solana_program_entrypoint::NON_DUP_MARKER
}

/// `solana_program_entrypoint::MAX_PERMITTED_DATA_INCREASE`, which is ten
/// times 1024.
#[verifier::external_body]
pub(crate) fn max_permitted_data_increase() -> (limit: usize)
    ensures
        limit == MAX_INCREASE,
{
    solana_program_entrypoint::MAX_PERMITTED_DATA_INCREASE
}

/// `solana_program_entrypoint::BPF_ALIGN_OF_U128`, which is eight.
#[verifier::external_body]
pub(crate) fn bpf_align_of_u128() -> (align: usize)
    ensures
        align == ALIGN,
{
    solana_program_entrypoint::BPF_ALIGN_OF_U128
}

/// The first multiple of eight that is not below `offset`.
pub open spec fn align_up(offset: int) -> int {
    offset + (8 - offset % 8) % 8
}

/// Whether the entry that starts at `start` repeats an earlier account.
pub open spec fn is_duplicate(s: Seq<u8>, start: int) -> bool {
    s[start] != NON_DUP
}

/// The length of the data of the account whose header starts at `header`.
pub open spec fn data_len_at(s: Seq<u8>, header: int) -> int {
    le_u64(s, header + DATA_LEN_AT)
}

/// The growth counter of the account whose header starts at `header`.
pub open spec fn counter_at(s: Seq<u8>, header: int) -> int {
    le_i32(s, header + COUNTER_AT)
}

/// Where the entry after the one at `start` begins, given the marker of the
/// entry and, for an account, the length of its data.
pub open spec fn entry_end_given(start: int, marker: u8, data_len: int) -> int {
    if marker != NON_DUP {
        start + 8
    } else {
        align_up(start + HEADER_LEN + data_len + MAX_INCREASE) + 8
    }
}

/// Where the entry after the one at `start` begins.
pub open spec fn entry_end(s: Seq<u8>, start: int) -> int {
    entry_end_given(start, s[start], data_len_at(s, start))
}

/// Where entry `k` begins. Entry `account_count` is what follows the
/// accounts.
pub open spec fn entry_start(s: Seq<u8>, k: nat) -> int
    decreases k,
{
    if k == 0 {
        8
    } else {
        entry_end(s, entry_start(s, (k - 1) as nat))
    }
}

/// How many accounts the buffer announces.
pub open spec fn account_count(s: Seq<u8>) -> nat {
    le_u64(s, 0) as nat
}

/// Whether entry `k` lies inside the buffer and is what the loader writes:
/// an account with its room to grow, a counter of zero and a length that the
/// counter can follow, or a reference to an earlier entry.
pub open spec fn entry_fits(s: Seq<u8>, k: nat) -> bool {
    let start = entry_start(s, k);
    &&& start + 8 <= s.len()
    &&& if is_duplicate(s, start) {
        (s[start] as nat) < k
    } else {
        &&& start + HEADER_LEN <= s.len()
        &&& entry_end(s, start) <= s.len()
        &&& counter_at(s, start) == 0
        &&& data_len_at(s, start) <= i32::MAX
    }
}

/// Where the instruction data length stands.
pub open spec fn tail_start(s: Seq<u8>) -> int {
    entry_start(s, account_count(s))
}

/// The length of the instruction data.
pub open spec fn instruction_len(s: Seq<u8>) -> int {
    le_u64(s, tail_start(s))
}

/// Where the instruction data begins.
pub open spec fn instruction_start(s: Seq<u8>) -> int {
    tail_start(s) + 8
}

/// Where the program id begins.
pub open spec fn program_id_start(s: Seq<u8>) -> int {
    instruction_start(s) + instruction_len(s)
}

/// Whether the buffer is one that the loader hands over: every entry fits,
/// and the instruction data and the program id follow the last one.
pub open spec fn well_formed(s: Seq<u8>) -> bool {
    &&& 8 <= s.len()
    &&& forall|k: nat| k < account_count(s) ==> entry_fits(s, k)
    &&& tail_start(s) + 8 <= s.len()
    &&& program_id_start(s) + KEY_LEN <= s.len()
}

/// The header that the handle of entry `k` points to: its own, or that of
/// the account it repeats.
pub open spec fn account_header(s: Seq<u8>, k: nat) -> int
    decreases k,
{
    let start = entry_start(s, k);
    if is_duplicate(s, start) && (s[start] as nat) < k {
        account_header(s, s[start] as nat)
    } else {
        start
    }
}

/// The buffer once each account among the first `n` entries has had its
/// borrow state set to zero.
pub open spec fn with_states_reset(s: Seq<u8>, n: nat) -> Seq<u8>
    decreases n,
{
    if n == 0 {
        s
    } else {
        let before = with_states_reset(s, (n - 1) as nat);
        let start = entry_start(s, (n - 1) as nat);
        if is_duplicate(s, start) {
            before
        } else {
            before.update(start, 0u8)
        }
    }
}

/// The accounts among the first `n` entries: where the header of each
/// starts, and how long its data is.
pub open spec fn accounts_among(s: Seq<u8>, n: nat) -> Map<int, int>
    decreases n,
{
    if n == 0 {
        Map::empty()
    } else {
        let before = accounts_among(s, (n - 1) as nat);
        let start = entry_start(s, (n - 1) as nat);
        if is_duplicate(s, start) {
            before
        } else {
            before.insert(start, data_len_at(s, start))
        }
    }
}

/// Whether an entry among the first `n` repeats an earlier account.
pub open spec fn has_duplicate(s: Seq<u8>, n: nat) -> bool {
    exists|k: nat| k < n && is_duplicate(s, entry_start(s, k))
}

/// What an account occupies: its header, its data and its room to grow.
pub open spec fn extent(original_len: int) -> int {
    HEADER_LEN + original_len + MAX_INCREASE
}

/// Whether the account at `header`, whose data was `original_len` long when
/// the program was entered, is intact: it lies inside the buffer, and its
/// length has moved from the first one by what the counter says, which is
/// no more than the room to grow.
pub open spec fn account_intact(s: Seq<u8>, header: int, original_len: int) -> bool {
    &&& 0 <= header
    &&& 0 <= original_len <= i32::MAX
    &&& header + extent(original_len) <= s.len()
    &&& data_len_at(s, header) == original_len + counter_at(s, header)
    &&& counter_at(s, header) <= MAX_INCREASE
}

/// Whether the accounts are intact and no two of them overlap.
pub open spec fn accounts_intact(s: Seq<u8>, accounts: Map<int, int>) -> bool {
    &&& forall|h: int| #[trigger] accounts.dom().contains(h) ==> account_intact(s, h, accounts[h])
    &&& forall|h1: int, h2: int|
        #![trigger accounts.dom().contains(h1), accounts.dom().contains(h2)]
        accounts.dom().contains(h1) && accounts.dom().contains(h2) && h1 != h2 ==> h1 + extent(
            accounts[h1],
        ) <= h2 || h2 + extent(accounts[h2]) <= h1
}

/// Computes where the entry after the one at `start` begins, given the
/// marker of the entry and, for an account, the length of its data. Gives
/// nothing where that place is too far for any buffer to reach.
pub fn next_entry(start: usize, marker: u8, data_len: u64) -> (next: Option<usize>)
    ensures
        match next {
            Some(next) => next == entry_end_given(start as int, marker, data_len as int),
            None => entry_end_given(start as int, marker, data_len as int) > usize::MAX,
        },
{
    if marker != non_dup_marker() {
        return start.checked_add(8);
    }
    if data_len > usize::MAX as u64 {
        return None;
    }
    let align = bpf_align_of_u128();
    let offset = start.checked_add(HEADER_LEN)?;
    let offset = offset.checked_add(data_len as usize)?;
    let offset = offset.checked_add(max_permitted_data_increase())?;
    let rest = offset % align;
    let offset = if rest != 0 {
        offset.checked_add(align - rest)?
    } else {
        offset
    };
    offset.checked_add(8)  // the rent epoch
}

/// An entry ends at least eight bytes after it starts.
pub proof fn lemma_entry_advances(s: Seq<u8>, start: int)
    ensures
        entry_end(s, start) >= start + 8,
        !is_duplicate(s, start) ==> entry_end(s, start) >= start + extent(data_len_at(s, start))
            + 8,
{
}

/// No entry starts before the count of the accounts has ended.
pub proof fn lemma_entry_start_positive(s: Seq<u8>, k: nat)
    ensures
        entry_start(s, k) >= 8,
    decreases k,
{
    if k > 0 {
        lemma_entry_start_positive(s, (k - 1) as nat);
        lemma_entry_advances(s, entry_start(s, (k - 1) as nat));
    }
}

/// Entries follow one another: a later one starts where an earlier one has
/// ended, or after that.
pub proof fn lemma_entries_ordered(s: Seq<u8>, i: nat, j: nat)
    requires
        i < j,
    ensures
        entry_end(s, entry_start(s, i)) <= entry_start(s, j),
    decreases j,
{
    if j == i + 1 {
    } else {
        lemma_entries_ordered(s, i, (j - 1) as nat);
        lemma_entry_advances(s, entry_start(s, (j - 1) as nat));
    }
}

} // verus!
