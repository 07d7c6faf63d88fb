//! Reading the input buffer: one handle for each account, then the
//! instruction data and the program id.

use crate::account::NoStdAccountInfo;
use crate::codec::le_u64;
use crate::codec::read_i32;
use crate::codec::read_key;
use crate::codec::read_u64;
use crate::input::Input;
use crate::input::Span;
use crate::key::key_bytes;
use crate::layout::account_count;
use crate::layout::account_header;
use crate::layout::account_intact;
use crate::layout::accounts_among;
use crate::layout::accounts_intact;
use crate::layout::bpf_align_of_u128;
use crate::layout::counter_at;
use crate::layout::data_len_at;
use crate::layout::entry_end;
use crate::layout::entry_fits;
use crate::layout::entry_start;
use crate::layout::extent;
use crate::layout::has_duplicate;
use crate::layout::instruction_len;
use crate::layout::instruction_start;
use crate::layout::is_duplicate;
use crate::layout::lemma_entries_ordered;
use crate::layout::lemma_entry_advances;
use crate::layout::lemma_entry_start_positive;
use crate::layout::max_permitted_data_increase;
use crate::layout::next_entry;
use crate::layout::non_dup_marker;
use crate::layout::program_id_start;
use crate::layout::tail_start;
use crate::layout::well_formed;
use crate::layout::with_states_reset;
use crate::layout::ALIGN;
use crate::layout::COUNTER_AT;
use crate::layout::DATA_LEN_AT;
use crate::layout::EXECUTABLE_AT;
use crate::layout::HEADER_LEN;
use crate::layout::IS_SIGNER_AT;
use crate::layout::IS_WRITABLE_AT;
use crate::layout::KEY_AT;
use crate::layout::KEY_LEN;
use crate::layout::LAMPORTS_AT;
use crate::layout::MAX_INCREASE;
use crate::layout::NON_DUP;
use crate::layout::OWNER_AT;
use solana_pubkey::Pubkey;
use vstd::prelude::*;

verus! {

/// How many handles are made: one for each account, up to `max`.
pub open spec fn handle_count(s: Seq<u8>, max: nat) -> nat {
    if account_count(s) < max {
        account_count(s)
    } else {
        max
    }
}

/// How many of the first `n` entries come before the first duplicate.
pub open spec fn leading_accounts(s: Seq<u8>, n: nat) -> nat
    decreases n,
{
    if n == 0 {
        0
    } else {
        let before = leading_accounts(s, (n - 1) as nat);
        if before == n - 1 && !is_duplicate(s, entry_start(s, (n - 1) as nat)) {
            n
        } else {
            before
        }
    }
}

/// What holds once the first `n` entries of the buffer `s` have their
/// handles: the borrow state of each account is zero and nothing else has
/// changed, the accounts are known and intact, handle `k` points at the
/// account of entry `k`, and the places after the handles are as they were.
pub open spec fn materialized(
    s: Seq<u8>,
    n: nat,
    input: Input,
    before: Seq<NoStdAccountInfo>,
    after: Seq<NoStdAccountInfo>,
) -> bool {
    input.wf() && handles_made(s, n, input@, input.accounts(), before, after)
}

/// `materialized`, said of the bytes and the accounts of an input.
pub open spec fn handles_made(
    s: Seq<u8>,
    n: nat,
    t: Seq<u8>,
    known: Map<int, int>,
    before: Seq<NoStdAccountInfo>,
    after: Seq<NoStdAccountInfo>,
) -> bool {
    &&& t == with_states_reset(s, n)
    &&& t.len() == s.len()
    &&& known == accounts_among(s, n)
    &&& accounts_intact(t, known)
    &&& after.len() == before.len()
    &&& forall|k: int|
        0 <= k < n ==> (#[trigger] after[k]).header() == account_header(s, k as nat)
            && known.dom().contains(after[k].header() as int)
    &&& forall|k: int| n <= k < after.len() ==> #[trigger] after[k] == before[k]
}

/// The instruction data that the buffer holds.
pub open spec fn instruction_bytes(s: Seq<u8>) -> Seq<u8> {
    s.subrange(instruction_start(s), instruction_start(s) + instruction_len(s))
}

/// The bytes of the program id that the buffer holds.
pub open spec fn program_id_bytes(s: Seq<u8>) -> Seq<u8> {
    s.subrange(program_id_start(s), program_id_start(s) + KEY_LEN)
}

/// What follows the accounts reads the same in a buffer that kept it.
proof fn lemma_tail_kept(s: Seq<u8>, t: Seq<u8>)
    requires
        well_formed(s),
        t.len() == s.len(),
        8 <= tail_start(s),
        forall|j: int| tail_start(s) <= j < s.len() ==> t[j] == s[j],
    ensures
        le_u64(t, tail_start(s)) == instruction_len(s),
        t.subrange(instruction_start(s), instruction_start(s) + instruction_len(s))
            == instruction_bytes(s),
        t.subrange(program_id_start(s), program_id_start(s) + KEY_LEN) == program_id_bytes(s),
{
    assert(t.subrange(instruction_start(s), instruction_start(s) + instruction_len(s))
        =~= instruction_bytes(s));
    assert(t.subrange(program_id_start(s), program_id_start(s) + KEY_LEN) =~= program_id_bytes(
        s,
    ));
}

/// A duplicate stands among the first `n` entries just when fewer than `n`
/// come before the first one.
pub proof fn lemma_leading_accounts(s: Seq<u8>, n: nat)
    ensures
        leading_accounts(s, n) <= n,
        has_duplicate(s, n) <==> leading_accounts(s, n) < n,
        forall|k: nat| k < leading_accounts(s, n) ==> !is_duplicate(s, entry_start(s, k)),
    decreases n,
{
    if n > 0 {
        lemma_leading_accounts(s, (n - 1) as nat);
        let m = (n - 1) as nat;
        if has_duplicate(s, m) {
            let k = choose|k: nat| k < m && is_duplicate(s, entry_start(s, k));
            assert(k < n && is_duplicate(s, entry_start(s, k)));
        }
        if is_duplicate(s, entry_start(s, m)) {
            assert(m < n && is_duplicate(s, entry_start(s, m)));
        }
        if has_duplicate(s, n) {
            let k = choose|k: nat| k < n && is_duplicate(s, entry_start(s, k));
            if k < m {
                assert(has_duplicate(s, m));
            }
        }
    }
}

/// Resetting the borrow states of the first `n` entries changes the first
/// byte of each account among them and nothing else.
pub proof fn lemma_states_reset(s: Seq<u8>, n: nat, j: int)
    requires
        0 <= j < s.len(),
        forall|k: nat| k < n ==> 0 <= #[trigger] entry_start(s, k) < s.len(),
    ensures
        with_states_reset(s, n).len() == s.len(),
        (exists|k: nat| k < n && !is_duplicate(s, entry_start(s, k)) && entry_start(s, k) == j)
            ==> with_states_reset(s, n)[j] == 0,
        (forall|k: nat| k < n && !is_duplicate(s, entry_start(s, k)) ==> entry_start(s, k) != j)
            ==> with_states_reset(s, n)[j] == s[j],
    decreases n,
{
    if n > 0 {
        let m = (n - 1) as nat;
        lemma_states_reset(s, m, j);
        if exists|k: nat| k < n && !is_duplicate(s, entry_start(s, k)) && entry_start(s, k) == j {
            let k = choose|k: nat|
                k < n && !is_duplicate(s, entry_start(s, k)) && entry_start(s, k) == j;
            if k < m {
                assert(k < m && !is_duplicate(s, entry_start(s, k)) && entry_start(s, k) == j);
            }
        }
    }
}

/// Whether the account at `header` reads in `parsed` as it was written in
/// `s`: its flags, its key, its owner, its balance, the length of its data
/// and its data are the same, and its borrow state is zero.
pub open spec fn account_kept(s: Seq<u8>, parsed: Seq<u8>, header: int) -> bool {
    &&& parsed[header] == 0
    &&& parsed[header + IS_SIGNER_AT] == s[header + IS_SIGNER_AT]
    &&& parsed[header + IS_WRITABLE_AT] == s[header + IS_WRITABLE_AT]
    &&& parsed[header + EXECUTABLE_AT] == s[header + EXECUTABLE_AT]
    &&& parsed.subrange(header + KEY_AT, header + KEY_AT + KEY_LEN) == s.subrange(
        header + KEY_AT,
        header + KEY_AT + KEY_LEN,
    )
    &&& parsed.subrange(header + OWNER_AT, header + OWNER_AT + KEY_LEN) == s.subrange(
        header + OWNER_AT,
        header + OWNER_AT + KEY_LEN,
    )
    &&& le_u64(parsed, header + LAMPORTS_AT) == le_u64(s, header + LAMPORTS_AT)
    &&& data_len_at(parsed, header) == data_len_at(s, header)
    &&& parsed.subrange(header + HEADER_LEN, header + HEADER_LEN + data_len_at(s, header))
        == s.subrange(header + HEADER_LEN, header + HEADER_LEN + data_len_at(s, header))
}

/// Every account that gets a handle reads as the loader wrote it: of what
/// lies between the start of its entry and the start of the next one, only
/// the first byte, which has become its borrow state, has changed, and that
/// byte is zero. So its flags, its key, its owner, its balance and its data
/// are those of the buffer that was handed over.
pub proof fn lemma_account_as_written(s: Seq<u8>, n: nat, k: nat)
    requires
        well_formed(s),
        k < n <= account_count(s),
        !is_duplicate(s, entry_start(s, k)),
    ensures
        account_header(s, k) == entry_start(s, k),
        with_states_reset(s, n).len() == s.len(),
        forall|j: int|
            entry_start(s, k) < j < entry_end(s, entry_start(s, k)) ==> with_states_reset(s, n)[j]
                == s[j],
        account_kept(s, with_states_reset(s, n), entry_start(s, k)),
{
    let header = entry_start(s, k);
    let parsed = with_states_reset(s, n);
    assert(entry_fits(s, k));
    lemma_entry_advances(s, header);
    assert forall|m: nat| m < n implies 0 <= #[trigger] entry_start(s, m) < s.len() by {
        assert(entry_fits(s, m));
        lemma_entry_start_positive(s, m);
    }
    lemma_states_reset(s, n, header);
    assert forall|j: int| header < j < entry_end(s, header) implies parsed[j] == s[j] by {
        assert forall|m: nat| m < n && !is_duplicate(s, entry_start(s, m)) implies entry_start(
            s,
            m,
        ) != j by {
            if m < k {
                lemma_entries_ordered(s, m, k);
                lemma_entry_advances(s, entry_start(s, m));
            } else if m > k {
                lemma_entries_ordered(s, k, m);
            }
        }
        lemma_states_reset(s, n, j);
    }
    assert(parsed.subrange(header + KEY_AT, header + KEY_AT + KEY_LEN) =~= s.subrange(
        header + KEY_AT,
        header + KEY_AT + KEY_LEN,
    ));
    assert(parsed.subrange(header + OWNER_AT, header + OWNER_AT + KEY_LEN) =~= s.subrange(
        header + OWNER_AT,
        header + OWNER_AT + KEY_LEN,
    ));
    assert(parsed.subrange(header + HEADER_LEN, header + HEADER_LEN + data_len_at(s, header))
        =~= s.subrange(header + HEADER_LEN, header + HEADER_LEN + data_len_at(s, header)));
}

/// Where the buffer holds no duplicate and no more accounts than there is
/// room for, there are as many handles as accounts, handle `k` points at
/// the header of entry `k`, and every account reads as the loader wrote it.
pub proof fn lemma_accounts_as_written(s: Seq<u8>, max: nat)
    requires
        well_formed(s),
        account_count(s) <= max,
        !has_duplicate(s, account_count(s)),
    ensures
        handle_count(s, max) == account_count(s),
        forall|k: nat|
            k < account_count(s) ==> #[trigger] account_header(s, k) == entry_start(s, k)
                && account_kept(
                s,
                with_states_reset(s, handle_count(s, max)),
                entry_start(s, k),
            ),
{
    let n = account_count(s);
    assert forall|k: nat| k < n implies #[trigger] account_header(s, k) == entry_start(s, k)
        && account_kept(s, with_states_reset(s, n), entry_start(s, k)) by {
        assert(!is_duplicate(s, entry_start(s, k)));
        lemma_account_as_written(s, n, k);
    }
}

/// A duplicate has the handle of the account it repeats.
pub proof fn lemma_duplicate_shares_handle(s: Seq<u8>, k: nat)
    requires
        is_duplicate(s, entry_start(s, k)),
        (s[entry_start(s, k)] as nat) < k,
    ensures
        account_header(s, k) == account_header(s, s[entry_start(s, k)] as nat),
{
}

/// Where the first duplicate stands, the count of entries before it stays.
pub proof fn lemma_leading_stops(s: Seq<u8>, i: nat, n: nat)
    requires
        i < n,
        leading_accounts(s, i) == i,
        is_duplicate(s, entry_start(s, i)),
    ensures
        leading_accounts(s, n) == i,
    decreases n,
{
    if n == i + 1 {
    } else {
        lemma_leading_stops(s, i, (n - 1) as nat);
    }
}

/// Taking in the account at `header` keeps the accounts intact: it lies
/// after all the others, and resetting its borrow state touches none of
/// them.
proof fn lemma_adopt(s: Seq<u8>, accounts: Map<int, int>, header: int, len: int)
    requires
        accounts_intact(s, accounts),
        forall|h: int| #[trigger] accounts.dom().contains(h) ==> h + extent(accounts[h]) <= header,
        0 <= header,
        header + extent(len) <= s.len(),
        counter_at(s, header) == 0,
        data_len_at(s, header) == len,
        len <= i32::MAX,
    ensures
        accounts_intact(s.update(header, 0u8), accounts.insert(header, len)),
{
    let t = s.update(header, 0u8);
    let grown = accounts.insert(header, len);
    assert forall|h: int| #[trigger] grown.dom().contains(h) implies account_intact(
        t,
        h,
        grown[h],
    ) by {
        if h != header {
            assert(accounts.dom().contains(h));
        }
    }
    assert forall|h1: int, h2: int|
        #![trigger grown.dom().contains(h1), grown.dom().contains(h2)]
        grown.dom().contains(h1) && grown.dom().contains(h2) && h1 != h2 implies h1 + extent(
        grown[h1],
    ) <= h2 || h2 + extent(grown[h2]) <= h1 by {
        if h1 != header {
            assert(accounts.dom().contains(h1));
        }
        if h2 != header {
            assert(accounts.dom().contains(h2));
        }
    }
}

/// What the walk knows before entry `i`, which starts at `offset`: the
/// handles of the entries before it are made, the accounts among them end
/// before `offset`, and from `offset` on the buffer is as it was.
spec fn walked(
    s: Seq<u8>,
    i: nat,
    offset: int,
    t: Seq<u8>,
    known: Map<int, int>,
    before: Seq<NoStdAccountInfo>,
    after: Seq<NoStdAccountInfo>,
) -> bool {
    &&& offset == entry_start(s, i)
    &&& 8 <= offset
    &&& handles_made(s, i, t, known, before, after)
    &&& forall|j: int| offset <= j < s.len() ==> t[j] == s[j]
    &&& forall|h: int| #[trigger] known.dom().contains(h) ==> h + extent(known[h]) <= offset
}

/// The walk goes on over an account: its borrow state is reset, it joins
/// the accounts, and its handle points at it.
proof fn lemma_walk_account(
    s: Seq<u8>,
    i: nat,
    t: Seq<u8>,
    known: Map<int, int>,
    before: Seq<NoStdAccountInfo>,
    after: Seq<NoStdAccountInfo>,
    handle: NoStdAccountInfo,
)
    requires
        entry_fits(s, i),
        !is_duplicate(s, entry_start(s, i)),
        walked(s, i, entry_start(s, i), t, known, before, after),
        i < after.len(),
        handle.header() == entry_start(s, i),
    ensures
        walked(
            s,
            i + 1,
            entry_end(s, entry_start(s, i)),
            t.update(entry_start(s, i), 0u8),
            known.insert(entry_start(s, i), data_len_at(s, entry_start(s, i))),
            before,
            after.update(i as int, handle),
        ),
{
    let offset = entry_start(s, i);
    let len = data_len_at(s, offset);
    let t2 = t.update(offset, 0u8);
    let known2 = known.insert(offset, len);
    let after2 = after.update(i as int, handle);
    lemma_entry_advances(s, offset);
    assert(counter_at(t, offset) == counter_at(s, offset));
    assert(data_len_at(t, offset) == data_len_at(s, offset));
    lemma_adopt(t, known, offset, len);
    assert forall|k: int| 0 <= k < i + 1 implies (#[trigger] after2[k]).header() == account_header(
        s,
        k as nat,
    ) && known2.dom().contains(after2[k].header() as int) by {
        if k < i {
            assert(after2[k] == after[k]);
        }
    }
    assert forall|k: int| i + 1 <= k < after2.len() implies #[trigger] after2[k] == before[k] by {
        assert(after2[k] == after[k]);
    }
}

/// The walk goes on over a duplicate: nothing in the buffer changes, and its
/// handle is that of the account it repeats.
proof fn lemma_walk_duplicate(
    s: Seq<u8>,
    i: nat,
    t: Seq<u8>,
    known: Map<int, int>,
    before: Seq<NoStdAccountInfo>,
    after: Seq<NoStdAccountInfo>,
)
    requires
        entry_fits(s, i),
        is_duplicate(s, entry_start(s, i)),
        walked(s, i, entry_start(s, i), t, known, before, after),
        i < after.len(),
    ensures
        walked(
            s,
            i + 1,
            entry_start(s, i) + 8,
            t,
            known,
            before,
            after.update(i as int, after[s[entry_start(s, i)] as int]),
        ),
{
    let offset = entry_start(s, i);
    let d = s[offset] as int;
    let after2 = after.update(i as int, after[d]);
    assert forall|k: int| 0 <= k < i + 1 implies (#[trigger] after2[k]).header() == account_header(
        s,
        k as nat,
    ) && known.dom().contains(after2[k].header() as int) by {
        if k < i {
            assert(after2[k] == after[k]);
        } else {
            assert(after2[k] == after[d]);
        }
    }
    assert forall|k: int| i + 1 <= k < after2.len() implies #[trigger] after2[k] == before[k] by {
        assert(after2[k] == after[k]);
    }
}

/// Walks the entries. Makes the handles of the first `MAX_ACCOUNTS` and
/// passes over the rest. With `strict`, stops at the first duplicate among
/// those that get a handle. Gives the number of handles made and, unless it
/// stopped, the place after the last entry.
fn walk<const MAX_ACCOUNTS: usize>(
    input: &mut Input,
    accounts: &mut [NoStdAccountInfo],
    strict: bool,
) -> (r: (usize, Option<usize>))
    requires
        well_formed(old(input)@),
        old(input).accounts() == Map::<int, int>::empty(),
        old(accounts)@.len() >= handle_count(old(input)@, MAX_ACCOUNTS as nat),
    ensures
        materialized(old(input)@, r.0 as nat, *final(input), old(accounts)@, final(accounts)@),
        r.0 == if strict {
            leading_accounts(old(input)@, handle_count(old(input)@, MAX_ACCOUNTS as nat))
        } else {
            handle_count(old(input)@, MAX_ACCOUNTS as nat)
        },
        r.1 is Some <==> r.0 == handle_count(old(input)@, MAX_ACCOUNTS as nat),
        r.1 is Some ==> r.1->0 == tail_start(old(input)@) && 8 <= tail_start(old(input)@),
        r.1 is Some ==> forall|j: int|
            tail_start(old(input)@) <= j < old(input)@.len() ==> final(input)@[j] == old(input)@[j],
{
    let ghost s0 = input@;
    let marker = non_dup_marker();
    let room = max_permitted_data_increase();
    let align = bpf_align_of_u128();
    let total = input.bytes.len();
    let mut offset: usize = 0;

    // Number of accounts present
    let num_accounts: u64 = read_u64(input.bytes.as_slice(), offset);
    offset += 8;

    // Only up to MAX_ACCOUNTS get a handle
    let processed: usize = if num_accounts < MAX_ACCOUNTS as u64 {
        num_accounts as usize
    } else {
        MAX_ACCOUNTS
    };
    assert(processed == handle_count(s0, MAX_ACCOUNTS as nat));

    let mut i: usize = 0;
    while i < processed
        invariant
            s0 == old(input)@,
            well_formed(s0),
            total == s0.len(),
            input@.len() == total,
            marker == NON_DUP,
            room == MAX_INCREASE,
            align == ALIGN,
            num_accounts == account_count(s0),
            processed == handle_count(s0, MAX_ACCOUNTS as nat),
            processed <= accounts@.len(),
            i <= processed,
            strict ==> leading_accounts(s0, i as nat) == i,
            walked(s0, i as nat, offset as int, input@, input.accounts(), old(accounts)@, accounts@),
        decreases processed - i,
    {
        assert(entry_fits(s0, i as nat));
        let ghost start = offset as int;
        let ghost t = input@;
        let ghost known = input.accounts();
        let ghost handles = accounts@;
        let dup_info = input.bytes[offset];
        if dup_info == marker {
            let header = offset;
            let data_len = read_u64(input.bytes.as_slice(), offset + DATA_LEN_AT) as usize;
            assert(data_len == data_len_at(s0, header as int));

            offset += HEADER_LEN;
            offset += data_len;
            offset += room;
            let rest = offset % align;
            if rest != 0 {
                offset += align - rest;
            }
            offset += 8;  // the rent epoch is passed over
            assert(offset == entry_end(s0, start));

            // The marker has served; from here on the byte is the borrow state
            input.bytes[header] = 0b_0000_0000;
            input.accounts = Ghost(input.accounts@.insert(header as int, data_len as int));

            let handle = NoStdAccountInfo { inner: header };
            accounts[i] = handle;
            proof {
                lemma_walk_account(s0, i as nat, t, known, old(accounts)@, handles, handle);
            }
        } else {
            if strict {
                proof {
                    lemma_leading_stops(s0, i as nat, processed as nat);
                }
                return (i, None);
            }
            offset += 8;
            // A duplicate gets the handle of the account it repeats
            let repeated = accounts[dup_info as usize];
            accounts[i] = repeated;
            proof {
                lemma_walk_duplicate(s0, i as nat, t, known, old(accounts)@, handles);
            }
        }
        i += 1;
    }

    // Pass over the accounts that there is no room for
    let mut passed: u64 = processed as u64;
    while passed < num_accounts
        invariant
            well_formed(s0),
            total == s0.len(),
            input@.len() == total,
            marker == NON_DUP,
            room == MAX_INCREASE,
            align == ALIGN,
            num_accounts == account_count(s0),
            processed <= passed <= num_accounts,
            offset == entry_start(s0, passed as nat),
            8 <= offset,
            forall|j: int| offset <= j < total ==> input@[j] == s0[j],
        decreases num_accounts - passed,
    {
        assert(entry_fits(s0, passed as nat));
        proof {
            lemma_entry_advances(s0, offset as int);
        }
        if input.bytes[offset] == marker {
            let data_len = read_u64(input.bytes.as_slice(), offset + DATA_LEN_AT) as usize;
            assert(data_len == data_len_at(s0, offset as int));
            offset += HEADER_LEN;
            offset += data_len;
            offset += room;
            let rest = offset % align;
            if rest != 0 {
                offset += align - rest;
            }
            offset += 8;
        } else {
            offset += 8;
        }
        passed += 1;
    }

    (processed, Some(offset))
}

/// Checks that the buffer is one that the loader hands over: that every
/// entry fits and that the instruction data and the program id follow the
/// last one. The parsers ask for such a buffer.
pub fn is_well_formed(bytes: &[u8]) -> (ok: bool)
    ensures
        ok == well_formed(bytes@),
{
    let ghost s = bytes@;
    let marker = non_dup_marker();
    let total = bytes.len();
    if total < 8 {
        return false;
    }
    let num_accounts: u64 = read_u64(bytes, 0);
    let mut offset: usize = 8;
    let mut i: u64 = 0;
    while i < num_accounts
        invariant
            s == bytes@,
            total == s.len(),
            marker == NON_DUP,
            num_accounts == account_count(s),
            i <= num_accounts,
            8 <= offset <= total,
            offset == entry_start(s, i as nat),
            forall|k: nat| k < i ==> entry_fits(s, k),
        decreases total - offset,
    {
        proof {
            lemma_entry_advances(s, offset as int);
        }
        if total - offset < 8 {
            assert(!entry_fits(s, i as nat));
            return false;
        }
        let dup_info = bytes[offset];
        let data_len = if dup_info == marker {
            if total - offset < HEADER_LEN {
                assert(!entry_fits(s, i as nat));
                return false;
            }
            let counter = read_i32(bytes, offset + COUNTER_AT);
            let data_len = read_u64(bytes, offset + DATA_LEN_AT);
            if counter != 0 || data_len > i32::MAX as u64 {
                assert(!entry_fits(s, i as nat));
                return false;
            }
            data_len
        } else {
            if dup_info as u64 >= i {
                assert(!entry_fits(s, i as nat));
                return false;
            }
            0
        };
        match next_entry(offset, dup_info, data_len) {
            Some(next) if next <= total => {
                assert(entry_fits(s, i as nat));
                offset = next;
            },
            _ => {
                assert(!entry_fits(s, i as nat));
                return false;
            },
        }
        i += 1;
    }

    if total - offset < 8 {
        return false;
    }
    let instruction_data_len = read_u64(bytes, offset);
    let left = total - offset - 8;
    if instruction_data_len > left as u64 {
        return false;
    }
    left - instruction_data_len as usize >= KEY_LEN
}

/// The place of the instruction data, whose length stands at `offset`.
fn instruction_data_at(input: &Input, offset: usize) -> (data: Span)
    requires
        offset + 8 <= input@.len(),
        offset + 8 + le_u64(input@, offset as int) <= input@.len(),
    ensures
        data.start() == offset + 8,
        data.len() == le_u64(input@, offset as int),
        data.end() <= usize::MAX,
{
    let bytes = input.as_bytes();
    let _ = bytes.len();
    let instruction_data_len = read_u64(bytes, offset) as usize;
    Span { start: offset + 8, len: instruction_data_len }
}

/// The key that stands at `offset`.
fn key_at(input: &Input, offset: usize) -> (key: Pubkey)
    requires
        offset + KEY_LEN <= input@.len(),
    ensures
        key_bytes(key) == input@.subrange(offset as int, offset + KEY_LEN),
{
    Pubkey::new_from_array(read_key(input.as_bytes(), offset))
}

/// Reads the input buffer of a program that may be handed the same account
/// more than once.
///
/// Makes a handle for each of the first `MAX_ACCOUNTS` accounts and sets the
/// borrow state of each to zero; a duplicate gets the handle of the account
/// it repeats. Accounts beyond `MAX_ACCOUNTS` are passed over. Returns the
/// id of the program, the number of handles made and the place of the
/// instruction data.
pub fn deserialize_nostd<const MAX_ACCOUNTS: usize>(
    input: &mut Input,
    accounts: &mut [NoStdAccountInfo],
) -> (r: (Pubkey, usize, Span))
    requires
        well_formed(old(input)@),
        old(input).accounts() == Map::<int, int>::empty(),
        old(accounts)@.len() >= handle_count(old(input)@, MAX_ACCOUNTS as nat),
    ensures
        r.1 == handle_count(old(input)@, MAX_ACCOUNTS as nat),
        materialized(old(input)@, r.1 as nat, *final(input), old(accounts)@, final(accounts)@),
        key_bytes(r.0) == program_id_bytes(old(input)@),
        r.2.start() == instruction_start(old(input)@),
        r.2.len() == instruction_len(old(input)@),
        final(input)@.subrange(r.2.start() as int, r.2.end()) == instruction_bytes(old(input)@),
{
    let (processed, tail) = walk::<MAX_ACCOUNTS>(input, accounts, false);
    let offset = tail.unwrap();

    // Instruction data
    let instruction_data = instruction_data_at(input, offset);

    // Program Id
    let program_id = key_at(input, instruction_data.start + instruction_data.len);
    proof {
        lemma_tail_kept(old(input)@, input@);
    }
    (program_id, processed, instruction_data)
}

/// Reads the input buffer of a program that takes no account twice.
///
/// As `deserialize_nostd`, but returns nothing where one of the first
/// `MAX_ACCOUNTS` entries is a duplicate. The accounts before that entry have
/// their handles then.
pub fn deserialize_nostd_no_dup<const MAX_ACCOUNTS: usize>(
    input: &mut Input,
    accounts: &mut [NoStdAccountInfo],
) -> (r: Option<(Pubkey, usize, Span)>)
    requires
        well_formed(old(input)@),
        old(input).accounts() == Map::<int, int>::empty(),
        old(accounts)@.len() >= handle_count(old(input)@, MAX_ACCOUNTS as nat),
    ensures
        r is None <==> has_duplicate(
            old(input)@,
            handle_count(old(input)@, MAX_ACCOUNTS as nat),
        ),
        materialized(
            old(input)@,
            leading_accounts(old(input)@, handle_count(old(input)@, MAX_ACCOUNTS as nat)),
            *final(input),
            old(accounts)@,
            final(accounts)@,
        ),
        r matches Some((program_id, processed, data)) ==> {
            &&& processed == handle_count(old(input)@, MAX_ACCOUNTS as nat)
            &&& key_bytes(program_id) == program_id_bytes(old(input)@)
            &&& data.start() == instruction_start(old(input)@)
            &&& data.len() == instruction_len(old(input)@)
            &&& final(input)@.subrange(data.start() as int, data.end()) == instruction_bytes(
                old(input)@,
            )
        },
{
    proof {
        lemma_leading_accounts(old(input)@, handle_count(old(input)@, MAX_ACCOUNTS as nat));
    }
    let (processed, tail) = walk::<MAX_ACCOUNTS>(input, accounts, true);
    match tail {
        None => None,
        Some(offset) => {
            // Instruction data
            let instruction_data = instruction_data_at(input, offset);

            // Program Id
            let program_id = key_at(input, instruction_data.start + instruction_data.len);
            proof {
                lemma_tail_kept(old(input)@, input@);
            }
            Some((program_id, processed, instruction_data))
        },
    }
}

/// Reads the input buffer of a program that may be handed the same account
/// more than once and does not ask for its own id.
///
/// As `deserialize_nostd`, without the id of the program.
pub fn deserialize_nostd_no_program<const MAX_ACCOUNTS: usize>(
    input: &mut Input,
    accounts: &mut [NoStdAccountInfo],
) -> (r: (usize, Span))
    requires
        well_formed(old(input)@),
        old(input).accounts() == Map::<int, int>::empty(),
        old(accounts)@.len() >= handle_count(old(input)@, MAX_ACCOUNTS as nat),
    ensures
        r.0 == handle_count(old(input)@, MAX_ACCOUNTS as nat),
        materialized(old(input)@, r.0 as nat, *final(input), old(accounts)@, final(accounts)@),
        r.1.start() == instruction_start(old(input)@),
        r.1.len() == instruction_len(old(input)@),
        final(input)@.subrange(r.1.start() as int, r.1.end()) == instruction_bytes(old(input)@),
{
    let (processed, tail) = walk::<MAX_ACCOUNTS>(input, accounts, false);
    let offset = tail.unwrap();

    // Instruction data
    let instruction_data = instruction_data_at(input, offset);
    proof {
        lemma_tail_kept(old(input)@, input@);
    }
    (processed, instruction_data)
}

/// Reads the input buffer of a program that takes no account twice and does
/// not ask for its own id.
///
/// As `deserialize_nostd_no_dup`, without the id of the program.
pub fn deserialize_nostd_no_dup_no_program<const MAX_ACCOUNTS: usize>(
    input: &mut Input,
    accounts: &mut [NoStdAccountInfo],
) -> (r: Option<(usize, Span)>)
    requires
        well_formed(old(input)@),
        old(input).accounts() == Map::<int, int>::empty(),
        old(accounts)@.len() >= handle_count(old(input)@, MAX_ACCOUNTS as nat),
    ensures
        r is None <==> has_duplicate(
            old(input)@,
            handle_count(old(input)@, MAX_ACCOUNTS as nat),
        ),
        materialized(
            old(input)@,
            leading_accounts(old(input)@, handle_count(old(input)@, MAX_ACCOUNTS as nat)),
            *final(input),
            old(accounts)@,
            final(accounts)@,
        ),
        r matches Some((processed, data)) ==> {
            &&& processed == handle_count(old(input)@, MAX_ACCOUNTS as nat)
            &&& data.start() == instruction_start(old(input)@)
            &&& data.len() == instruction_len(old(input)@)
            &&& final(input)@.subrange(data.start() as int, data.end()) == instruction_bytes(
                old(input)@,
            )
        },
{
    proof {
        lemma_leading_accounts(old(input)@, handle_count(old(input)@, MAX_ACCOUNTS as nat));
    }
    let (processed, tail) = walk::<MAX_ACCOUNTS>(input, accounts, true);
    match tail {
        None => None,
        Some(offset) => {
            // Instruction data
            let instruction_data = instruction_data_at(input, offset);
            proof {
                lemma_tail_kept(old(input)@, input@);
            }
            Some((processed, instruction_data))
        },
    }
}

} // verus!
