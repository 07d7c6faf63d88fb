//! The way into a program: read the input buffer, hand over to the
//! program, and tell the host how it went.
//!
//! The program is a function that takes the input and what was read from
//! it and answers with nothing, or with the status that the host is to be
//! told. Four ways in differ in two things: whether the program may be
//! handed the same account more than once, and whether it asks for its own
//! id.

use crate::account::NoStdAccountInfo;
use crate::deserialize::deserialize_nostd;
use crate::deserialize::deserialize_nostd_no_dup;
use crate::deserialize::deserialize_nostd_no_dup_no_program;
use crate::deserialize::deserialize_nostd_no_program;
use crate::deserialize::handle_count;
use crate::deserialize::instruction_bytes;
use crate::deserialize::leading_accounts;
use crate::deserialize::lemma_leading_accounts;
use crate::deserialize::materialized;
use crate::deserialize::program_id_bytes;
use crate::input::Input;
use crate::input::Span;
use crate::key::key_bytes;
use crate::layout::has_duplicate;
use crate::layout::instruction_len;
use crate::layout::instruction_start;
use crate::layout::well_formed;
use solana_pubkey::Pubkey;
use vstd::prelude::*;
use vstd::slice::slice_subrange;

verus! {

/// The status of a program that has done its work.
pub const SUCCESS: u64 = 0;

/// The status of a program that takes no account twice and was handed one
/// twice.
pub const DUPLICATE_ACCOUNT: u64 = u64::MAX;

/// The status that the host is told: zero where the program has done its
/// work, else the status that the program answered with.
pub open spec fn status_of(result: Result<(), u64>) -> u64 {
    match result {
        Ok(_) => SUCCESS,
        Err(status) => status,
    }
}

/// What a program is handed once the buffer `s` has been read into an array
/// of `max` handles: the input with the handles made, the handles that were
/// made, and the place of the instruction data.
pub open spec fn handed_over(
    s: Seq<u8>,
    max: nat,
    before: Seq<NoStdAccountInfo>,
    input: Input,
    accounts: Seq<NoStdAccountInfo>,
    data: Span,
) -> bool {
    &&& exists|after: Seq<NoStdAccountInfo>|
        materialized(s, handle_count(s, max), input, before, after) && accounts == after.subrange(
            0,
            handle_count(s, max) as int,
        )
    &&& data.start() == instruction_start(s)
    &&& data.len() == instruction_len(s)
    &&& input@.subrange(data.start() as int, data.end()) == instruction_bytes(s)
}

/// Runs a program that may be handed the same account more than once.
///
/// Reads the buffer, hands the program its id, the handles and the
/// instruction data, and returns the status for the host.
pub fn entrypoint_nostd<const MAX_ACCOUNTS: usize, F>(
    input: &mut Input,
    accounts: &mut [NoStdAccountInfo; MAX_ACCOUNTS],
    process_instruction: F,
) -> (status: u64) where
    F: FnOnce(&mut Input, &Pubkey, &[NoStdAccountInfo], Span) -> Result<(), u64>,

    requires
        well_formed(old(input)@),
        old(input).accounts() == Map::<int, int>::empty(),
        forall|i: &mut Input, id: &Pubkey, handles: &[NoStdAccountInfo], data: Span|
            handed_over(old(input)@, MAX_ACCOUNTS as nat, old(accounts)@, *i, handles@, data)
                && key_bytes(*id) == program_id_bytes(old(input)@)
                ==> process_instruction.requires((i, id, handles, data)),
    ensures
        exists|
            i: &mut Input,
            id: &Pubkey,
            handles: &[NoStdAccountInfo],
            data: Span,
            result: Result<(), u64>,
        |
            #![trigger process_instruction.ensures((i, id, handles, data), result)]
            {
                &&& handed_over(old(input)@, MAX_ACCOUNTS as nat, old(accounts)@, *i, handles@, data)
                &&& key_bytes(*id) == program_id_bytes(old(input)@)
                &&& process_instruction.ensures((i, id, handles, data), result)
                &&& *final(input) == *final(i)
                &&& status == status_of(result)
            },
{
    let (program_id, num_accounts, instruction_data) = deserialize_nostd::<MAX_ACCOUNTS>(
        input,
        accounts,
    );
    let account_infos = slice_subrange(accounts.as_slice(), 0, num_accounts);

    match process_instruction(input, &program_id, account_infos, instruction_data) {
        Ok(()) => SUCCESS,
        Err(error) => error,
    }
}

/// Runs a program that takes no account twice.
///
/// As `entrypoint_nostd`, but where one of the accounts that would get a
/// handle is a duplicate, the program is not run and the status is
/// `DUPLICATE_ACCOUNT`.
pub fn entrypoint_nostd_no_duplicates<const MAX_ACCOUNTS: usize, F>(
    input: &mut Input,
    accounts: &mut [NoStdAccountInfo; MAX_ACCOUNTS],
    process_instruction: F,
) -> (status: u64) where
    F: FnOnce(&mut Input, &Pubkey, &[NoStdAccountInfo], Span) -> Result<(), u64>,

    requires
        well_formed(old(input)@),
        old(input).accounts() == Map::<int, int>::empty(),
        forall|i: &mut Input, id: &Pubkey, handles: &[NoStdAccountInfo], data: Span|
            handed_over(old(input)@, MAX_ACCOUNTS as nat, old(accounts)@, *i, handles@, data)
                && key_bytes(*id) == program_id_bytes(old(input)@)
                ==> process_instruction.requires((i, id, handles, data)),
    ensures
        has_duplicate(old(input)@, handle_count(old(input)@, MAX_ACCOUNTS as nat)) ==> {
            &&& status == DUPLICATE_ACCOUNT
            &&& materialized(
                old(input)@,
                leading_accounts(old(input)@, handle_count(old(input)@, MAX_ACCOUNTS as nat)),
                *final(input),
                old(accounts)@,
                final(accounts)@,
            )
        },
        !has_duplicate(old(input)@, handle_count(old(input)@, MAX_ACCOUNTS as nat)) ==> exists|
            i: &mut Input,
            id: &Pubkey,
            handles: &[NoStdAccountInfo],
            data: Span,
            result: Result<(), u64>,
        |
            #![trigger process_instruction.ensures((i, id, handles, data), result)]
            {
                &&& handed_over(old(input)@, MAX_ACCOUNTS as nat, old(accounts)@, *i, handles@, data)
                &&& key_bytes(*id) == program_id_bytes(old(input)@)
                &&& process_instruction.ensures((i, id, handles, data), result)
                &&& *final(input) == *final(i)
                &&& status == status_of(result)
            },
{
    let Some((program_id, num_accounts, instruction_data)) = deserialize_nostd_no_dup::<
        MAX_ACCOUNTS,
    >(input, accounts) else {
        return DUPLICATE_ACCOUNT;
    };
    proof {
        lemma_leading_accounts(old(input)@, handle_count(old(input)@, MAX_ACCOUNTS as nat));
    }
    let account_infos = slice_subrange(accounts.as_slice(), 0, num_accounts);

    match process_instruction(input, &program_id, account_infos, instruction_data) {
        Ok(()) => SUCCESS,
        Err(error) => error,
    }
}

/// Runs a program that may be handed the same account more than once and
/// does not ask for its own id.
pub fn entrypoint_nostd_no_program<const MAX_ACCOUNTS: usize, F>(
    input: &mut Input,
    accounts: &mut [NoStdAccountInfo; MAX_ACCOUNTS],
    process_instruction: F,
) -> (status: u64) where F: FnOnce(&mut Input, &[NoStdAccountInfo], Span) -> Result<(), u64>
    requires
        well_formed(old(input)@),
        old(input).accounts() == Map::<int, int>::empty(),
        forall|i: &mut Input, handles: &[NoStdAccountInfo], data: Span|
            handed_over(old(input)@, MAX_ACCOUNTS as nat, old(accounts)@, *i, handles@, data)
                ==> process_instruction.requires((i, handles, data)),
    ensures
        exists|i: &mut Input, handles: &[NoStdAccountInfo], data: Span, result: Result<(), u64>|
            #![trigger process_instruction.ensures((i, handles, data), result)]
            {
                &&& handed_over(old(input)@, MAX_ACCOUNTS as nat, old(accounts)@, *i, handles@, data)
                &&& process_instruction.ensures((i, handles, data), result)
                &&& *final(input) == *final(i)
                &&& status == status_of(result)
            },
{
    let (num_accounts, instruction_data) = deserialize_nostd_no_program::<MAX_ACCOUNTS>(
        input,
        accounts,
    );
    let account_infos = slice_subrange(accounts.as_slice(), 0, num_accounts);

    match process_instruction(input, account_infos, instruction_data) {
        Ok(()) => SUCCESS,
        Err(error) => error,
    }
}

/// Runs a program that takes no account twice and does not ask for its own
/// id.
pub fn entrypoint_nostd_no_duplicates_no_program<const MAX_ACCOUNTS: usize, F>(
    input: &mut Input,
    accounts: &mut [NoStdAccountInfo; MAX_ACCOUNTS],
    process_instruction: F,
) -> (status: u64) where F: FnOnce(&mut Input, &[NoStdAccountInfo], Span) -> Result<(), u64>
    requires
        well_formed(old(input)@),
        old(input).accounts() == Map::<int, int>::empty(),
        forall|i: &mut Input, handles: &[NoStdAccountInfo], data: Span|
            handed_over(old(input)@, MAX_ACCOUNTS as nat, old(accounts)@, *i, handles@, data)
                ==> process_instruction.requires((i, handles, data)),
    ensures
        has_duplicate(old(input)@, handle_count(old(input)@, MAX_ACCOUNTS as nat)) ==> {
            &&& status == DUPLICATE_ACCOUNT
            &&& materialized(
                old(input)@,
                leading_accounts(old(input)@, handle_count(old(input)@, MAX_ACCOUNTS as nat)),
                *final(input),
                old(accounts)@,
                final(accounts)@,
            )
        },
        !has_duplicate(old(input)@, handle_count(old(input)@, MAX_ACCOUNTS as nat)) ==> exists|
            i: &mut Input,
            handles: &[NoStdAccountInfo],
            data: Span,
            result: Result<(), u64>,
        |
            #![trigger process_instruction.ensures((i, handles, data), result)]
            {
                &&& handed_over(old(input)@, MAX_ACCOUNTS as nat, old(accounts)@, *i, handles@, data)
                &&& process_instruction.ensures((i, handles, data), result)
                &&& *final(input) == *final(i)
                &&& status == status_of(result)
            },
{
    let Some((num_accounts, instruction_data)) = deserialize_nostd_no_dup_no_program::<
        MAX_ACCOUNTS,
    >(input, accounts) else {
        return DUPLICATE_ACCOUNT;
    };
    proof {
        lemma_leading_accounts(old(input)@, handle_count(old(input)@, MAX_ACCOUNTS as nat));
    }
    let account_infos = slice_subrange(accounts.as_slice(), 0, num_accounts);

    match process_instruction(input, account_infos, instruction_data) {
        Ok(()) => SUCCESS,
        Err(error) => error,
    }
}

} // verus!
