use solana_nostd_entrypoint::account::NoStdAccountInfo;
use solana_nostd_entrypoint::borrow::AccountError;
use solana_nostd_entrypoint::cpi::NoopDispatcher;
use solana_nostd_entrypoint::entrypoint::{
    entrypoint_nostd, entrypoint_nostd_no_duplicates, entrypoint_nostd_no_duplicates_no_program,
    entrypoint_nostd_no_program, DUPLICATE_ACCOUNT, SUCCESS,
};
use solana_nostd_entrypoint::input::{Input, Span};
use solana_nostd_entrypoint::system::Transfer;
use solana_pubkey::Pubkey;

fn one_account(buffer: &mut Vec<u8>, seed: u8, lamports: u64) {
    buffer.push(0xff);
    buffer.extend_from_slice(&[1, 1, 0]);
    buffer.extend_from_slice(&0i32.to_le_bytes());
    buffer.extend_from_slice(&[seed; 32]);
    buffer.extend_from_slice(&[0; 32]);
    buffer.extend_from_slice(&lamports.to_le_bytes());
    buffer.extend_from_slice(&0u64.to_le_bytes());
    buffer.resize(buffer.len() + 10240, 0);
    buffer.extend_from_slice(&0u64.to_le_bytes());
}

fn with_duplicate(duplicate: bool) -> Input {
    let mut buffer = 3u64.to_le_bytes().to_vec();
    one_account(&mut buffer, 1, 500);
    one_account(&mut buffer, 2, 20);
    if duplicate {
        buffer.push(1);
        buffer.extend_from_slice(&[0; 7]);
    } else {
        one_account(&mut buffer, 3, 0);
    }
    buffer.extend_from_slice(&4u64.to_le_bytes());
    buffer.extend_from_slice(&[9, 8, 7, 6]);
    buffer.extend_from_slice(&[0x42; 32]);
    Input::new(buffer)
}

const NOT_ENOUGH_ACCOUNT_KEYS: u64 = 11 << 32;
const ACCOUNT_BORROW_FAILED: u64 = 12 << 32;

fn code(error: AccountError) -> u64 {
    match error {
        AccountError::AccountBorrowFailed => ACCOUNT_BORROW_FAILED,
        AccountError::InvalidRealloc => 20 << 32,
    }
}

/// Moves the lamports that the instruction names from the first account to
/// the second.
fn pay(input: &mut Input, accounts: &[NoStdAccountInfo], data: Span) -> Result<(), u64> {
    let [from, to, ..] = accounts else {
        return Err(NOT_ENOUGH_ACCOUNT_KEYS);
    };
    let amount = input.bytes(data)[0] as u64;
    let source = from.try_borrow_mut_lamports(input).map_err(code)?;
    let target = match to.try_borrow_mut_lamports(input) {
        Ok(target) => target,
        Err(error) => {
            input.release_mut(source);
            return Err(code(error));
        }
    };
    let left = input.read_u64(source.get().as_span()) - amount;
    let more = input.read_u64(target.get().as_span()) + amount;
    input.write_u64(source.get(), left);
    input.write_u64(target.get(), more);
    input.release_mut(target);
    input.release_mut(source);
    Ok(())
}

#[test]
fn a_program_that_succeeds() {
    let mut input = with_duplicate(true);
    let mut handles = [NoStdAccountInfo::vacant(); 8];
    let mut seen = None;
    let status = entrypoint_nostd(&mut input, &mut handles, |input, program_id, accounts, data| {
        seen = Some((*program_id, accounts.to_vec(), input.bytes(data).to_vec()));
        pay(input, accounts, data)
    });
    assert_eq!(status, SUCCESS);
    assert_eq!(status, 0);
    let (program_id, accounts, data) = seen.unwrap();
    assert_eq!(program_id, Pubkey::new_from_array([0x42; 32]));
    assert_eq!(accounts.len(), 3);
    assert_eq!(accounts[..], handles[..3]);
    assert_eq!(accounts[2], accounts[1]);
    assert_eq!(data, [9, 8, 7, 6]);
    assert_eq!(input.read_u64(handles[0].unchecked_borrow_lamports(&input)), 491);
    assert_eq!(input.read_u64(handles[2].unchecked_borrow_lamports(&input)), 29);
    assert_eq!(input.as_bytes()[handles[0].header()], 0);
    assert_eq!(input.as_bytes()[handles[1].header()], 0);
}

#[test]
fn a_program_that_fails() {
    let mut input = with_duplicate(false);
    let mut handles = [NoStdAccountInfo::vacant(); 1];
    // With room for one handle the program is short of an account.
    let status = entrypoint_nostd(&mut input, &mut handles, |input, _, accounts, data| {
        pay(input, accounts, data)
    });
    assert_eq!(status, NOT_ENOUGH_ACCOUNT_KEYS);

    let mut input = with_duplicate(false);
    let mut handles = [NoStdAccountInfo::vacant(); 3];
    let status = entrypoint_nostd_no_program(&mut input, &mut handles, |_, _, _| Err(1));
    assert_eq!(status, 1);

    // A program that is handed one account as payer and as payee finds the
    // balance borrowed.
    let mut input = with_duplicate(true);
    let mut handles = [NoStdAccountInfo::vacant(); 3];
    let status = entrypoint_nostd_no_program(&mut input, &mut handles, |input, accounts, data| {
        pay(input, &accounts[1..], data)
    });
    assert_eq!(status, ACCOUNT_BORROW_FAILED);
    assert_eq!(input.as_bytes()[handles[1].header()], 0);
    assert_eq!(input.read_u64(handles[1].unchecked_borrow_lamports(&input)), 20);
}

#[test]
fn a_duplicate_where_none_is_taken() {
    let mut input = with_duplicate(true);
    let mut handles = [NoStdAccountInfo::vacant(); 3];
    let mut ran = false;
    let status = entrypoint_nostd_no_duplicates(&mut input, &mut handles, |_, _, _, _| {
        ran = true;
        Ok(())
    });
    assert_eq!(status, DUPLICATE_ACCOUNT);
    assert_eq!(status, u64::MAX);
    assert!(!ran);

    let mut input = with_duplicate(true);
    let status = entrypoint_nostd_no_duplicates_no_program(&mut input, &mut handles, |_, _, _| {
        ran = true;
        Ok(())
    });
    assert_eq!(status, u64::MAX);
    assert!(!ran);

    // The duplicate is the third entry: with room for two handles it is
    // passed over.
    let mut input = with_duplicate(true);
    let mut handles = [NoStdAccountInfo::vacant(); 2];
    let status = entrypoint_nostd_no_duplicates(&mut input, &mut handles, |_, program_id, accounts, _| {
        ran = true;
        assert_eq!(*program_id, Pubkey::new_from_array([0x42; 32]));
        assert_eq!(accounts.len(), 2);
        Err(77)
    });
    assert_eq!(status, 77);
    assert!(ran);
}

#[test]
fn no_duplicates_among_the_accounts() {
    let mut input = with_duplicate(false);
    let mut handles = [NoStdAccountInfo::vacant(); 3];
    let status = entrypoint_nostd_no_duplicates(&mut input, &mut handles, |input, _, accounts, data| {
        pay(input, accounts, data)
    });
    assert_eq!(status, 0);
    assert_eq!(input.read_u64(handles[0].unchecked_borrow_lamports(&input)), 491);
    assert_eq!(input.read_u64(handles[1].unchecked_borrow_lamports(&input)), 29);

    let mut input = with_duplicate(false);
    let mut handles = [NoStdAccountInfo::vacant(); 3];
    let status = entrypoint_nostd_no_duplicates_no_program(&mut input, &mut handles, |input, accounts, data| {
        assert_eq!(accounts.len(), 3);
        pay(input, accounts, data)?;
        // The program goes on to call the system program.
        let transfer = Transfer { from: &accounts[0], to: &accounts[2], lamports: 100_000_000 };
        transfer.invoke_signed(input, &NoopDispatcher, &[]).map_err(code)
    });
    assert_eq!(status, 0);
}
