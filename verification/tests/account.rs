use solana_nostd_entrypoint::account::{realloc_counter, NoStdAccountInfo};
use solana_nostd_entrypoint::borrow::{
    release_mut, release_shared, try_borrow_mut, try_share, AccountError,
};
use solana_nostd_entrypoint::cpi::{
    invoke_signed, AccountInfoC, AccountMetaC, Dispatcher, InstructionC, NoopDispatcher,
};
use solana_nostd_entrypoint::deserialize::deserialize_nostd;
use solana_nostd_entrypoint::guard::{Ref, RefMut};
use solana_nostd_entrypoint::input::Input;
use solana_pubkey::Pubkey;
use std::cell::RefCell;

const LIMIT: usize = 10240;

fn account_entry(buffer: &mut Vec<u8>, seed: u8, flags: [u8; 3], data: &[u8]) -> usize {
    let header = buffer.len();
    buffer.push(0xff);
    buffer.extend_from_slice(&flags);
    buffer.extend_from_slice(&0i32.to_le_bytes());
    buffer.extend_from_slice(&[seed; 32]);
    buffer.extend_from_slice(&[seed + 1; 32]);
    buffer.extend_from_slice(&(seed as u64 * 1000).to_le_bytes());
    buffer.extend_from_slice(&(data.len() as u64).to_le_bytes());
    buffer.extend_from_slice(data);
    buffer.resize(buffer.len() + LIMIT, 0);
    while buffer.len() % 8 != 0 {
        buffer.push(0);
    }
    buffer.extend_from_slice(&0u64.to_le_bytes());
    header
}

/// Two accounts, then a duplicate of the first.
fn parsed() -> (Input, [NoStdAccountInfo; 3]) {
    let mut buffer = 3u64.to_le_bytes().to_vec();
    account_entry(&mut buffer, 10, [1, 1, 0], &[1, 2, 3, 4, 5]);
    account_entry(&mut buffer, 20, [0, 0, 1], &[]);
    buffer.push(0);
    buffer.extend_from_slice(&[0u8; 7]);
    buffer.extend_from_slice(&2u64.to_le_bytes());
    buffer.extend_from_slice(&[0xab, 0xcd]);
    buffer.extend_from_slice(&[99; 32]);
    let mut input = Input::new(buffer);
    let mut handles = [NoStdAccountInfo::vacant(); 3];
    let (_, processed, _) = deserialize_nostd::<3>(&mut input, &mut handles);
    assert_eq!(processed, 3);
    (input, handles)
}

fn counter(input: &Input, info: &NoStdAccountInfo) -> i32 {
    let at = info.header() + 4;
    i32::from_le_bytes(input.as_bytes()[at..at + 4].try_into().unwrap())
}

fn state(input: &Input, info: &NoStdAccountInfo) -> u8 {
    input.as_bytes()[info.header()]
}

#[test]
fn borrow_state_transitions() {
    assert_eq!(try_share(0, true), Some(0b0001_0000));
    assert_eq!(try_share(0, false), Some(0b0000_0001));
    assert_eq!(try_share(0b0110_0110, true), Some(0b0111_0110));
    assert_eq!(try_share(0b0110_0110, false), Some(0b0110_0111));
    assert_eq!(try_share(0b0111_0000, true), None);
    assert_eq!(try_share(0b0000_0111, false), None);
    assert_eq!(try_share(0b1000_0000, true), None);
    assert_eq!(try_share(0b0000_1000, false), None);
    assert_eq!(try_share(0b1000_0111, false), None);
    assert_eq!(try_share(0b1000_0110, false), Some(0b1000_0111));
    assert_eq!(try_share(0b0111_1000, true), None);
    assert_eq!(try_share(0b0110_1000, true), Some(0b0111_1000));

    assert_eq!(try_borrow_mut(0, true), Some(0b1000_0000));
    assert_eq!(try_borrow_mut(0, false), Some(0b0000_1000));
    assert_eq!(try_borrow_mut(0b0000_1111, true), Some(0b1000_1111));
    assert_eq!(try_borrow_mut(0b1111_0000, false), Some(0b1111_1000));
    assert_eq!(try_borrow_mut(0b0001_0000, true), None);
    assert_eq!(try_borrow_mut(0b1000_0000, true), None);
    assert_eq!(try_borrow_mut(0b0000_0001, false), None);
    assert_eq!(try_borrow_mut(0b0000_1000, false), None);

    assert_eq!(release_shared(0b0001_0000, true), 0);
    assert_eq!(release_shared(0b0111_0101, true), 0b0110_0101);
    assert_eq!(release_shared(0b0111_0101, false), 0b0111_0100);
    assert_eq!(release_mut(0b1000_1000, true), 0b0000_1000);
    assert_eq!(release_mut(0b1000_1000, false), 0b1000_0000);
    assert_eq!(release_mut(0b0101_0011, true), 0b0101_0011);
    assert_eq!(release_mut(0b0101_0011, false), 0b0101_0011);
}

#[test]
fn seven_shared_borrows_and_no_more() {
    for is_lamport in [true, false] {
        let (mut input, handles) = parsed();
        let borrow = |input: &mut Input, k: usize| {
            if is_lamport {
                handles[k].try_borrow_lamports(input)
            } else {
                handles[k].try_borrow_data(input)
            }
        };
        let unit = if is_lamport { 16 } else { 1 };
        let mut guards = Vec::new();
        for n in 0..7u8 {
            assert_eq!(state(&input, &handles[0]), n * unit);
            // Through the account and through its duplicate in turn.
            guards.push(borrow(&mut input, if n % 2 == 0 { 0 } else { 2 }).unwrap());
        }
        assert_eq!(state(&input, &handles[0]), 7 * unit);
        assert_eq!(borrow(&mut input, 0).unwrap_err(), AccountError::AccountBorrowFailed);
        assert_eq!(borrow(&mut input, 2).unwrap_err(), AccountError::AccountBorrowFailed);
        assert_eq!(state(&input, &handles[0]), 7 * unit);

        // Once any one has ended, a borrow is granted again.
        input.release(guards.remove(3));
        assert_eq!(state(&input, &handles[0]), 6 * unit);
        guards.push(borrow(&mut input, 2).unwrap());
        assert_eq!(borrow(&mut input, 0).unwrap_err(), AccountError::AccountBorrowFailed);

        // Ending them in another order than they were granted in brings the
        // state back.
        for k in [5, 0, 4, 1, 2, 1, 0] {
            input.release(guards.remove(k));
        }
        assert!(guards.is_empty());
        assert_eq!(state(&input, &handles[0]), 0);
        // The other account was never touched.
        assert_eq!(state(&input, &handles[1]), 0);
    }
}

#[test]
fn shared_and_mutable_borrows_exclude_each_other() {
    let (mut input, handles) = parsed();
    let info = handles[0];

    let shared = info.try_borrow_data(&mut input).unwrap();
    assert_eq!(info.try_borrow_mut_data(&mut input).unwrap_err(), AccountError::AccountBorrowFailed);
    // The balance is guarded apart from the data.
    let balance = info.try_borrow_mut_lamports(&mut input).unwrap();
    assert_eq!(state(&input, &info), 0b1000_0001);
    assert_eq!(info.try_borrow_lamports(&mut input).unwrap_err(), AccountError::AccountBorrowFailed);
    assert_eq!(
        info.try_borrow_mut_lamports(&mut input).unwrap_err(),
        AccountError::AccountBorrowFailed
    );
    input.release(shared);
    assert_eq!(state(&input, &info), 0b1000_0000);

    let data = info.try_borrow_mut_data(&mut input).unwrap();
    assert_eq!(state(&input, &info), 0b1000_1000);
    assert_eq!(info.try_borrow_data(&mut input).unwrap_err(), AccountError::AccountBorrowFailed);
    assert_eq!(info.try_borrow_mut_data(&mut input).unwrap_err(), AccountError::AccountBorrowFailed);
    input.release_mut(balance);
    assert_eq!(state(&input, &info), 0b0000_1000);
    input.release_mut(data);
    assert_eq!(state(&input, &info), 0);

    // Another account has a borrow state of its own.
    let first = handles[0].try_borrow_mut_lamports(&mut input).unwrap();
    let second = handles[1].try_borrow_mut_lamports(&mut input).unwrap();
    input.release_mut(first);
    input.release_mut(second);
}

#[test]
fn guarded_reads_and_writes() {
    let (mut input, handles) = parsed();
    let info = handles[0];

    let guard = info.try_borrow_lamports(&mut input).unwrap();
    assert_eq!(guard.state(), info.header());
    assert!(guard.is_lamport());
    assert_eq!(guard.get().start(), info.header() + 72);
    assert_eq!(guard.get().len(), 8);
    assert_eq!(input.read_u64(*guard.get()), 10_000);
    input.release(guard);

    let guard = info.try_borrow_mut_lamports(&mut input).unwrap();
    input.write_u64(guard.get(), 10_000 - 17);
    assert_eq!(input.read_u64(guard.get().as_span()), 9_983);
    input.release_mut(guard);
    assert_eq!(input.read_u64(info.unchecked_borrow_lamports(&input)), 9_983);
    assert_eq!(&input.as_bytes()[info.header() + 72..info.header() + 80], &9_983u64.to_le_bytes());

    let guard = info.try_borrow_data(&mut input).unwrap();
    assert!(!guard.is_lamport());
    assert_eq!(guard.get().start(), info.header() + 88);
    assert_eq!(guard.get().len(), 5);
    assert_eq!(input.bytes(*guard.get()), &[1, 2, 3, 4, 5]);

    // A guard over a part of the data keeps the borrow counted.
    let part = Ref::map(guard, |place| place.narrow(1, 3));
    assert_eq!(state(&input, &info), 1);
    assert_eq!(input.bytes(*part.get()), &[2, 3]);
    let part = Ref::filter_map(part, |place| {
        if place.len() > 2 {
            Some(place.narrow(0, 2))
        } else {
            None
        }
    })
    .unwrap_err();
    assert_eq!(state(&input, &info), 1);
    assert_eq!(input.bytes(*part.get()), &[2, 3]);
    input.release(part);
    assert_eq!(state(&input, &info), 0);

    let guard = info.try_borrow_mut_data(&mut input).unwrap();
    input.write(guard.get(), 0, 0xee);
    input.copy_from_slice(&guard.get().narrow(3, 5), &[0x11, 0x22]);
    let tail = RefMut::map(guard, |place| place.narrow(4, 5));
    assert_eq!(state(&input, &info), 0b1000);
    input.write(tail.get(), 0, 0x33);
    input.release_mut(tail);
    assert_eq!(state(&input, &info), 0);
    assert_eq!(input.bytes(info.unchecked_borrow_data(&input)), &[0xee, 2, 3, 0x11, 0x33]);

    let place = info.unchecked_borrow_mut_data(&input);
    input.write(&place, 1, 0x44);
    let balance = info.unchecked_borrow_mut_lamports(&input);
    input.write_u64(&balance, u64::MAX);
    assert_eq!(state(&input, &info), 0);
    assert_eq!(input.bytes(place.as_span()), &[0xee, 0x44, 3, 0x11, 0x33]);
    assert_eq!(input.read_u64(balance.as_span()), u64::MAX);
    // The neighbours of the balance are as they were.
    assert_eq!(info.owner(&input), Pubkey::new_from_array([11; 32]));
    assert_eq!(info.data_len(&input), 5);
}

#[test]
fn growth_counter() {
    // One byte past what may be added is turned down.
    assert_eq!(realloc_counter(0, 7, 7 + 1025, 1024), Err(AccountError::InvalidRealloc));
    assert_eq!(realloc_counter(0, 7, 7 + 1024, 1024), Ok(1024));
    assert_eq!(realloc_counter(0, 0, LIMIT, LIMIT), Ok(10240));
    assert_eq!(realloc_counter(0, 0, LIMIT + 1, LIMIT), Err(AccountError::InvalidRealloc));
    assert_eq!(realloc_counter(1000, 50, 74, 1024), Ok(1024));
    assert_eq!(realloc_counter(1000, 50, 75, 1024), Err(AccountError::InvalidRealloc));
    // What was taken off may be added again.
    assert_eq!(realloc_counter(0, 100, 40, 1024), Ok(-60));
    assert_eq!(realloc_counter(-60, 40, 1124, 1024), Ok(1024));
    assert_eq!(realloc_counter(-60, 40, 1125, 1024), Err(AccountError::InvalidRealloc));
    assert_eq!(realloc_counter(5, 9, 9, 1024), Ok(5));
    // A growth that the counter cannot hold.
    assert_eq!(
        realloc_counter(i32::MIN, 0, i32::MAX as usize + 1, 1024),
        Err(AccountError::InvalidRealloc)
    );
    assert_eq!(realloc_counter(i32::MIN, 0, i32::MAX as usize, 1024), Ok(-1));
    assert_eq!(
        realloc_counter(1, 0, i32::MAX as usize, usize::MAX),
        Err(AccountError::InvalidRealloc)
    );
    assert_eq!(realloc_counter(0, 0, i32::MAX as usize, usize::MAX), Ok(i32::MAX));
}

#[test]
fn realloc_past_the_limit_is_refused() {
    let (mut input, handles) = parsed();
    let info = handles[0];
    let before = input.as_bytes().to_vec();

    let old_len = info.data_len(&input);
    assert_eq!(counter(&input, &info), 0);
    assert_eq!(info.realloc(&mut input, old_len + LIMIT + 1, true), Err(AccountError::InvalidRealloc));
    assert_eq!(info.data_len(&input), old_len);
    assert_eq!(counter(&input, &info), 0);
    assert_eq!(input.as_bytes(), &before[..]);

    assert_eq!(info.realloc(&mut input, usize::MAX, false), Err(AccountError::InvalidRealloc));
    assert_eq!(input.as_bytes(), &before[..]);

    // Up to the limit it is granted.
    assert_eq!(info.realloc(&mut input, old_len + LIMIT, true), Ok(()));
    assert_eq!(info.data_len(&input), old_len + LIMIT);
    assert_eq!(counter(&input, &info), LIMIT as i32);
    assert_eq!(info.realloc(&mut input, old_len + LIMIT + 1, false), Err(AccountError::InvalidRealloc));
    assert_eq!(info.data_len(&input), old_len + LIMIT);
    // The next account has not been written over.
    assert_eq!(handles[1].key(&input), Pubkey::new_from_array([20; 32]));
    assert_eq!(state(&input, &handles[1]), 0);
}

#[test]
fn realloc_to_the_same_length_changes_nothing() {
    let (mut input, handles) = parsed();
    let info = handles[0];
    let before = input.as_bytes().to_vec();
    assert_eq!(info.realloc(&mut input, 5, true), Ok(()));
    assert_eq!(input.as_bytes(), &before[..]);
    assert_eq!(info.realloc(&mut input, 5, false), Ok(()));
    assert_eq!(input.as_bytes(), &before[..]);
    assert_eq!(handles[1].realloc(&mut input, 0, true), Ok(()));
    assert_eq!(input.as_bytes(), &before[..]);
}

#[test]
fn realloc_grows_and_shrinks() {
    let (mut input, handles) = parsed();
    let info = handles[0];
    let before = input.as_bytes().to_vec();

    assert_eq!(info.realloc(&mut input, 12, false), Ok(()));
    assert_eq!(info.data_len(&input), 12);
    assert_eq!(counter(&input, &info), 7);
    assert_eq!(state(&input, &info), 0);
    assert_eq!(
        input.bytes(info.unchecked_borrow_data(&input)),
        &[1, 2, 3, 4, 5, 0, 0, 0, 0, 0, 0, 0]
    );

    // Fill what was gained, shrink, and grow again.
    let place = info.unchecked_borrow_mut_data(&input);
    input.copy_from_slice(&place.narrow(5, 12), &[9; 7]);
    assert_eq!(info.realloc(&mut input, 2, true), Ok(()));
    assert_eq!(info.data_len(&input), 2);
    assert_eq!(counter(&input, &info), -3);
    assert_eq!(input.bytes(info.unchecked_borrow_data(&input)), &[1, 2]);

    // Without zeroing, what lay there shows again.
    assert_eq!(info.realloc(&mut input, 8, false), Ok(()));
    assert_eq!(counter(&input, &info), 3);
    assert_eq!(input.bytes(info.unchecked_borrow_data(&input)), &[1, 2, 3, 4, 5, 9, 9, 9]);

    // With zeroing, exactly the bytes gained are zero.
    assert_eq!(info.realloc(&mut input, 4, false), Ok(()));
    assert_eq!(info.realloc(&mut input, 10, true), Ok(()));
    assert_eq!(counter(&input, &info), 5);
    assert_eq!(input.bytes(info.unchecked_borrow_data(&input)), &[1, 2, 3, 4, 0, 0, 0, 0, 0, 0]);
    let start = info.header() + 88;
    assert_eq!(&input.as_bytes()[start + 10..start + 12], &[9, 9]);

    // Growing by some bytes and shrinking by as many brings the counter
    // back.
    let counter_before = counter(&input, &info);
    assert_eq!(info.realloc(&mut input, 10 + 321, true), Ok(()));
    assert_eq!(counter(&input, &info), counter_before + 321);
    assert_eq!(info.realloc(&mut input, 10, true), Ok(()));
    assert_eq!(counter(&input, &info), counter_before);
    assert_eq!(info.data_len(&input), 10);

    // Back at the first length the counter is zero again, and beyond the
    // account nothing has changed.
    assert_eq!(info.realloc(&mut input, 5, false), Ok(()));
    assert_eq!(counter(&input, &info), 0);
    let end = start + 5 + LIMIT;
    assert_eq!(&input.as_bytes()[end..], &before[end..]);
    assert_eq!(&input.as_bytes()[..info.header()], &before[..info.header()]);
}

#[test]
fn realloc_needs_the_data_unborrowed() {
    let (mut input, handles) = parsed();
    let info = handles[0];

    let guard = info.try_borrow_data(&mut input).unwrap();
    let before = input.as_bytes().to_vec();
    assert_eq!(handles[2].realloc(&mut input, 6, false), Err(AccountError::AccountBorrowFailed));
    // Even for the length that the data has.
    assert_eq!(info.realloc(&mut input, 5, false), Err(AccountError::AccountBorrowFailed));
    assert_eq!(input.as_bytes(), &before[..]);
    input.release(guard);

    let guard = info.try_borrow_mut_data(&mut input).unwrap();
    assert_eq!(info.realloc(&mut input, 6, false), Err(AccountError::AccountBorrowFailed));
    input.release_mut(guard);

    // A borrow of the balance is no hindrance, and it stays counted.
    let guard = info.try_borrow_mut_lamports(&mut input).unwrap();
    assert_eq!(info.realloc(&mut input, 6, false), Ok(()));
    assert_eq!(state(&input, &info), 0b1000_0000);
    input.release_mut(guard);
    assert_eq!(info.data_len(&input), 6);
}

#[test]
fn header_as_the_buffer_holds_it() {
    let (mut input, handles) = parsed();
    let inner = handles[0].inner(&input);
    assert_eq!(inner.borrow_state, 0);
    assert_eq!(inner.is_signer, 1);
    assert_eq!(inner.is_writable, 1);
    assert_eq!(inner.executable, 0);
    assert_eq!(inner.realloc_byte_counter, 0);
    assert_eq!(inner.key, Pubkey::new_from_array([10; 32]));
    assert_eq!(inner.owner, Pubkey::new_from_array([11; 32]));
    assert_eq!(inner.lamports, 10_000);
    assert_eq!(inner.data_len, 5);

    let guard = handles[2].try_borrow_mut_data(&mut input).unwrap();
    let shared = handles[0].try_borrow_lamports(&mut input).unwrap();
    assert_eq!(handles[0].inner(&input).borrow_state, 0b0001_1000);
    input.release_mut(guard);
    input.release(shared);
    assert_eq!(handles[0].realloc(&mut input, 2, false), Ok(()));
    let inner = handles[2].inner(&input);
    assert_eq!(inner.borrow_state, 0);
    assert_eq!(inner.realloc_byte_counter, -3);
    assert_eq!(inner.data_len, 2);

    let second = handles[1].inner(&input);
    assert_eq!((second.is_signer, second.is_writable, second.executable), (0, 0, 1));
    assert_eq!(second.key, Pubkey::new_from_array([20; 32]));
    assert_eq!(second.lamports, 20_000);
    assert_eq!(second.data_len, 0);
}

#[test]
fn reassign_sets_the_owner() {
    let (mut input, handles) = parsed();
    let info = handles[0];
    let before = input.as_bytes().to_vec();
    assert_eq!(info.owner(&input), Pubkey::new_from_array([11; 32]));

    let mut owner = [0u8; 32];
    for (k, byte) in owner.iter_mut().enumerate() {
        *byte = k as u8 + 1;
    }
    // The owner is not guarded: a borrow does not stand in the way.
    let guard = info.try_borrow_mut_data(&mut input).unwrap();
    info.reassign(&mut input, &Pubkey::new_from_array(owner));
    input.release_mut(guard);

    assert_eq!(info.owner(&input), Pubkey::new_from_array(owner));
    assert_eq!(handles[2].owner(&input), Pubkey::new_from_array(owner));
    assert_eq!(info.key(&input), Pubkey::new_from_array([10; 32]));
    let at = info.header() + 40;
    assert_eq!(&input.as_bytes()[at..at + 32], &owner);
    assert_eq!(&input.as_bytes()[..at], &before[..at]);
    assert_eq!(&input.as_bytes()[at + 32..], &before[at + 32..]);
}

#[test]
fn descriptors() {
    let (input, handles) = parsed();
    let first = handles[0];
    let second = handles[1];

    let info = first.to_info_c(&input);
    assert_eq!(
        info,
        AccountInfoC {
            key: first.header() + 8,
            lamports: first.header() + 72,
            data_len: 5,
            data: first.header() + 88,
            owner: first.header() + 40,
            rent_epoch: 0,
            is_signer: true,
            is_writable: true,
            executable: false,
        }
    );
    assert_eq!(
        second.to_info_c(&input),
        AccountInfoC {
            key: second.header() + 8,
            lamports: second.header() + 72,
            data_len: 0,
            data: second.header() + 88,
            owner: second.header() + 40,
            rent_epoch: 0,
            is_signer: false,
            is_writable: false,
            executable: true,
        }
    );
    assert_eq!(handles[2].to_info_c(&input), info);

    let meta = AccountMetaC { pubkey: first.header() + 8, is_writable: true, is_signer: true };
    assert_eq!(first.to_meta_c(&input), meta);
    assert_eq!(first.to_meta_c_signer(&input), meta);
    assert_eq!(info.to_meta_c(), meta);
    assert_eq!(info.to_meta_c_signer(), meta);
    assert_eq!(
        second.to_meta_c(&input),
        AccountMetaC { pubkey: second.header() + 8, is_writable: false, is_signer: false }
    );
    assert_eq!(
        second.to_meta_c_signer(&input),
        AccountMetaC { pubkey: second.header() + 8, is_writable: false, is_signer: true }
    );
    assert_eq!(second.to_info_c(&input).to_meta_c(), second.to_meta_c(&input));
    assert_eq!(second.to_info_c(&input).to_meta_c_signer(), second.to_meta_c_signer(&input));

    assert_eq!(
        AccountMetaC::readonly(3),
        AccountMetaC { pubkey: 3, is_writable: false, is_signer: false }
    );
    assert_eq!(
        AccountMetaC::writable(3),
        AccountMetaC { pubkey: 3, is_writable: true, is_signer: false }
    );
    assert_eq!(
        AccountMetaC::readonly_signer(3),
        AccountMetaC { pubkey: 3, is_writable: false, is_signer: true }
    );
    assert_eq!(
        AccountMetaC::writable_signer(3),
        AccountMetaC { pubkey: 3, is_writable: true, is_signer: true }
    );
}

struct Recorder {
    calls: RefCell<Vec<(Pubkey, Vec<AccountMetaC>, Vec<u8>, Vec<AccountInfoC>, Vec<Vec<Vec<u8>>>)>>,
}

impl Dispatcher for Recorder {
    fn dispatch(&self, instruction: &InstructionC, infos: &[AccountInfoC], seeds: &[&[&[u8]]]) {
        self.calls.borrow_mut().push((
            *instruction.program_id,
            instruction.accounts.to_vec(),
            instruction.data.to_vec(),
            infos.to_vec(),
            seeds.iter().map(|s| s.iter().map(|p| p.to_vec()).collect()).collect(),
        ));
    }
}

#[test]
fn a_call_is_handed_to_the_dispatcher() {
    let (input, handles) = parsed();
    let program_id = Pubkey::new_from_array([0; 32]);
    let metas = [handles[0].to_meta_c_signer(&input), handles[1].to_meta_c(&input)];
    let infos = [handles[0].to_info_c(&input), handles[1].to_info_c(&input)];
    let mut data = [0u8; 12];
    data[0] = 2;
    data[4..12].copy_from_slice(&100_000_000_u64.to_le_bytes());
    let instruction = InstructionC { program_id: &program_id, accounts: &metas, data: &data };
    let seeds: &[&[&[u8]]] = &[&[b"vault", &[254]]];

    assert_eq!(invoke_signed(&NoopDispatcher, &instruction, &infos, &[]), Ok(()));
    assert_eq!(invoke_signed(&NoopDispatcher, &instruction, &infos, seeds), Ok(()));

    let recorder = Recorder { calls: RefCell::new(Vec::new()) };
    assert_eq!(invoke_signed(&recorder, &instruction, &infos, seeds), Ok(()));
    let calls = recorder.calls.into_inner();
    assert_eq!(calls.len(), 1);
    assert_eq!(calls[0].0, program_id);
    assert_eq!(calls[0].1, metas.to_vec());
    assert_eq!(calls[0].2, data.to_vec());
    assert_eq!(calls[0].3, infos.to_vec());
    assert_eq!(calls[0].4, vec![vec![b"vault".to_vec(), vec![254]]]);
}
