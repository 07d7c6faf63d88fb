use solana_nostd_entrypoint::guard::{Ref, RefMut};

#[test]
fn test_ref() {
    let lamports_data: [u8; 8] = 0u64.to_le_bytes();
    let mut borrow_state: [u8; 1] = [1 << 4];
    let byte_ref: Ref<[u8; 8]> = Ref::new(lamports_data, 0, true);

    let lamports_ref: Ref<u64> = Ref::map(byte_ref, |b| u64::from_le_bytes(*b));
    assert_eq!(borrow_state[0], 1 << 4);
    assert_eq!(*lamports_ref.get(), 0_u64);

    let odd_lamports_ref = Ref::filter_map(lamports_ref, |b| {
        if *b % 2 == 1 {
            Some(*b)
        } else {
            None
        }
    });
    assert_eq!(borrow_state[0], 1 << 4);
    assert!(odd_lamports_ref.is_err());
    let lamports_ref = odd_lamports_ref.unwrap_err();
    assert_eq!(*lamports_ref.get(), 0_u64);

    let even_lamports_ref = Ref::filter_map(lamports_ref, |b| {
        if *b % 2 == 0 {
            Some(*b)
        } else {
            None
        }
    });
    assert_eq!(borrow_state[0], 1 << 4);
    let even_lamports_ref = even_lamports_ref.unwrap();
    assert_eq!(*even_lamports_ref.get(), 0_u64);

    // The one borrow that the state counted ends with the last guard.
    assert_eq!(even_lamports_ref.state(), 0);
    assert!(even_lamports_ref.is_lamport());
    even_lamports_ref.release(&mut borrow_state);
    assert_eq!(borrow_state[0], 0);
}

#[test]
fn test_ref_mut() {
    let lamports_data: [u8; 8] = 0u64.to_le_bytes();
    let mut borrow_state: [u8; 1] = [1 << 4];
    let byte_ref: RefMut<[u8; 8]> = RefMut::new(lamports_data, 0, true);

    let lamports_ref: RefMut<u64> = RefMut::map(byte_ref, |b| u64::from_le_bytes(*b));
    assert_eq!(borrow_state[0], 1 << 4);
    assert_eq!(*lamports_ref.get(), 0_u64);

    let odd_lamports_ref = RefMut::filter_map(lamports_ref, |b| {
        if *b % 2 == 1 {
            Some(*b)
        } else {
            None
        }
    });
    assert_eq!(borrow_state[0], 1 << 4);
    assert!(odd_lamports_ref.is_err());

    let mut lamports_ref = odd_lamports_ref.unwrap_err();
    assert_eq!(*lamports_ref.get(), 0_u64);
    *lamports_ref.get_mut() += 2;
    assert_eq!(*lamports_ref.get(), 2_u64);

    let even_lamports_ref = RefMut::filter_map(lamports_ref, |b| {
        if *b % 2 == 0 {
            Some(*b)
        } else {
            None
        }
    });
    assert_eq!(borrow_state[0], 1 << 4);
    assert_eq!(*even_lamports_ref.unwrap().get(), 2_u64);
}
