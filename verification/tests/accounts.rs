use helloworld::{Account, ProgramError, Pubkey};

fn key_of(byte: u8) -> Pubkey {
    Pubkey::new_from_array([byte; 32])
}

#[test]
fn default_pubkey_is_all_zero() {
    assert_eq!(Pubkey::default().to_bytes(), [0u8; 32]);
    assert_eq!(Pubkey::default(), key_of(0));
}

#[test]
fn pubkey_keeps_its_bytes() {
    let mut bytes = [0u8; 32];
    for (i, byte) in bytes.iter_mut().enumerate() {
        *byte = i as u8;
    }
    assert_eq!(Pubkey::new_from_array(bytes).to_bytes(), bytes);
}

#[test]
fn pubkeys_compare_by_every_byte() {
    let a = key_of(5);
    assert!(a.same_as(&key_of(5)));
    assert!(a == key_of(5));
    for i in 0..32 {
        let mut bytes = [5u8; 32];
        bytes[i] = 6;
        let b = Pubkey::new_from_array(bytes);
        assert!(!a.same_as(&b));
        assert!(a != b);
    }
}

#[test]
fn account_knows_its_owner() {
    let account = Account::new(key_of(1), key_of(2), 10, vec![0; 4]);
    assert!(account.is_owned_by(&key_of(2)));
    assert!(!account.is_owned_by(&key_of(1)));
    assert!(!account.is_owned_by(&Pubkey::default()));
}

#[test]
fn read_bytes_gives_the_buffer() {
    let account = Account::new(key_of(1), key_of(2), 10, vec![3, 1, 4, 1, 5]);
    assert_eq!(account.read_bytes(), &[3, 1, 4, 1, 5]);
}

#[test]
fn write_bytes_overwrites_in_place() {
    let mut account = Account::new(key_of(1), key_of(2), 10, vec![0; 4]);
    assert_eq!(account.write_bytes(&[9, 8, 7, 6]), Ok(()));
    assert_eq!(
        account,
        Account::new(key_of(1), key_of(2), 10, vec![9, 8, 7, 6])
    );
}

#[test]
fn write_bytes_never_resizes() {
    let mut account = Account::new(key_of(1), key_of(2), 10, vec![1, 2, 3, 4]);
    assert_eq!(
        account.write_bytes(&[9, 8, 7]),
        Err(ProgramError::MalformedAccountData)
    );
    assert_eq!(
        account.write_bytes(&[9, 8, 7, 6, 5]),
        Err(ProgramError::MalformedAccountData)
    );
    assert_eq!(
        account.write_bytes(&[]),
        Err(ProgramError::MalformedAccountData)
    );
    assert_eq!(
        account,
        Account::new(key_of(1), key_of(2), 10, vec![1, 2, 3, 4])
    );
}
