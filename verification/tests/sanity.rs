use helloworld::{process_instruction, Account, GreetingAccount, Pubkey};
use std::mem;

#[test]
fn test_sanity() {
    let program_id = Pubkey::default();
    let key = Pubkey::default();
    let lamports = 0;
    let data = vec![0; mem::size_of::<u32>()];
    let owner = Pubkey::default();
    let account = Account::new(key, owner, lamports, data);
    let instruction_data: Vec<u8> = Vec::new();

    let mut accounts = vec![account];

    assert_eq!(
        GreetingAccount::try_from_slice(&accounts[0].data)
            .unwrap()
            .counter,
        0
    );
    process_instruction(&program_id, &mut accounts, &instruction_data).unwrap();
    assert_eq!(
        GreetingAccount::try_from_slice(&accounts[0].data)
            .unwrap()
            .counter,
        1
    );
    process_instruction(&program_id, &mut accounts, &instruction_data).unwrap();
    assert_eq!(
        GreetingAccount::try_from_slice(&accounts[0].data)
            .unwrap()
            .counter,
        2
    );
}
