//! Accounts: the storage slots that the ledger hands to the program.

use crate::error::ProgramError;
use crate::pubkey::Pubkey;
use vstd::prelude::*;

verus! {

/// What an account is, apart from how it is held in memory.
pub struct AccountView {
    /// The account's own identity.
    pub key: Seq<u8>,
    /// The identity of the program that may change the buffer.
    pub owner: Seq<u8>,
    /// The account's balance.
    pub lamports: u64,
    /// The buffer.
    pub data: Seq<u8>,
}

/// A storage slot of the ledger. Somebody else created and funded it, and
/// sized its buffer; the program changes the bytes of the buffer and nothing
/// else.
#[derive(Clone, Debug, PartialEq, Eq)]
pub struct Account {
    /// The account's own identity.
    pub key: Pubkey,
    /// The identity of the program that may change the buffer.
    pub owner: Pubkey,
    /// The account's balance.
    pub lamports: u64,
    /// The buffer that holds the serialized state.
    pub data: Vec<u8>,
}

impl View for Account {
    type V = AccountView;

    open spec fn view(&self) -> AccountView {
        AccountView {
            key: self.key@,
            owner: self.owner@,
            lamports: self.lamports,
            data: self.data@,
        }
    }
}

impl Account {
    /// An account with the given contents.
    pub fn new(key: Pubkey, owner: Pubkey, lamports: u64, data: Vec<u8>) -> (account: Account)
        ensures
            account == (Account { key, owner, lamports, data }),
    {
        Account { key, owner, lamports, data }
    }

    /// Whether `program_id` is the program that may change the buffer.
    pub fn is_owned_by(&self, program_id: &Pubkey) -> (owned: bool)
        ensures
            owned == (self@.owner == program_id@),
    {
        self.owner.same_as(program_id)
    }

    /// The bytes of the buffer.
    pub fn read_bytes(&self) -> (bytes: &[u8])
        ensures
            bytes@ == self@.data,
    {
        self.data.as_slice()
    }

    /// Overwrites the buffer with `bytes`, in place. The buffer is never
    /// resized: bytes of another length are refused, and the buffer stays as
    /// it was.
    pub fn write_bytes(&mut self, bytes: &[u8]) -> (r: Result<(), ProgramError>)
        ensures
            r == if bytes@.len() == old(self)@.data.len() {
                Ok::<(), ProgramError>(())
            } else {
                Err(ProgramError::MalformedAccountData)
            },
            r is Ok ==> final(self)@ == (AccountView { data: bytes@, ..old(self)@ }),
            r is Err ==> *final(self) == *old(self),
    {
        let n = self.data.len();
        if bytes.len() != n {
            return Err(ProgramError::MalformedAccountData);
        }
        let mut i: usize = 0;
        while i < n
            invariant
                i <= n,
                n == bytes@.len(),
                n == self.data@.len(),
                self.key == old(self).key,
                self.owner == old(self).owner,
                self.lamports == old(self).lamports,
                forall|j: int| 0 <= j < i ==> self.data@[j] == bytes@[j],
            decreases n - i,
        {
            self.data[i] = bytes[i];
            i += 1;
        }
        assert(self.data@ =~= bytes@);
        Ok(())
    }
}

} // verus!
