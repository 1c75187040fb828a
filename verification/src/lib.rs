//! A counter kept in a ledger account, and the single operation on it:
//! increment the counter of the first account handed in.

pub mod account;
pub mod error;
pub mod processor;
pub mod pubkey;
pub mod state;

pub use account::Account;
pub use error::ProgramError;
pub use processor::greet;
pub use processor::process_instruction;
pub use pubkey::Pubkey;
pub use state::GreetingAccount;
