//! The program's one operation: greet the first account.

use crate::account::Account;
use crate::account::AccountView;
use crate::error::ProgramError;
use crate::pubkey::Pubkey;
use crate::state::decode;
use crate::state::encode;
use crate::state::lemma_decode_encode;
use crate::state::lemma_encode_decode;
use crate::state::GreetingAccount;
use vstd::prelude::*;

verus! {

/// The accounts as the contracts speak of them.
pub open spec fn views(accounts: Seq<Account>) -> Seq<AccountView> {
    accounts.map_values(|account: Account| account@)
}

/// The counter that the first account holds, if there is a first account and
/// its buffer is the encoding of a counter.
pub open spec fn counter_of(accounts: Seq<AccountView>) -> Option<u32> {
    if accounts.len() == 0 {
        None
    } else {
        decode(accounts[0].data)
    }
}

/// The accounts after a greeting that took effect: the first account's buffer
/// holds `counter`, and all else is as it was.
pub open spec fn with_counter(accounts: Seq<AccountView>, counter: u32) -> Seq<AccountView> {
    accounts.update(0, AccountView { data: encode(counter), ..accounts[0] })
}

/// What greeting the first account comes to: the counter that its buffer
/// will hold, or why the greeting fails. The checks come in this order: is
/// there an account, is it the program's, does its buffer hold a counter, and
/// is there a next counter.
pub open spec fn greeting(program_id: Seq<u8>, accounts: Seq<AccountView>) -> Result<
    u32,
    ProgramError,
> {
    if accounts.len() == 0 {
        Err(ProgramError::AccountMissing)
    } else if accounts[0].owner != program_id {
        Err(ProgramError::IncorrectProgramId)
    } else if decode(accounts[0].data) is None {
        Err(ProgramError::MalformedAccountData)
    } else if decode(accounts[0].data)->0 == u32::MAX {
        Err(ProgramError::CounterOverflow)
    } else {
        Ok((decode(accounts[0].data)->0 + 1) as u32)
    }
}

/// The accounts that a greeting leaves behind: with the new counter where it
/// takes effect, untouched where it fails.
pub open spec fn greeted(program_id: Seq<u8>, accounts: Seq<AccountView>) -> Seq<AccountView> {
    match greeting(program_id, accounts) {
        Ok(counter) => with_counter(accounts, counter),
        Err(_) => accounts,
    }
}

/// How an invocation ends. The instruction data is among the inputs, as the
/// ledger hands it over with every invocation.
pub open spec fn result_of(
    program_id: Seq<u8>,
    accounts: Seq<AccountView>,
    instruction_data: Seq<u8>,
) -> Result<(), ProgramError> {
    match greeting(program_id, accounts) {
        Ok(_) => Ok(()),
        Err(error) => Err(error),
    }
}

/// The accounts that an invocation leaves behind.
pub open spec fn accounts_after(
    program_id: Seq<u8>,
    accounts: Seq<AccountView>,
    instruction_data: Seq<u8>,
) -> Seq<AccountView> {
    greeted(program_id, accounts)
}

/// Greets the first of `accounts`: adds one to the counter in its buffer, and
/// returns the new counter.
///
/// All checks come before the one write. A greeting that fails has written
/// nothing, and one that takes effect has changed the four bytes of the first
/// account's buffer and nothing else.
pub fn greet(program_id: &Pubkey, accounts: &mut [Account]) -> (r: Result<u32, ProgramError>)
    ensures
        r == greeting(program_id@, views(old(accounts)@)),
        views(final(accounts)@) == greeted(program_id@, views(old(accounts)@)),
        r is Err ==> final(accounts)@ == old(accounts)@,
{
    if accounts.len() == 0 {
        return Err(ProgramError::AccountMissing);
    }
    if !accounts[0].is_owned_by(program_id) {
        return Err(ProgramError::IncorrectProgramId);
    }
    let mut greeting_account = match GreetingAccount::try_from_slice(accounts[0].read_bytes()) {
        Ok(greeting_account) => greeting_account,
        Err(error) => {
            return Err(error);
        },
    };
    greeting_account.counter = match greeting_account.counter.checked_add(1) {
        Some(counter) => counter,
        None => {
            return Err(ProgramError::CounterOverflow);
        },
    };
    let mut bytes: Vec<u8> = Vec::new();
    match greeting_account.serialize(&mut bytes) {
        Ok(()) => {},
        Err(error) => {
            return Err(error);
        },
    }
    proof {
        lemma_decode_encode(greeting_account.counter);
    }
    match accounts[0].write_bytes(bytes.as_slice()) {
        Ok(()) => {},
        Err(error) => {
            return Err(error);
        },
    }
    assert(views(old(accounts)@)[0] == old(accounts)@[0]@);
    assert(views(accounts@) =~= with_counter(views(old(accounts)@), greeting_account.counter));
    Ok(greeting_account.counter)
}

/// The program's entry: greets the first of `accounts`, whatever
/// `instruction_data` holds.
///
/// The account must belong to `program_id` and its buffer must be the
/// encoding of a counter below the largest; otherwise the invocation fails
/// and every account stays byte for byte as it was.
pub fn process_instruction(
    program_id: &Pubkey,
    accounts: &mut [Account],
    instruction_data: &[u8],
) -> (r: Result<(), ProgramError>)
    ensures
        r == result_of(program_id@, views(old(accounts)@), instruction_data@),
        views(final(accounts)@) == accounts_after(
            program_id@,
            views(old(accounts)@),
            instruction_data@,
        ),
        r is Err ==> final(accounts)@ == old(accounts)@,
        old(accounts)@.len() == 0 ==> r == Err::<(), ProgramError>(ProgramError::AccountMissing),
        old(accounts)@.len() > 0 && old(accounts)@[0].owner@ != program_id@ ==> r == Err::<
            (),
            ProgramError,
        >(ProgramError::IncorrectProgramId),
        old(accounts)@.len() > 0 && old(accounts)@[0].owner@ == program_id@ && old(
            accounts,
        )@[0].data@.len() != 4 ==> r == Err::<(), ProgramError>(
            ProgramError::MalformedAccountData,
        ),
        r is Ok ==> counter_of(views(old(accounts)@)) is Some && counter_of(
            views(final(accounts)@),
        ) == Some((counter_of(views(old(accounts)@))->0 + 1) as u32),
{
    proof {
        if accounts@.len() > 0 {
            assert(views(accounts@)[0] == accounts@[0]@);
            if greeting(program_id@, views(accounts@)) is Ok {
                lemma_decode_encode(greeting(program_id@, views(accounts@))->Ok_0);
            }
        }
    }
    match greet(program_id, accounts) {
        Ok(_) => Ok(()),
        Err(error) => Err(error),
    }
}

/// The accounts after `n` invocations in a row, each with the same
/// instruction data.
pub open spec fn after_invocations(
    program_id: Seq<u8>,
    accounts: Seq<AccountView>,
    instruction_data: Seq<u8>,
    n: nat,
) -> Seq<AccountView>
    decreases n,
{
    if n == 0 {
        accounts
    } else {
        accounts_after(
            program_id,
            after_invocations(program_id, accounts, instruction_data, (n - 1) as nat),
            instruction_data,
        )
    }
}

/// The instruction data has no effect: two invocations that differ in nothing
/// else end alike and leave the same accounts behind.
pub proof fn lemma_instruction_data_ignored(
    program_id: Seq<u8>,
    accounts: Seq<AccountView>,
    first: Seq<u8>,
    second: Seq<u8>,
)
    ensures
        result_of(program_id, accounts, first) == result_of(program_id, accounts, second),
        accounts_after(program_id, accounts, first) == accounts_after(
            program_id,
            accounts,
            second,
        ),
{
}

/// An invocation that fails leaves every account as it was.
pub proof fn lemma_failure_changes_nothing(
    program_id: Seq<u8>,
    accounts: Seq<AccountView>,
    instruction_data: Seq<u8>,
)
    requires
        result_of(program_id, accounts, instruction_data) is Err,
    ensures
        accounts_after(program_id, accounts, instruction_data) == accounts,
{
}

/// Greeting is not idempotent. An invocation that takes effect raises the
/// counter by exactly one, so it leaves the accounts other than it found
/// them; and where the next invocation takes effect too, it leaves a larger
/// counter again.
pub proof fn lemma_greeting_not_idempotent(
    program_id: Seq<u8>,
    accounts: Seq<AccountView>,
    instruction_data: Seq<u8>,
)
    requires
        result_of(program_id, accounts, instruction_data) is Ok,
    ensures
        counter_of(accounts) is Some,
        counter_of(accounts_after(program_id, accounts, instruction_data)) == Some(
            (counter_of(accounts)->0 + 1) as u32,
        ),
        counter_of(accounts_after(program_id, accounts, instruction_data))->0 > counter_of(
            accounts,
        )->0,
        accounts_after(program_id, accounts, instruction_data) != accounts,
        result_of(
            program_id,
            accounts_after(program_id, accounts, instruction_data),
            instruction_data,
        ) is Ok ==> counter_of(
            after_invocations(program_id, accounts, instruction_data, 2),
        )->0 > counter_of(after_invocations(program_id, accounts, instruction_data, 1))->0,
{
    let counter = counter_of(accounts)->0;
    let next = (counter + 1) as u32;
    let after = accounts_after(program_id, accounts, instruction_data);
    lemma_decode_encode(next);
    assert(after[0].data == encode(next));
    assert(counter_of(after) == Some(next));
    assert(after_invocations(program_id, accounts, instruction_data, 1) == after) by {
        reveal_with_fuel(after_invocations, 2);
    }
    if result_of(program_id, after, instruction_data) is Ok {
        let last = accounts_after(program_id, after, instruction_data);
        lemma_decode_encode((next + 1) as u32);
        assert(last[0].data == encode((next + 1) as u32));
        assert(after_invocations(program_id, accounts, instruction_data, 2) == last) by {
            reveal_with_fuel(after_invocations, 3);
        }
    }
}

/// Invocations count. On an account of the program whose buffer holds the
/// counter `c`, the next `n` invocations all take effect as long as `c + n`
/// is a 32-bit value, and they leave the counter `c + n` behind and everything
/// else as it was.
pub proof fn lemma_invocations_count(
    program_id: Seq<u8>,
    accounts: Seq<AccountView>,
    instruction_data: Seq<u8>,
    n: nat,
)
    requires
        accounts.len() > 0,
        accounts[0].owner == program_id,
        decode(accounts[0].data) is Some,
        decode(accounts[0].data)->0 + n <= u32::MAX,
    ensures
        after_invocations(program_id, accounts, instruction_data, n) == with_counter(
            accounts,
            (decode(accounts[0].data)->0 + n) as u32,
        ),
        counter_of(after_invocations(program_id, accounts, instruction_data, n)) == Some(
            (decode(accounts[0].data)->0 + n) as u32,
        ),
        n > 0 ==> result_of(
            program_id,
            after_invocations(program_id, accounts, instruction_data, (n - 1) as nat),
            instruction_data,
        ) is Ok,
    decreases n,
{
    let start = decode(accounts[0].data)->0;
    lemma_decode_encode((start + n) as u32);
    if n == 0 {
        lemma_encode_decode(accounts[0].data);
        assert(with_counter(accounts, start) =~= accounts);
    } else {
        let m = (n - 1) as nat;
        lemma_invocations_count(program_id, accounts, instruction_data, m);
        lemma_decode_encode((start + m) as u32);
        let before = after_invocations(program_id, accounts, instruction_data, m);
        assert(before == with_counter(accounts, (start + m) as u32));
        assert(with_counter(before, (start + n) as u32) =~= with_counter(
            accounts,
            (start + n) as u32,
        ));
    }
}

/// Starting from a buffer of four zero bytes in an account of the program,
/// the counter after `n` invocations is `n`.
pub proof fn lemma_fresh_account_counts_from_zero(
    program_id: Seq<u8>,
    accounts: Seq<AccountView>,
    instruction_data: Seq<u8>,
    n: nat,
)
    requires
        accounts.len() > 0,
        accounts[0].owner == program_id,
        accounts[0].data == seq![0u8, 0u8, 0u8, 0u8],
        n <= u32::MAX,
    ensures
        counter_of(accounts) == Some(0u32),
        counter_of(after_invocations(program_id, accounts, instruction_data, n)) == Some(n as u32),
{
    lemma_invocations_count(program_id, accounts, instruction_data, n);
}

} // verus!
