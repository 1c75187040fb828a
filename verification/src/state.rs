//! The counter record and its wire format: four bytes, least significant
//! first, with nothing before or after them. The record has one field, and
//! its encoding is that field's.

use crate::error::ProgramError;
use borsh::BorshDeserialize;
use borsh::BorshSerialize;
use vstd::prelude::*;

verus! {

/// The state stored in an account: how often it has been greeted.
#[derive(Clone, Copy, Debug, PartialEq, Eq, Structural)]
pub struct GreetingAccount {
    /// Number of greetings.
    pub counter: u32,
}

/// The bytes that stand for `counter`.
pub open spec fn encode(counter: u32) -> Seq<u8> {
    seq![
        (counter % 256) as u8,
        ((counter / 256) % 256) as u8,
        ((counter / 65536) % 256) as u8,
        ((counter / 16777216) % 256) as u8,
    ]
}

/// The number that four bytes stand for.
pub open spec fn le_value(bytes: Seq<u8>) -> int
    recommends
        bytes.len() == 4,
{
    bytes[0] + 256 * bytes[1] + 65536 * bytes[2] + 16777216 * bytes[3]
}

/// The counter that `bytes` stand for, if they are an encoding at all.
pub open spec fn decode(bytes: Seq<u8>) -> Option<u32> {
    if bytes.len() == 4 {
        Some(le_value(bytes) as u32)
    } else {
        None
    }
}

/// Decoding undoes encoding, and an encoding has exactly four bytes.
pub proof fn lemma_decode_encode(counter: u32)
    ensures
        encode(counter).len() == 4,
        decode(encode(counter)) == Some(counter),
{
    let c = counter as int;
    let q1 = c / 256;
    let q2 = c / 65536;
    let q3 = c / 16777216;
    assert(q2 == q1 / 256);
    assert(q3 == q2 / 256);
    assert(q3 < 256);
    assert(c == c % 256 + 256 * (q1 % 256) + 65536 * (q2 % 256) + 16777216 * q3);
}

/// Encoding undoes decoding: a buffer that decodes is the encoding of what it
/// decodes to, so no two buffers stand for the same counter.
pub proof fn lemma_encode_decode(bytes: Seq<u8>)
    requires
        decode(bytes) is Some,
    ensures
        encode(decode(bytes)->0) == bytes,
{
    let low = bytes[0] + 256 * bytes[1];
    let mid = bytes[1] + 256 * bytes[2];
    let value = le_value(bytes);
    assert(value == low + 65536 * (bytes[2] + 256 * bytes[3]));
    assert(0 <= value <= u32::MAX);
    assert(value % 256 == bytes[0]);
    assert(value / 256 == mid + 65536 * bytes[3]);
    assert((value / 256) % 256 == bytes[1]);
    assert(value / 65536 == bytes[2] + 256 * bytes[3]);
    assert((value / 65536) % 256 == bytes[2]);
    assert(value / 16777216 == bytes[3]);
    assert(encode(decode(bytes)->0) =~= bytes);
}

/// The outside error that borsh reports.
#[verifier::external_type_specification]
#[verifier::external_body]
pub struct ExIoError(borsh::io::Error);

/// Calls borsh's `BorshDeserialize::try_from_slice` for `u32`. It succeeds
/// exactly on a slice of four bytes, and then gives the number that they
/// stand for, least significant byte first.
#[verifier::external_body]
fn borsh_u32_try_from_slice(v: &[u8]) -> (r: Result<u32, borsh::io::Error>)
    ensures
        r is Ok <==> v@.len() == 4,
        r is Ok ==> r->Ok_0 == le_value(v@),
{
    u32::try_from_slice(v)
}

/// Calls borsh's `BorshSerialize::serialize` for `u32` with a vector as the
/// writer. A vector grows as needed, so the call succeeds, and it appends the
/// four bytes of `value`, least significant first.
#[verifier::external_body]
fn borsh_u32_serialize(value: u32, writer: &mut Vec<u8>) -> (r: Result<(), borsh::io::Error>)
    ensures
        r is Ok,
        final(writer)@ == old(writer)@ + encode(value),
{
    value.serialize(writer)
}

impl GreetingAccount {
    /// Reads a record from a buffer that holds one and nothing else.
    pub fn try_from_slice(v: &[u8]) -> (r: Result<GreetingAccount, ProgramError>)
        ensures
            r == match decode(v@) {
                Some(counter) => Ok::<GreetingAccount, ProgramError>(GreetingAccount { counter }),
                None => Err(ProgramError::MalformedAccountData),
            },
    {
        match borsh_u32_try_from_slice(v) {
            Ok(counter) => Ok(GreetingAccount { counter }),
            Err(_) => Err(ProgramError::MalformedAccountData),
        }
    }

    /// Appends the encoding of this record to `writer`.
    pub fn serialize(&self, writer: &mut Vec<u8>) -> (r: Result<(), ProgramError>)
        ensures
            r == Ok::<(), ProgramError>(()),
            final(writer)@ == old(writer)@ + encode(self.counter),
            final(writer)@.len() == old(writer)@.len() + 4,
    {
        match borsh_u32_serialize(self.counter, writer) {
            Ok(()) => Ok(()),
            Err(_) => Err(ProgramError::MalformedAccountData),
        }
    }
}

} // verus!
