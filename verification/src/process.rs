use vstd::prelude::*;

use vstd::arithmetic::div_mod::lemma_add_mod_noop;
use vstd::arithmetic::div_mod::lemma_mod_self_0;
use vstd::arithmetic::div_mod::lemma_small_mod;
use vstd::bytes::lemma_auto_spec_u32_to_from_le_bytes;
use vstd::bytes::spec_u32_to_le_bytes;

use crate::account::Account;
use crate::account::Identity;
use crate::error::ProgramError;
use crate::state::stored_counter;
use crate::state::GreetingAccount;

verus! {

/// The counter after one more greeting: one larger, wrapping at the 32-bit
/// boundary.
pub open spec fn next_counter(c: u32) -> u32 {
    (((c as int) + 1) % 0x1_0000_0000) as u32
}

/// The buffer contents after one successful greeting: the incremented counter
/// re-encoded as the buffer's entire contents.
pub open spec fn greeted_bytes(data: Seq<u8>) -> Seq<u8>
    recommends
        data.len() == 4,
{
    spec_u32_to_le_bytes(next_counter(stored_counter(data)))
}

/// The result a greeting invocation owes for a given program identity and
/// account sequence: the first failure among a missing first account, a
/// foreign owner, and a buffer that is not exactly the four-byte encoding;
/// success otherwise.
pub open spec fn process_result(program_id: Seq<u8>, accounts: Seq<Account>) -> Result<
    (),
    ProgramError,
> {
    if accounts.len() == 0 {
        Err(ProgramError::MissingAccount)
    } else if accounts[0].owner@ != program_id {
        Err(ProgramError::IncorrectOwner)
    } else if accounts[0].data@.len() != 4 {
        Err(ProgramError::MalformedState)
    } else {
        Ok(())
    }
}

/// Adds one to a greeting counter, wrapping at the 32-bit boundary.
pub fn increment_counter(c: u32) -> (r: u32)
    ensures
        r == next_counter(c),
{
    if c == u32::MAX {
        proof {
            lemma_mod_self_0(0x1_0000_0000);
        }
        0
    } else {
        proof {
            lemma_small_mod(((c as int) + 1) as nat, 0x1_0000_0000 as nat);
        }
        c + 1
    }
}

/// Greets the first account of the sequence: validates that the account is
/// owned by the executing program, decodes the stored counter from the
/// buffer, which must hold exactly its four-byte encoding, increments it
/// with wraparound, and re-encodes it over the same buffer. On every failure
/// the sequence is left exactly as it was; accounts past the first are never
/// touched.
pub fn process_instruction(
    program_id: &Identity,
    accounts: &mut Vec<Account>,
    _instruction_data: &[u8],
) -> (r: Result<(), ProgramError>)
    ensures
        r == process_result(program_id@, old(accounts)@),
        final(accounts)@.len() == old(accounts)@.len(),
        r is Err ==> final(accounts)@ == old(accounts)@,
        r is Ok ==> final(accounts)@[0].owner == old(accounts)@[0].owner,
        r is Ok ==> final(accounts)@[0].data@ == greeted_bytes(old(accounts)@[0].data@),
        r is Ok ==> stored_counter(final(accounts)@[0].data@) == next_counter(
            stored_counter(old(accounts)@[0].data@),
        ),
        forall|i: int| 1 <= i < old(accounts)@.len() ==> final(accounts)@[i] == old(accounts)@[i],
{
    let ghost accounts0 = accounts@;
    if accounts.len() == 0 {
        return Err(ProgramError::MissingAccount);
    }

    // Take the first account from the sequence; it is put back before every
    // return, so a failing call leaves the sequence unchanged.
    let mut first = accounts.remove(0);

    // The account must be owned by the program in order to modify its data.
    if !first.owner.same_as(program_id) {
        accounts.insert(0, first);
        proof {
            assert(accounts@ =~= accounts0);
        }
        return Err(ProgramError::IncorrectOwner);
    }

    let greeting = match GreetingAccount::try_from_slice(first.data.as_slice()) {
        Ok(g) => g,
        Err(e) => {
            accounts.insert(0, first);
            proof {
                assert(accounts@ =~= accounts0);
            }
            return Err(e);
        },
    };

    let updated = GreetingAccount { counter: increment_counter(greeting.counter) };
    match updated.serialize_into(&mut first.data) {
        Ok(_) => {
            let ghost first_after = first;
            accounts.insert(0, first);
            proof {
                assert(accounts@ =~= accounts0.update(0, first_after));
                assert(first_after.data@ =~= greeted_bytes(accounts0[0].data@));
            }
            Ok(())
        },
        Err(e) => {
            // Unreachable: the decode above already established that the
            // buffer holds at least four bytes, and its length has not
            // changed since.
            accounts.insert(0, first);
            proof {
                assert(accounts@ =~= accounts0);
            }
            Err(e)
        },
    }
}

/// Law: one greeting of a buffer holding exactly the four-byte encoding
/// stores the previous counter plus one, modulo 2^32, and keeps the buffer's
/// length.
pub proof fn lemma_greeting_increments(data: Seq<u8>)
    requires
        data.len() == 4,
    ensures
        greeted_bytes(data).len() == data.len(),
        stored_counter(greeted_bytes(data)) == ((stored_counter(data) + 1) % 0x1_0000_0000) as u32,
{
    lemma_auto_spec_u32_to_from_le_bytes();
    let incremented = next_counter(stored_counter(data));
    assert(greeted_bytes(data).take(4) =~= spec_u32_to_le_bytes(incremented));
}

/// Law: two greetings in sequence store the original counter plus two, modulo
/// 2^32 — the second call reads exactly the value the first one wrote.
pub proof fn lemma_two_greetings_increment_twice(data: Seq<u8>)
    requires
        data.len() == 4,
    ensures
        greeted_bytes(data).len() == data.len(),
        stored_counter(greeted_bytes(greeted_bytes(data))) == ((stored_counter(data) + 2)
            % 0x1_0000_0000) as u32,
{
    lemma_greeting_increments(data);
    lemma_greeting_increments(greeted_bytes(data));
    let c = stored_counter(data) as int;
    let m = 0x1_0000_0000 as int;
    lemma_small_mod(1nat, m as nat);
    lemma_add_mod_noop(c + 1, 1, m);
    assert(stored_counter(greeted_bytes(data)) == (c + 1) % m);
    assert(((c + 1) % m + 1) % m == (c + 2) % m);
}

} // verus!
