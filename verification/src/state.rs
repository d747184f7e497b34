use vstd::prelude::*;

use vstd::bytes::lemma_auto_spec_u32_to_from_le_bytes;
use vstd::bytes::spec_u32_from_le_bytes;
use vstd::bytes::spec_u32_to_le_bytes;
use vstd::bytes::u32_from_le_bytes;
use vstd::bytes::u32_to_le_bytes;

use crate::error::ProgramError;

verus! {

/// Number of bytes in the stored encoding of a `GreetingAccount`: the
/// fixed-width little-endian encoding of its 32-bit counter.
pub const GREETING_ACCOUNT_LEN: usize = 4;

/// The counter a buffer stores: its first four bytes read as a little-endian
/// unsigned 32-bit integer.
pub open spec fn stored_counter(data: Seq<u8>) -> u32
    recommends
        data.len() >= 4,
{
    spec_u32_from_le_bytes(data.take(4))
}

/// The state persisted in a greeted account: the number of greetings so far.
#[derive(Clone, Copy, Debug, PartialEq, Eq, Structural)]
pub struct GreetingAccount {
    /// number of greetings
    pub counter: u32,
}

impl GreetingAccount {
    /// Decodes a buffer under the fixed four-byte little-endian layout, which
    /// must occupy the buffer's entire contents. Succeeds exactly when the
    /// buffer is the four bytes of the encoding; a buffer that is shorter, or
    /// that carries trailing bytes past the encoding, is malformed state.
    pub fn try_from_slice(data: &[u8]) -> (r: Result<GreetingAccount, ProgramError>)
        ensures
            r is Ok <==> data@.len() == 4,
            data@.len() == 4 ==> r->Ok_0.counter == stored_counter(data@),
            data@.len() != 4 ==> r == Err::<GreetingAccount, ProgramError>(
                ProgramError::MalformedState,
            ),
    {
        if data.len() != GREETING_ACCOUNT_LEN {
            return Err(ProgramError::MalformedState);
        }
        let counter = u32_from_le_bytes(data);
        proof {
            assert(data@.take(4) =~= data@);
        }
        Ok(GreetingAccount { counter })
    }

    /// Writes the four-byte little-endian encoding of `counter` over the head
    /// of `data`, leaving the buffer's length and every byte past the fourth
    /// unchanged. Fails, leaving the buffer untouched, exactly when the
    /// buffer cannot hold the encoding.
    pub fn serialize_into(&self, data: &mut Vec<u8>) -> (r: Result<(), ProgramError>)
        ensures
            final(data)@.len() == old(data)@.len(),
            r is Ok <==> old(data)@.len() >= 4,
            old(data)@.len() < 4 ==> r == Err::<(), ProgramError>(ProgramError::EncodeFailure)
                && final(data)@ == old(data)@,
            old(data)@.len() >= 4 ==> final(data)@ == spec_u32_to_le_bytes(self.counter)
                + old(data)@.skip(4),
            old(data)@.len() >= 4 ==> stored_counter(final(data)@) == self.counter,
    {
        if data.len() < GREETING_ACCOUNT_LEN {
            return Err(ProgramError::EncodeFailure);
        }
        let ghost data0 = data@;
        let bytes = u32_to_le_bytes(self.counter);
        let mut i: usize = 0;
        while i < GREETING_ACCOUNT_LEN
            invariant
                i <= 4,
                bytes@ == spec_u32_to_le_bytes(self.counter),
                bytes@.len() == 4,
                data@.len() == data0.len(),
                data0.len() >= 4,
                forall|j: int| 0 <= j < i ==> data@[j] == bytes@[j],
                forall|j: int| i <= j < data@.len() ==> data@[j] == data0[j],
            decreases 4 - i,
        {
            let b = bytes[i];
            data[i] = b;
            i = i + 1;
        }
        proof {
            lemma_auto_spec_u32_to_from_le_bytes();
            assert(data@ =~= spec_u32_to_le_bytes(self.counter) + data0.skip(4));
            assert(data@.take(4) =~= spec_u32_to_le_bytes(self.counter));
        }
        Ok(())
    }
}

} // verus!
