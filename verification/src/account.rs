use vstd::prelude::*;

verus! {

/// An address under which the runtime knows a program or an account owner,
/// held as raw bytes and compared byte for byte.
pub struct Identity {
    bytes: Vec<u8>,
}

impl View for Identity {
    type V = Seq<u8>;

    closed spec fn view(&self) -> Seq<u8> {
        self.bytes@
    }
}

impl Identity {
    /// Wraps raw identity bytes.
    pub fn new(bytes: Vec<u8>) -> (id: Identity)
        ensures
            id@ == bytes@,
    {
        Identity { bytes }
    }

    /// Byte-for-byte equality of two identities.
    pub fn same_as(&self, other: &Identity) -> (r: bool)
        ensures
            r == (self@ == other@),
    {
        if self.bytes.len() != other.bytes.len() {
            return false;
        }
        let n = self.bytes.len();
        let mut i: usize = 0;
        while i < n
            invariant
                i <= n,
                n == self.bytes@.len(),
                n == other.bytes@.len(),
                forall|j: int| 0 <= j < i ==> self.bytes@[j] == other.bytes@[j],
            decreases n - i,
        {
            if self.bytes[i] != other.bytes[i] {
                return false;
            }
            i = i + 1;
        }
        proof {
            assert(self.bytes@ =~= other.bytes@);
        }
        true
    }
}

/// One unit of runtime storage: the identity of the program that owns it and
/// the raw byte buffer it carries. The runtime allocates the buffer before
/// the call; this library only reads and overwrites its contents in place.
pub struct Account {
    /// The program identity authorized to modify this account's buffer.
    pub owner: Identity,
    /// The account's raw data buffer.
    pub data: Vec<u8>,
}

impl Account {
    /// Builds an account handle from its owner identity and data buffer.
    pub fn new(owner: Identity, data: Vec<u8>) -> (a: Account)
        ensures
            a.owner == owner,
            a.data == data,
    {
        Account { owner, data }
    }
}

} // verus!
