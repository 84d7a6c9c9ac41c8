//! Byte strings: titles, names, hashes and payloads.

use vstd::prelude::*;

verus! {

/// A string of bytes whose length is a `u32`, as that of every string on the ledger is.
#[derive(Debug, PartialEq, Eq)]
pub struct ByteString {
    bytes: Vec<u8>,
}

impl View for ByteString {
    type V = Seq<u8>;

    closed spec fn view(&self) -> Seq<u8> {
        self.bytes@
    }
}

impl Clone for ByteString {
    fn clone(&self) -> (copy: Self)
        ensures
            copy@ == self@,
    {
        proof {
            use_type_invariant(self);
        }
        let bytes: Vec<u8> = self.bytes.clone();
        assert(bytes@ =~= self.bytes@);
        ByteString { bytes }
    }
}

impl ByteString {
    #[verifier::type_invariant]
    spec fn length_is_u32(self) -> bool {
        self.bytes@.len() <= u32::MAX
    }

    /// The string that holds `bytes`.
    pub fn new(bytes: Vec<u8>) -> (s: ByteString)
        requires
            bytes@.len() <= u32::MAX,
        ensures
            s@ == bytes@,
    {
        ByteString { bytes }
    }

    /// The number of bytes.
    pub fn len(&self) -> (n: u32)
        ensures
            n == self@.len(),
    {
        proof {
            use_type_invariant(self);
        }
        self.bytes.len() as u32
    }

    /// Whether there are no bytes.
    pub fn is_empty(&self) -> (empty: bool)
        ensures
            empty == (self@.len() == 0),
    {
        self.bytes.len() == 0
    }

    /// The byte at `i`, or `None` past the end.
    pub fn get(&self, i: u32) -> (byte: Option<u8>)
        ensures
            byte == if i < self@.len() {
                Some(self@[i as int])
            } else {
                None
            },
    {
        if i < self.len() {
            Some(self.bytes[i as usize])
        } else {
            None
        }
    }

    /// The bytes.
    pub fn as_slice(&self) -> (bytes: &[u8])
        ensures
            bytes@ == self@,
            bytes@.len() <= u32::MAX,
    {
        proof {
            use_type_invariant(self);
        }
        self.bytes.as_slice()
    }
}

} // verus!
