//! Worker addresses and message envelopes.
use vstd::prelude::*;

verus! {

/// An opaque, comparable identifier of a worker, made of bytes.
#[derive(Debug)]
pub struct Address {
    pub bytes: Vec<u8>,
}

impl View for Address {
    type V = Seq<u8>;

    open spec fn view(&self) -> Seq<u8> {
        self.bytes@
    }
}

impl Address {
    /// Builds an address from its bytes.
    pub fn new(bytes: Vec<u8>) -> (r: Address)
        ensures
            r@ == bytes@,
    {
        Address { bytes }
    }

    /// Whether two addresses name the same worker (byte-wise equality).
    pub fn same(&self, other: &Address) -> (r: bool)
        ensures
            r == (self@ == other@),
    {
        if self.bytes.len() != other.bytes.len() {
            return false;
        }
        let mut i: usize = 0;
        while i < self.bytes.len()
            invariant
                self.bytes@.len() == other.bytes@.len(),
                0 <= i <= self.bytes@.len(),
                forall|k: int| 0 <= k < i ==> self.bytes@[k] == other.bytes@[k],
            decreases self.bytes@.len() - i,
        {
            if self.bytes[i] != other.bytes[i] {
                return false;
            }
            i = i + 1;
        }
        assert(self.bytes@ =~= other.bytes@);
        true
    }

    /// A copy of this address.
    pub fn duplicate(&self) -> (r: Address)
        ensures
            r@ == self@,
    {
        Address { bytes: self.bytes.clone() }
    }
}

/// A message on its way: who sent it, where it goes, and its opaque payload.
#[derive(Debug)]
pub struct Envelope {
    pub sender: Address,
    pub destination: Address,
    pub payload: Vec<u8>,
}

/// The mathematical value of an envelope.
pub struct EnvelopeView {
    pub sender: Seq<u8>,
    pub destination: Seq<u8>,
    pub payload: Seq<u8>,
}

impl View for Envelope {
    type V = EnvelopeView;

    open spec fn view(&self) -> EnvelopeView {
        EnvelopeView {
            sender: self.sender@,
            destination: self.destination@,
            payload: self.payload@,
        }
    }
}

impl Envelope {
    /// Builds an envelope from its three parts.
    pub fn new(sender: Address, destination: Address, payload: Vec<u8>) -> (r: Envelope)
        ensures
            r@.sender == sender@,
            r@.destination == destination@,
            r@.payload == payload@,
    {
        Envelope { sender, destination, payload }
    }
}

} // verus!
