//! Transport protocol sequences.
use vstd::prelude::*;

verus! {

/// Transport protocol used for calls.
#[derive(Clone, Copy, Debug, PartialEq, Eq, Structural)]
pub enum ProtocolSequence {
    /// Local RPC between processes of one machine (`ncalrpc`).
    Alpc,
}

impl ProtocolSequence {
    /// The protocol sequence string the runtime knows this transport by.
    pub open spec fn name(self) -> Seq<char> {
        match self {
            ProtocolSequence::Alpc => seq!['n', 'c', 'a', 'l', 'r', 'p', 'c'],
        }
    }

    /// The protocol sequence string the runtime knows this transport by.
    pub fn to_string(&self) -> (r: &'static str)
        ensures
            r@ == self.name(),
    {
        proof {
            reveal_strlit("ncalrpc");
        }
        match self {
            ProtocolSequence::Alpc => "ncalrpc",
        }
    }
}

} // verus!
