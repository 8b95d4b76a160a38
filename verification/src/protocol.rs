//! The protocol identifier used when a substream is negotiated.

use vstd::prelude::*;

verus! {

/// The identifier that both sides must present, letter for letter.
pub const PROTOCOL_INFO: &'static str = "/ax/broadcast/1.0.0";

/// The upgrade that turns a negotiated stream into a broadcast substream.
/// It carries no state: the negotiated stream is used as it is.
pub struct Protocol {}

impl Protocol {
    /// The single protocol identifier this upgrade answers to.
    pub fn protocol_info(&self) -> (info: &'static str)
        ensures
            info@ == PROTOCOL_INFO@,
    {
        PROTOCOL_INFO
    }
}

} // verus!
