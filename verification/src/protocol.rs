//! Protocol-wide choices shared by the session and the envelope layer.

use vstd::prelude::*;

verus! {

/// The revision of the protocol a session speaks. It selects how the message
/// key and the cipher key of an authenticated envelope are derived.
#[derive(Clone, Copy, Debug, PartialEq, Eq, Structural)]
pub enum ProtocolVersion {
    V1,
    V2,
}

} // verus!
