//! Error taxonomy of the protocol stack. Errors are structured values
//! for the caller to render; none is recovered locally.

use vstd::prelude::*;
use crate::x224::Protocols;

verus! {

/// Everything that can abort a read, a write or the negotiation.
#[derive(Copy, Clone, Debug, PartialEq, Eq, Structural)]
pub enum RdpError {
    /// Unrecognized action byte on read; the connection is unusable
    /// afterward.
    MalformedFrame,
    /// A declared frame or field length smaller than its own header
    /// size; never silently clamped.
    SizeViolation,
    /// The server sent an explicit negotiation failure response.
    NegotiationError,
    /// The server's response pattern implies refusal: a request type
    /// echoed back, or a selected protocol that resolves to nothing
    /// known.
    ProtocolRefused,
    /// A frame or PDU that cannot be decoded at the point it arrives.
    DecodeError,
    /// Negotiation selected a protocol whose upgrade (TLS or
    /// network-level authentication) an outside collaborator must
    /// perform; this stack only reports the selection.
    UpgradeRequired(Protocols),
    /// Underlying stream failure, propagated verbatim.
    Io,
}

} // verus!
