//! Negotiation layer: the connection-request / connection-confirm
//! exchange that agrees on a security protocol, and the enveloped
//! read/write surface used once the connection is established.

use vstd::prelude::*;
use crate::data::{
    le16_value, le32_bytes, le32_value, lemma_le16_round, lemma_le32_round, ByteReader, Message,
    Value, U16, U32,
};
use crate::error::RdpError;
use crate::stream::Transport;
use crate::tpkt::{parse_frame, tpkt_frame, FrameParse, Payload, TpktClient};

verus! {

/// Kind of a security-negotiation block.
#[derive(Copy, Clone, PartialEq, Eq, Structural, Debug)]
pub enum NegotiationType {
    /// Negotiation Request
    /// Send from client to server
    TypeRDPNegReq,
    /// Negotiation Response
    /// Send from Server to client
    TypeRDPNegRsp,
    /// Negotiation failure
    /// Send when security level are not expected
    /// Server ask for NLA and client doesn't support it
    TypeRDPNegFailure,
}

impl NegotiationType {
    /// Wire code of this negotiation-message type.
    pub open spec fn spec_to_u8(self) -> u8 {
        match self {
            NegotiationType::TypeRDPNegReq => 0x01,
            NegotiationType::TypeRDPNegRsp => 0x02,
            NegotiationType::TypeRDPNegFailure => 0x03,
        }
    }

    /// Wire code of this negotiation-message type.
    pub fn to_u8(self) -> (r: u8)
        ensures
            r == self.spec_to_u8(),
    {
        match self {
            NegotiationType::TypeRDPNegReq => 0x01,
            NegotiationType::TypeRDPNegRsp => 0x02,
            NegotiationType::TypeRDPNegFailure => 0x03,
        }
    }

    /// The negotiation-message type a wire code stands for, if any.
    pub open spec fn spec_from_u8(v: u8) -> Option<NegotiationType> {
        if v == 0x01 {
            Some(NegotiationType::TypeRDPNegReq)
        } else if v == 0x02 {
            Some(NegotiationType::TypeRDPNegRsp)
        } else if v == 0x03 {
            Some(NegotiationType::TypeRDPNegFailure)
        } else {
            None
        }
    }

    /// Decode a wire code, rejecting anything unknown.
    pub fn from_u8(v: u8) -> (r: Option<NegotiationType>)
        ensures
            r == Self::spec_from_u8(v),
    {
        match v {
            0x01 => Some(NegotiationType::TypeRDPNegReq),
            0x02 => Some(NegotiationType::TypeRDPNegRsp),
            0x03 => Some(NegotiationType::TypeRDPNegFailure),
            _ => None,
        }
    }
}

/// Security protocols a client may advertise and a server selects from.
#[derive(Copy, Clone, Debug, PartialEq, Eq, Structural)]
pub enum Protocols {
    /// Basic RDP security: no extra security layer.
    ProtocolRDP,
    /// Secure Socket Layer
    ProtocolSSL,
    /// Network Level Authentication over SSL
    ProtocolHybrid,
    /// NLA + SSL + Quick respond
    ProtocolHybridEx,
}

impl Protocols {
    /// Bitmask value of this protocol.
    pub open spec fn spec_to_u32(self) -> u32 {
        match self {
            Protocols::ProtocolRDP => 0x00,
            Protocols::ProtocolSSL => 0x01,
            Protocols::ProtocolHybrid => 0x02,
            Protocols::ProtocolHybridEx => 0x08,
        }
    }

    /// Bitmask value of this protocol.
    pub fn to_u32(self) -> (r: u32)
        ensures
            r == self.spec_to_u32(),
    {
        match self {
            Protocols::ProtocolRDP => 0x00,
            Protocols::ProtocolSSL => 0x01,
            Protocols::ProtocolHybrid => 0x02,
            Protocols::ProtocolHybridEx => 0x08,
        }
    }

    /// The single protocol a bitmask value stands for, if any.
    pub open spec fn spec_from_u32(v: u32) -> Option<Protocols> {
        if v == 0x00 {
            Some(Protocols::ProtocolRDP)
        } else if v == 0x01 {
            Some(Protocols::ProtocolSSL)
        } else if v == 0x02 {
            Some(Protocols::ProtocolHybrid)
        } else if v == 0x08 {
            Some(Protocols::ProtocolHybridEx)
        } else {
            None
        }
    }

    /// Decode a server-selected bitmask as exactly one known protocol.
    pub fn from_u32(v: u32) -> (r: Option<Protocols>)
        ensures
            r == Self::spec_from_u32(v),
    {
        match v {
            0x00 => Some(Protocols::ProtocolRDP),
            0x01 => Some(Protocols::ProtocolSSL),
            0x02 => Some(Protocols::ProtocolHybrid),
            0x08 => Some(Protocols::ProtocolHybridEx),
            _ => None,
        }
    }
}

/// Code of an X224 transport PDU.
#[derive(Copy, Clone, PartialEq, Eq, Structural, Debug)]
pub enum MessageType {
    X224TPDUConnectionRequest,
    X224TPDUConnectionConfirm,
    X224TPDUDisconnectRequest,
    X224TPDUData,
    X224TPDUError,
}

impl MessageType {
    /// Wire code of this PDU type.
    pub open spec fn spec_to_u8(self) -> u8 {
        match self {
            MessageType::X224TPDUConnectionRequest => 0xE0,
            MessageType::X224TPDUConnectionConfirm => 0xD0,
            MessageType::X224TPDUDisconnectRequest => 0x80,
            MessageType::X224TPDUData => 0xF0,
            MessageType::X224TPDUError => 0x70,
        }
    }

    /// Wire code of this PDU type.
    pub fn to_u8(self) -> (r: u8)
        ensures
            r == self.spec_to_u8(),
    {
        match self {
            MessageType::X224TPDUConnectionRequest => 0xE0,
            MessageType::X224TPDUConnectionConfirm => 0xD0,
            MessageType::X224TPDUDisconnectRequest => 0x80,
            MessageType::X224TPDUData => 0xF0,
            MessageType::X224TPDUError => 0x70,
        }
    }
}

/// Connection-data header prepended ahead of every application
/// message once the connection is established.
pub struct X224Header {
    header: u8,
    message_type: u8,
    separator: u8,
}

impl X224Header {
    pub fn new() -> (r: Self)
        ensures
            r.wire() == seq![2u8, 0xF0u8, 0x80u8],
    {
        let r = X224Header {
            header: 2,
            message_type: MessageType::X224TPDUData.to_u8(),
            separator: 0x80,
        };
        proof {
            assert(r.wire() =~= seq![2u8, 0xF0u8, 0x80u8]);
        }
        r
    }
}

impl Message for X224Header {
    closed spec fn wire(&self) -> Seq<u8> {
        seq![self.header, self.message_type, self.separator]
    }

    fn length(&self) -> (r: usize) {
        3
    }

    fn write_to(&self, writer: &mut Vec<u8>) -> (r: Result<(), RdpError>) {
        writer.push(self.header);
        writer.push(self.message_type);
        writer.push(self.separator);
        proof {
            assert(final(writer)@ =~= old(writer)@ + self.wire());
        }
        Ok(())
    }

    fn read_from(&mut self, reader: &mut ByteReader) -> (r: Result<(), RdpError>) {
        if reader.remaining_len() < 3 {
            return Err(RdpError::Io);
        }
        let header = match reader.read_u8() {
            Ok(v) => v,
            Err(e) => { return Err(e); }
        };
        let message_type = match reader.read_u8() {
            Ok(v) => v,
            Err(e) => { return Err(e); }
        };
        let separator = match reader.read_u8() {
            Ok(v) => v,
            Err(e) => { return Err(e); }
        };
        self.header = header;
        self.message_type = message_type;
        self.separator = separator;
        proof {
            assert(old(reader).remaining() =~= final(self).wire() + final(reader).remaining());
        }
        Ok(())
    }
}

/// Connection-request envelope: a length byte counting the payload
/// plus this envelope's 6 further bytes, a PDU code, and five bytes of
/// reserved padding, zero on write.
pub struct X224CRQ {
    len: u8,
    code: u8,
    padding: [u8; 5],
}

impl X224CRQ {
    pub fn new(len: u8, code: MessageType) -> (r: Self)
        requires
            len + 6 <= 255,
        ensures
            r.wire() == seq![(len + 6) as u8, code.spec_to_u8(), 0u8, 0u8, 0u8, 0u8, 0u8],
    {
        let r = X224CRQ { len: len + 6, code: code.to_u8(), padding: [0u8; 5] };
        proof {
            assert(r.wire()
                =~= seq![(len + 6) as u8, code.spec_to_u8(), 0u8, 0u8, 0u8, 0u8, 0u8]);
        }
        r
    }

    /// Decode from a buffer: on success the consumed prefix is exactly
    /// the new value's encoding; a short buffer leaves everything
    /// untouched.
    pub fn read_from_buffer(&mut self, buffer: &mut ByteReader) -> (r: Result<(), RdpError>)
        ensures
            r.is_ok() <==> old(buffer).remaining().len() >= 7,
            r.is_ok() ==> final(self).wire() == old(buffer).remaining().take(7)
                && final(buffer).remaining() == old(buffer).remaining().skip(7),
            r.is_err() ==> r == Err::<(), RdpError>(RdpError::Io)
                && *final(self) == *old(self) && *final(buffer) == *old(buffer),
    {
        if buffer.remaining_len() < 7 {
            return Err(RdpError::Io);
        }
        let len = match buffer.read_u8() {
            Ok(v) => v,
            Err(e) => { return Err(e); }
        };
        let code = match buffer.read_u8() {
            Ok(v) => v,
            Err(e) => { return Err(e); }
        };
        let mut padding = [0u8; 5];
        let mut i: usize = 0;
        while i < 5
            invariant
                i <= 5,
                buffer.remaining() == old(buffer).remaining().skip(2 + i as int),
                old(buffer).remaining().len() >= 7,
                padding@.len() == 5,
                forall|j: int| 0 <= j < i ==> padding@[j] == old(buffer).remaining()[2 + j],
            decreases 5 - i,
        {
            let b = match buffer.read_u8() {
                Ok(v) => v,
                Err(e) => { return Err(e); }
            };
            padding[i] = b;
            i = i + 1;
            proof {
                assert(buffer.remaining() =~= old(buffer).remaining().skip(2 + i as int));
            }
        }
        self.len = len;
        self.code = code;
        self.padding = padding;
        proof {
            assert(final(self).wire() =~= old(buffer).remaining().take(7));
        }
        Ok(())
    }
}

impl Message for X224CRQ {
    closed spec fn wire(&self) -> Seq<u8> {
        seq![self.len, self.code] + self.padding@
    }

    fn length(&self) -> (r: usize) {
        7
    }

    fn write_to(&self, writer: &mut Vec<u8>) -> (r: Result<(), RdpError>) {
        writer.push(self.len);
        writer.push(self.code);
        writer.push(self.padding[0]);
        writer.push(self.padding[1]);
        writer.push(self.padding[2]);
        writer.push(self.padding[3]);
        writer.push(self.padding[4]);
        proof {
            assert(final(writer)@ =~= old(writer)@ + self.wire());
        }
        Ok(())
    }

    fn read_from(&mut self, reader: &mut ByteReader) -> (r: Result<(), RdpError>) {
        let r = self.read_from_buffer(reader);
        proof {
            if r.is_ok() {
                assert(old(reader).remaining()
                    =~= old(reader).remaining().take(7) + old(reader).remaining().skip(7));
            }
        }
        r
    }
}

/// Credential mode
#[derive(Copy, Clone, PartialEq, Eq, Structural, Debug)]
pub enum RequestMode {
    /// Restricted admin mode
    /// Use to auth only with NLA mode
    /// Protect against crendential forward
    RestrictedAdminModeRequired,
    /// New feature present in lastest windows 10
    /// Can't support acctually
    RedirectedAuthenticationModeRequired,
    CorrelationInfoPresent,
}

impl RequestMode {
    /// Flag value of this request mode.
    pub open spec fn spec_to_u8(self) -> u8 {
        match self {
            RequestMode::RestrictedAdminModeRequired => 0x01,
            RequestMode::RedirectedAuthenticationModeRequired => 0x02,
            RequestMode::CorrelationInfoPresent => 0x08,
        }
    }

    /// Flag value of this request mode.
    pub fn to_u8(self) -> (r: u8)
        ensures
            r == self.spec_to_u8(),
    {
        match self {
            RequestMode::RestrictedAdminModeRequired => 0x01,
            RequestMode::RedirectedAuthenticationModeRequired => 0x02,
            RequestMode::CorrelationInfoPresent => 0x08,
        }
    }
}

/// Security-negotiation block: a message-type byte, a flags byte, a
/// little-endian length that is the protocol constant 8 whatever the
/// content, and a little-endian bitmask of security protocols.
pub struct RdpNegRequest {
    pub tpe: u8,
    pub flags: u8,
    pub length: U16,
    pub protocols: U32,
}

impl RdpNegRequest {
    pub fn new(tpe: Option<NegotiationType>, flags: Option<u8>, protocols: Option<u32>) -> (r:
        Self)
        ensures
            r.tpe == (match tpe {
                Some(t) => t.spec_to_u8(),
                None => NegotiationType::TypeRDPNegReq.spec_to_u8(),
            }),
            r.flags == (match flags {
                Some(f) => f,
                None => 0u8,
            }),
            r.length == Value::<u16>::LE(8),
            r.protocols == Value::<u32>::LE(match protocols {
                Some(p) => p,
                None => 0u32,
            }),
            r.wire() == seq![r.tpe, r.flags, 8u8, 0u8] + le32_bytes(r.protocols.spec_inner()),
    {
        let r = Self {
            tpe: match tpe {
                Some(t) => t.to_u8(),
                None => NegotiationType::TypeRDPNegReq.to_u8(),
            },
            flags: match flags {
                Some(f) => f,
                None => 0,
            },
            length: Value::LE(0x0008),
            protocols: Value::LE(match protocols {
                Some(p) => p,
                None => 0,
            }),
        };
        proof {
            assert((8u16 & 0xff) as u8 == 8u8 && (8u16 >> 8) as u8 == 0u8) by (bit_vector);
            assert(r.wire() =~= seq![r.tpe, r.flags, 8u8, 0u8]
                + le32_bytes(r.protocols.spec_inner()));
        }
        r
    }

    /// Decode from a buffer, taking every field from the wire as it
    /// stands; a short buffer leaves everything untouched.
    pub fn read_from_buffer(&mut self, buffer: &mut ByteReader) -> (r: Result<(), RdpError>)
        ensures
            r.is_ok() <==> old(buffer).remaining().len() >= 8,
            r.is_ok() ==> ({
                let rem = old(buffer).remaining();
                &&& final(self).tpe == rem[0]
                &&& final(self).flags == rem[1]
                &&& final(self).length == Value::<u16>::LE(le16_value(rem[2], rem[3]))
                &&& final(self).protocols == Value::<u32>::LE(
                    le32_value(rem[4], rem[5], rem[6], rem[7]),
                )
                &&& final(buffer).remaining() == rem.skip(8)
            }),
            r.is_err() ==> r == Err::<(), RdpError>(RdpError::Io)
                && *final(self) == *old(self) && *final(buffer) == *old(buffer),
    {
        if buffer.remaining_len() < 8 {
            return Err(RdpError::Io);
        }
        let tpe = match buffer.read_u8() {
            Ok(v) => v,
            Err(e) => { return Err(e); }
        };
        let flags = match buffer.read_u8() {
            Ok(v) => v,
            Err(e) => { return Err(e); }
        };
        let length = match buffer.read_u16_le() {
            Ok(v) => v,
            Err(e) => { return Err(e); }
        };
        let protocols = match buffer.read_u32_le() {
            Ok(v) => v,
            Err(e) => { return Err(e); }
        };
        self.tpe = tpe;
        self.flags = flags;
        self.length = Value::LE(length);
        self.protocols = Value::LE(protocols);
        Ok(())
    }
}

impl Message for RdpNegRequest {
    open spec fn wire(&self) -> Seq<u8> {
        seq![self.tpe, self.flags] + self.length.wire() + self.protocols.wire()
    }

    fn length(&self) -> (r: usize) {
        8
    }

    fn write_to(&self, writer: &mut Vec<u8>) -> (r: Result<(), RdpError>) {
        writer.push(self.tpe);
        writer.push(self.flags);
        let _ = self.length.write_to(writer);
        let _ = self.protocols.write_to(writer);
        proof {
            assert(final(writer)@ =~= old(writer)@ + self.wire());
        }
        Ok(())
    }

    fn read_from(&mut self, reader: &mut ByteReader) -> (r: Result<(), RdpError>) {
        let r = self.read_from_buffer(reader);
        proof {
            if r.is_ok() {
                let rem = old(reader).remaining();
                lemma_le16_round(0, rem[2], rem[3]);
                lemma_le32_round(0, rem[4], rem[5], rem[6], rem[7]);
                assert(old(reader).remaining()
                    =~= final(self).wire() + final(reader).remaining());
            }
        }
        r
    }
}

/// Connection PDU
/// Include nego for security protocols
/// And restricted administration mode
pub struct X224ConnectionPDU {
    pub header: X224CRQ,
    pub negotiation: RdpNegRequest,
}

impl X224ConnectionPDU {
    /// A blank PDU ready to be filled by decode.
    pub fn new() -> (r: Self)
        ensures
            r.header.wire() == seq![6u8, 0xD0u8, 0u8, 0u8, 0u8, 0u8, 0u8],
            r.negotiation.tpe == 1u8,
            r.negotiation.flags == 0u8,
            r.negotiation.length == Value::<u16>::LE(8),
            r.negotiation.protocols == Value::<u32>::LE(0),
            r.wire().len() == 15,
    {
        let r = Self {
            header: X224CRQ::new(0, MessageType::X224TPDUConnectionConfirm),
            negotiation: RdpNegRequest::new(None, None, None),
        };
        r
    }

    /// Decode envelope then negotiation block, in their declared
    /// order; a short buffer leaves everything untouched.
    pub fn read_from_buffer(&mut self, buffer: &mut ByteReader) -> (r: Result<(), RdpError>)
        ensures
            r.is_ok() <==> old(buffer).remaining().len() >= 15,
            r.is_ok() ==> ({
                let rem = old(buffer).remaining();
                &&& final(self).header.wire() == rem.take(7)
                &&& final(self).negotiation.tpe == rem[7]
                &&& final(self).negotiation.flags == rem[8]
                &&& final(self).negotiation.length == Value::<u16>::LE(
                    le16_value(rem[9], rem[10]),
                )
                &&& final(self).negotiation.protocols == Value::<u32>::LE(
                    le32_value(rem[11], rem[12], rem[13], rem[14]),
                )
                &&& final(buffer).remaining() == rem.skip(15)
            }),
            r.is_err() ==> r == Err::<(), RdpError>(RdpError::Io)
                && *final(self) == *old(self) && *final(buffer) == *old(buffer),
    {
        if buffer.remaining_len() < 15 {
            return Err(RdpError::Io);
        }
        match self.header.read_from_buffer(buffer) {
            Ok(()) => {}
            Err(e) => { return Err(e); }
        }
        match self.negotiation.read_from_buffer(buffer) {
            Ok(()) => {}
            Err(e) => { return Err(e); }
        }
        proof {
            let rem = old(buffer).remaining();
            assert(rem.skip(7).skip(8) =~= rem.skip(15));
            assert(rem.skip(7)[0] == rem[7]);
            assert(rem.skip(7)[1] == rem[8]);
            assert(rem.skip(7)[2] == rem[9]);
            assert(rem.skip(7)[3] == rem[10]);
            assert(rem.skip(7)[4] == rem[11]);
            assert(rem.skip(7)[5] == rem[12]);
            assert(rem.skip(7)[6] == rem[13]);
            assert(rem.skip(7)[7] == rem[14]);
        }
        Ok(())
    }
}

impl Message for X224ConnectionPDU {
    open spec fn wire(&self) -> Seq<u8> {
        self.header.wire() + self.negotiation.wire()
    }

    fn length(&self) -> (r: usize) {
        self.header.length() + self.negotiation.length()
    }

    fn write_to(&self, writer: &mut Vec<u8>) -> (r: Result<(), RdpError>) {
        let _ = self.header.write_to(writer);
        let _ = self.negotiation.write_to(writer);
        proof {
            assert(final(writer)@ =~= old(writer)@ + self.wire());
        }
        Ok(())
    }

    fn read_from(&mut self, reader: &mut ByteReader) -> (r: Result<(), RdpError>) {
        let r = self.read_from_buffer(reader);
        proof {
            if r.is_ok() {
                let rem = old(reader).remaining();
                lemma_le16_round(0, rem[9], rem[10]);
                lemma_le32_round(0, rem[11], rem[12], rem[13], rem[14]);
                assert(old(reader).remaining()
                    =~= final(self).wire() + final(reader).remaining());
            }
        }
        r
    }
}

/// How a connection-confirm negotiation block is to be acted on, as a
/// function of its message-type byte and its protocol bitmask alone.
#[derive(Copy, Clone, PartialEq, Eq, Structural, Debug)]
pub enum NegotiationOutcome {
    /// A response selecting exactly one recognized protocol.
    Selected(Protocols),
    /// An explicit failure response: the server rejected the proposed
    /// protocol set.
    NegotiationFailure,
    /// An implicit refusal: a request type echoed back, or a response
    /// whose bitmask resolves to no known protocol.
    Refused,
    /// A negotiation-message type that is neither request, response
    /// nor failure.
    Unrecognized,
}

/// The outcome a negotiation block prescribes: total over every
/// type byte and bitmask, so the mapping is exhaustive and
/// deterministic.
pub open spec fn spec_negotiation_outcome(tpe: u8, bits: u32) -> NegotiationOutcome {
    match NegotiationType::spec_from_u8(tpe) {
        Some(NegotiationType::TypeRDPNegRsp) => match Protocols::spec_from_u32(bits) {
            Some(p) => NegotiationOutcome::Selected(p),
            None => NegotiationOutcome::Refused,
        },
        Some(NegotiationType::TypeRDPNegFailure) => NegotiationOutcome::NegotiationFailure,
        Some(NegotiationType::TypeRDPNegReq) => NegotiationOutcome::Refused,
        None => NegotiationOutcome::Unrecognized,
    }
}

/// Decide what a received negotiation block's type byte and protocol
/// bitmask call for.
pub fn negotiation_outcome(tpe: u8, bits: u32) -> (r: NegotiationOutcome)
    ensures
        r == spec_negotiation_outcome(tpe, bits),
{
    match NegotiationType::from_u8(tpe) {
        Some(NegotiationType::TypeRDPNegRsp) => match Protocols::from_u32(bits) {
            Some(p) => NegotiationOutcome::Selected(p),
            None => NegotiationOutcome::Refused,
        },
        Some(NegotiationType::TypeRDPNegFailure) => NegotiationOutcome::NegotiationFailure,
        Some(NegotiationType::TypeRDPNegReq) => NegotiationOutcome::Refused,
        None => NegotiationOutcome::Unrecognized,
    }
}

/// The negotiation outcome mapping is exhaustive and deterministic:
/// a response selecting the plain protocol establishes it, a response
/// with an unknown bitmask refuses, an explicit failure fails, an
/// echoed request refuses, and every other type byte is unrecognized.
pub proof fn lemma_negotiation_outcome_cases(tpe: u8, bits: u32)
    ensures
        tpe == 0x02 && bits == 0x00 ==> spec_negotiation_outcome(tpe, bits)
            == NegotiationOutcome::Selected(Protocols::ProtocolRDP),
        tpe == 0x02 && Protocols::spec_from_u32(bits) is None
            ==> spec_negotiation_outcome(tpe, bits) == NegotiationOutcome::Refused,
        tpe == 0x03 ==> spec_negotiation_outcome(tpe, bits)
            == NegotiationOutcome::NegotiationFailure,
        tpe == 0x01 ==> spec_negotiation_outcome(tpe, bits) == NegotiationOutcome::Refused,
        tpe != 0x01 && tpe != 0x02 && tpe != 0x03 ==> spec_negotiation_outcome(tpe, bits)
            == NegotiationOutcome::Unrecognized,
{
}

/// The bytes one negotiation connect puts on the wire: a slow-path
/// frame holding the connection-request envelope and a
/// negotiation-request block advertising `protocols` under flag byte
/// `mode`.
pub open spec fn connection_request_frame(protocols: u32, mode: u8) -> Seq<u8> {
    tpkt_frame(
        seq![14u8, 0xE0u8, 0u8, 0u8, 0u8, 0u8, 0u8, 1u8, mode, 8u8, 0u8]
            + le32_bytes(protocols),
    )
}

/// What the connection-confirm step returns when the stream delivers
/// `s`: the selected protocol, or the error that the frame, the PDU or
/// the negotiation block dictates.
pub open spec fn confirm_outcome(s: Seq<u8>) -> Result<Protocols, RdpError> {
    match parse_frame(s) {
        FrameParse::Raw { payload, used } => {
            if payload.len() < 15 {
                Err(RdpError::DecodeError)
            } else {
                match spec_negotiation_outcome(
                    payload[7],
                    le32_value(payload[11], payload[12], payload[13], payload[14]),
                ) {
                    NegotiationOutcome::Selected(p) => Ok(p),
                    NegotiationOutcome::NegotiationFailure => Err(RdpError::NegotiationError),
                    NegotiationOutcome::Refused => Err(RdpError::ProtocolRefused),
                    NegotiationOutcome::Unrecognized => Err(RdpError::DecodeError),
                }
            }
        }
        FrameParse::FastPath { flags, payload, used } => Err(RdpError::DecodeError),
        FrameParse::Malformed => Err(RdpError::MalformedFrame),
        FrameParse::SizeViolation => Err(RdpError::SizeViolation),
        FrameParse::Truncated => Err(RdpError::Io),
    }
}

/// x224 client
pub struct X224Client<S> {
    /// Transport layer, x224 use a tpkt
    transport: TpktClient<S>,
    /// Security selected protocol by the connector
    selected_protocol: Protocols,
}

impl<S: Transport> X224Client<S> {
    /// The owned stream, for specification purposes.
    pub closed spec fn stream(self) -> S {
        self.transport.stream()
    }

    /// The protocol negotiation settled on, for specification
    /// purposes.
    pub closed spec fn selected(self) -> Protocols {
        self.selected_protocol
    }

    /// Constructor use by the connector
    pub fn new(transport: TpktClient<S>, selected_protocol: Protocols) -> (r: Self)
        ensures
            r.stream() == transport.stream(),
            r.selected() == selected_protocol,
    {
        Self { transport, selected_protocol }
    }

    /// Give the framing layer back, ending this layer's ownership.
    pub fn into_transport(self) -> (r: TpktClient<S>)
        ensures
            r.stream() == self.stream(),
    {
        self.transport
    }

    /// Send a message with the connection-data header prepended, as
    /// one slow-path frame.
    pub fn write<T: Message>(&mut self, message: T) -> (r: Result<(), RdpError>)
        requires
            message.wire().len() + 7 <= 0xFFFF,
        ensures
            final(self).stream().obeys_model() == old(self).stream().obeys_model(),
            final(self).stream().to_recv() == old(self).stream().to_recv(),
            final(self).selected() == old(self).selected(),
            r.is_ok() ==> final(self).stream().sent() == old(self).stream().sent()
                + tpkt_frame(seq![2u8, 0xF0u8, 0x80u8] + message.wire()),
            old(self).stream().obeys_model() ==> r.is_ok(),
            r.is_err() ==> r == Err::<(), RdpError>(RdpError::Io),
    {
        let header = X224Header::new();
        let mut body: Vec<u8> = Vec::new();
        let _ = header.write_to(&mut body);
        let _ = message.write_to(&mut body);
        proof {
            assert(body@ =~= seq![2u8, 0xF0u8, 0x80u8] + message.wire());
        }
        self.transport.write(body)
    }

    /// Read one payload: a slow-path frame has the 4 leading
    /// connection-data bytes discarded, a fast-path frame passes
    /// through unchanged.
    pub fn read(&mut self) -> (r: Result<Payload, RdpError>)
        ensures
            final(self).stream().obeys_model() == old(self).stream().obeys_model(),
            final(self).stream().sent() == old(self).stream().sent(),
            final(self).selected() == old(self).selected(),
            ({
                let s = old(self).stream().to_recv();
                let obeys = old(self).stream().obeys_model();
                match parse_frame(s) {
                    FrameParse::Raw { payload, used } => {
                        &&& (payload.len() >= 4 ==> {
                            &&& (r matches Ok(p) ==> p matches Payload::Raw(v)
                                && v@ == payload.skip(4)
                                && final(self).stream().to_recv() == s.skip(used))
                            &&& (r.is_err() ==> r == Err::<Payload, RdpError>(RdpError::Io))
                            &&& (obeys ==> r.is_ok())
                        })
                        &&& (payload.len() < 4 ==> {
                            &&& r.is_err()
                            &&& (r == Err::<Payload, RdpError>(RdpError::SizeViolation)
                                || r == Err::<Payload, RdpError>(RdpError::Io))
                            &&& (obeys ==> r == Err::<Payload, RdpError>(
                                RdpError::SizeViolation,
                            ))
                        })
                    }
                    FrameParse::FastPath { flags, payload, used } => {
                        &&& (r matches Ok(p) ==> p matches Payload::FastPath(f, v)
                            && f == flags && v@ == payload
                            && final(self).stream().to_recv() == s.skip(used))
                        &&& (r.is_err() ==> r == Err::<Payload, RdpError>(RdpError::Io))
                        &&& (obeys ==> r.is_ok())
                    }
                    FrameParse::Malformed => {
                        &&& r.is_err()
                        &&& (r == Err::<Payload, RdpError>(RdpError::MalformedFrame)
                            || r == Err::<Payload, RdpError>(RdpError::Io))
                        &&& (obeys ==> r == Err::<Payload, RdpError>(RdpError::MalformedFrame))
                    }
                    FrameParse::SizeViolation => {
                        &&& r.is_err()
                        &&& (r == Err::<Payload, RdpError>(RdpError::SizeViolation)
                            || r == Err::<Payload, RdpError>(RdpError::Io))
                        &&& (obeys ==> r == Err::<Payload, RdpError>(RdpError::SizeViolation))
                    }
                    FrameParse::Truncated => {
                        r == Err::<Payload, RdpError>(RdpError::Io)
                    }
                }
            }),
    {
        let s = match self.transport.read() {
            Ok(p) => p,
            Err(e) => { return Err(e); }
        };
        match s {
            Payload::Raw(payload) => {
                // Discard the 4 leading connection-data bytes; they
                // carry nothing once the session is established.
                let n = payload.len();
                if n < 4 {
                    return Err(RdpError::SizeViolation);
                }
                let mut reader = ByteReader::new(payload);
                let _ = match reader.read_u32_be() {
                    Ok(v) => v,
                    Err(e) => { return Err(e); }
                };
                match reader.read_bytes(n - 4) {
                    Ok(rest) => {
                        proof {
                            let s0 = old(self).stream().to_recv();
                            if let FrameParse::Raw { payload: pl, used } = parse_frame(s0) {
                                assert(pl.skip(4) =~= pl.subrange(4, pl.len() as int));
                                assert(rest@ =~= pl.skip(4));
                            }
                        }
                        Ok(Payload::Raw(rest))
                    }
                    Err(e) => Err(e),
                }
            }
            Payload::FastPath(flag, payload) => Ok(Payload::FastPath(flag, payload)),
        }
    }

    /// Send connection request
    pub fn write_connection_request(
        client: &mut TpktClient<S>,
        security_protocols: u32,
        mode: Option<u8>,
    ) -> (r: Result<(), RdpError>)
        ensures
            final(client).stream().obeys_model() == old(client).stream().obeys_model(),
            final(client).stream().to_recv() == old(client).stream().to_recv(),
            r.is_ok() ==> final(client).stream().sent() == old(client).stream().sent()
                + connection_request_frame(security_protocols, match mode {
                    Some(m) => m,
                    None => 0u8,
                }),
            old(client).stream().obeys_model() ==> r.is_ok(),
            r.is_err() ==> r == Err::<(), RdpError>(RdpError::Io),
    {
        let body = RdpNegRequest::new(
            Some(NegotiationType::TypeRDPNegReq),
            mode,
            Some(security_protocols),
        );
        let header = X224CRQ::new(body.length() as u8, MessageType::X224TPDUConnectionRequest);
        let pdu = X224ConnectionPDU { header, negotiation: body };
        proof {
            assert(pdu.wire() =~= seq![14u8, 0xE0u8, 0u8, 0u8, 0u8, 0u8, 0u8, 1u8, (match mode {
                Some(m) => m,
                None => 0u8,
            }), 8u8, 0u8] + le32_bytes(security_protocols));
        }
        client.write(pdu)
    }

    /// Expect a connection confirm payload and decide what it calls
    /// for: the selected protocol on a recognized response, otherwise
    /// the error the frame or the block dictates.
    pub fn read_connection_confirm(client: &mut TpktClient<S>) -> (r: Result<
        Protocols,
        RdpError,
    >)
        ensures
            final(client).stream().obeys_model() == old(client).stream().obeys_model(),
            final(client).stream().sent() == old(client).stream().sent(),
            old(client).stream().obeys_model() ==> r == confirm_outcome(
                old(client).stream().to_recv(),
            ),
            r.is_ok() ==> confirm_outcome(old(client).stream().to_recv())
                == Ok::<Protocols, RdpError>(r.unwrap()),
    {
        let buffer = match client.read() {
            Ok(Payload::Raw(p)) => p,
            Ok(Payload::FastPath(_, _)) => { return Err(RdpError::DecodeError); }
            Err(e) => { return Err(e); }
        };

        let mut pdu = X224ConnectionPDU::new();
        let mut reader = ByteReader::new(buffer);
        match pdu.read_from_buffer(&mut reader) {
            Ok(()) => (),
            Err(_) => { return Err(RdpError::DecodeError); }
        }

        match negotiation_outcome(pdu.negotiation.tpe, pdu.negotiation.protocols.inner()) {
            NegotiationOutcome::Selected(p) => Ok(p),
            NegotiationOutcome::NegotiationFailure => Err(RdpError::NegotiationError),
            NegotiationOutcome::Refused => Err(RdpError::ProtocolRefused),
            NegotiationOutcome::Unrecognized => Err(RdpError::DecodeError),
        }
    }

    /// Launch the connection sequence: send the connection request
    /// advertising `security_protocols`, read the confirm, and either
    /// establish the plain protocol, report that a selected protocol
    /// awaits an outside upgrade, or fail as the confirm dictates.
    pub fn connect(
        client: TpktClient<S>,
        security_protocols: u32,
        restricted_admin_mode: bool,
    ) -> (r: Result<X224Client<S>, RdpError>)
        ensures
            r matches Ok(c) ==> c.selected() == Protocols::ProtocolRDP
                && confirm_outcome(client.stream().to_recv())
                    == Ok::<Protocols, RdpError>(Protocols::ProtocolRDP)
                && c.stream().sent() == client.stream().sent()
                    + connection_request_frame(security_protocols, if restricted_admin_mode {
                    1u8
                } else {
                    0u8
                }),
            client.stream().obeys_model() ==> match confirm_outcome(client.stream().to_recv()) {
                Ok(p) => if p == Protocols::ProtocolRDP {
                    r.is_ok()
                } else {
                    r == Err::<X224Client<S>, RdpError>(RdpError::UpgradeRequired(p))
                },
                Err(e) => r == Err::<X224Client<S>, RdpError>(e),
            },
    {
        let mut client = client;
        let mode: u8 = if restricted_admin_mode {
            RequestMode::RestrictedAdminModeRequired.to_u8()
        } else {
            0
        };
        match Self::write_connection_request(&mut client, security_protocols, Some(mode)) {
            Ok(()) => (),
            Err(e) => { return Err(e); }
        }

        match Self::read_connection_confirm(&mut client) {
            Ok(Protocols::ProtocolRDP) => Ok(X224Client::new(client, Protocols::ProtocolRDP)),
            Ok(p) => Err(RdpError::UpgradeRequired(p)),
            Err(e) => Err(e),
        }
    }

    /// Getter for selected protocols
    pub fn get_selected_protocols(&self) -> (r: Protocols)
        ensures
            r == self.selected(),
    {
        self.selected_protocol
    }

    /// Shutdown current connection
    pub fn shutdown(&mut self) -> (r: Result<(), RdpError>) {
        self.transport.shutdown()
    }
}

} // verus!
