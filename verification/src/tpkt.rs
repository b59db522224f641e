//! Framing layer: owns the raw byte stream, writes outbound data
//! behind a 4-byte envelope, and on read splits the legacy enveloped
//! format from the compact fast-path format by the leading action
//! byte.

use vstd::prelude::*;
use crate::data::{be16_bytes, be16_value, lemma_be16_round, ByteReader, Message};
use crate::error::RdpError;
use crate::stream::Transport;

verus! {

/// The two outcomes of one frame read: a payload carried inside a
/// slow-path envelope, or one carried in the compact encoding together
/// with its 2-bit security-flags value. Exactly one variant is
/// produced per frame.
#[derive(Debug)]
pub enum Payload {
    Raw(Vec<u8>),
    FastPath(u8, Vec<u8>),
}

/// TPKT action header
#[derive(Copy, Clone, PartialEq, Eq, Structural, Debug)]
pub enum Action {
    FastPathActionFastPath,
    FastPathActionX224,
}

impl Action {
    /// Wire value of this action.
    pub open spec fn spec_to_u8(self) -> u8 {
        match self {
            Action::FastPathActionFastPath => 0x0,
            Action::FastPathActionX224 => 0x3,
        }
    }

    /// Wire value of this action.
    pub fn to_u8(self) -> (r: u8)
        ensures
            r == self.spec_to_u8(),
    {
        match self {
            Action::FastPathActionFastPath => 0x0,
            Action::FastPathActionX224 => 0x3,
        }
    }

    /// The action a leading byte stands for, if it is recognized.
    pub open spec fn spec_from_u8(v: u8) -> Option<Action> {
        if v == 0x0 {
            Some(Action::FastPathActionFastPath)
        } else if v == 0x3 {
            Some(Action::FastPathActionX224)
        } else {
            None
        }
    }

    /// Decode a leading action byte; anything unrecognized is
    /// rejected, never guessed at.
    pub fn try_from_u8(v: u8) -> (r: Option<Action>)
        ensures
            r == Action::spec_from_u8(v),
    {
        match v {
            0x0 => Some(Action::FastPathActionFastPath),
            0x3 => Some(Action::FastPathActionX224),
            _ => None,
        }
    }
}

/// Slow-path frame envelope: action byte, one reserved flag byte, and
/// a big-endian total frame length that counts the envelope itself.
pub struct TpktHeader {
    pub action: u8,
    pub flag: u8,
    pub size: u16,
}

impl Message for TpktHeader {
    open spec fn wire(&self) -> Seq<u8> {
        seq![self.action, self.flag] + be16_bytes(self.size)
    }

    fn length(&self) -> (r: usize) {
        4
    }

    fn write_to(&self, writer: &mut Vec<u8>) -> (r: Result<(), RdpError>) {
        writer.push(self.action);
        writer.push(self.flag);
        writer.push(((self.size >> 8) & 0xff) as u8);
        writer.push((self.size & 0xff) as u8);
        proof {
            let sz = self.size;
            assert((sz >> 8) & 0xff == sz >> 8) by (bit_vector);
            assert(final(writer)@ =~= old(writer)@ + self.wire());
        }
        Ok(())
    }

    fn read_from(&mut self, reader: &mut ByteReader) -> (r: Result<(), RdpError>) {
        if reader.remaining_len() < 4 {
            return Err(RdpError::Io);
        }
        let action = match reader.read_u8() {
            Ok(v) => v,
            Err(e) => { return Err(e); }
        };
        let flag = match reader.read_u8() {
            Ok(v) => v,
            Err(e) => { return Err(e); }
        };
        let size = match reader.read_u16_be() {
            Ok(v) => v,
            Err(e) => { return Err(e); }
        };
        self.action = action;
        self.flag = flag;
        self.size = size;
        proof {
            lemma_be16_round(size, old(reader).remaining()[2], old(reader).remaining()[3]);
            assert(old(reader).remaining()
                =~= final(self).wire() + final(reader).remaining());
        }
        Ok(())
    }
}

/// What one frame at the front of a byte stream parses to: a frame
/// with its payload and the number of stream bytes it occupies, a
/// rejection, or the finding that the stream holds less than a whole
/// frame.
pub enum FrameParse {
    Raw { payload: Seq<u8>, used: int },
    FastPath { flags: u8, payload: Seq<u8>, used: int },
    Malformed,
    SizeViolation,
    Truncated,
}

/// Parse one frame from the front of `s`, exactly as the framing
/// layer's read path behaves on a stream that delivers `s`.
pub open spec fn parse_frame(s: Seq<u8>) -> FrameParse {
    if s.len() < 1 {
        FrameParse::Truncated
    } else if s[0] == 0x3 {
        if s.len() < 4 {
            FrameParse::Truncated
        } else {
            let size = be16_value(s[2], s[3]);
            if size < 4 {
                FrameParse::SizeViolation
            } else if s.len() < size {
                FrameParse::Truncated
            } else {
                FrameParse::Raw { payload: s.subrange(4, size as int), used: size as int }
            }
        }
    } else if s[0] == 0x0 {
        if s.len() < 2 {
            FrameParse::Truncated
        } else if s[1] & 0x80 == 0 {
            if s[1] < 2 {
                FrameParse::SizeViolation
            } else if s.len() < s[1] {
                FrameParse::Truncated
            } else {
                FrameParse::FastPath {
                    flags: ((s[0] >> 6) & 0x3) as u8,
                    payload: s.subrange(2, s[1] as int),
                    used: s[1] as int,
                }
            }
        } else {
            if s.len() < 3 {
                FrameParse::Truncated
            } else {
                let len = (((s[1] & 0x7f) as u16) << 8) | (s[2] as u16);
                if len < 3 {
                    FrameParse::SizeViolation
                } else if s.len() < len {
                    FrameParse::Truncated
                } else {
                    FrameParse::FastPath {
                        flags: ((s[0] >> 6) & 0x3) as u8,
                        payload: s.subrange(3, len as int),
                        used: len as int,
                    }
                }
            }
        }
    } else {
        FrameParse::Malformed
    }
}

/// Slow-path length handling: a declared total length smaller than the
/// envelope's own 4 bytes is a size violation, and any other declared
/// length yields exactly the bytes after the envelope as the payload.
pub proof fn lemma_slowpath_length(s: Seq<u8>)
    requires
        s.len() >= 4,
        s[0] == 0x3,
    ensures
        be16_value(s[2], s[3]) < 4 ==> parse_frame(s) == FrameParse::SizeViolation,
        be16_value(s[2], s[3]) >= 4 && s.len() >= be16_value(s[2], s[3])
            ==> (parse_frame(s) matches FrameParse::Raw { payload, used }
                && payload == s.subrange(4, be16_value(s[2], s[3]) as int)
                && payload.len() == be16_value(s[2], s[3]) - 4
                && used == be16_value(s[2], s[3])),
{
}

/// Fast-path short-length handling: a length byte with its high bit
/// clear is the whole declared length; below 2 it is rejected as a
/// size violation, and otherwise the payload is the declared length
/// minus the 2 header bytes.
pub proof fn lemma_fastpath_short_length(s: Seq<u8>)
    requires
        s.len() >= 2,
        s[0] == 0x0,
        s[1] & 0x80 == 0,
    ensures
        s[1] < 2 ==> parse_frame(s) == FrameParse::SizeViolation,
        s[1] >= 2 && s.len() >= s[1]
            ==> (parse_frame(s) matches FrameParse::FastPath { flags, payload, used }
                && flags == 0
                && payload == s.subrange(2, s[1] as int)
                && payload.len() == s[1] - 2
                && used == s[1]),
{
    assert((0u8 >> 6) & 0x3 == 0) by (bit_vector);
}

/// Fast-path long-length handling: with the high bit of the first
/// length byte set, the declared length is its low 7 bits shifted left
/// 8 combined with the second byte; below 3 it is rejected as a size
/// violation, and otherwise the payload is the declared length minus
/// the 3 header bytes.
pub proof fn lemma_fastpath_long_length(s: Seq<u8>)
    requires
        s.len() >= 3,
        s[0] == 0x0,
        s[1] & 0x80 != 0,
    ensures
        ({
            let declared = (((s[1] & 0x7f) as u16) << 8) | (s[2] as u16);
            &&& (declared < 3 ==> parse_frame(s) == FrameParse::SizeViolation)
            &&& (declared >= 3 && s.len() >= declared
                ==> (parse_frame(s) matches FrameParse::FastPath { flags, payload, used }
                    && flags == 0
                    && payload == s.subrange(3, declared as int)
                    && payload.len() == declared - 3
                    && used == declared))
        }),
{
    assert((0u8 >> 6) & 0x3 == 0) by (bit_vector);
}

/// The bytes one slow-path write puts on the wire for a message body:
/// the 4-byte envelope, then the body.
pub open spec fn tpkt_frame(body: Seq<u8>) -> Seq<u8> {
    seq![0x3u8, 0x0u8] + be16_bytes((body.len() + 4) as u16) + body
}

/// Client Context of TPKT layer
pub struct TpktClient<S> {
    transport: S,
}

impl<S: Transport> TpktClient<S> {
    /// The owned stream, for specification purposes.
    pub closed spec fn stream(self) -> S {
        self.transport
    }

    /// Create a new Client based on a low level connection instance
    pub fn new(transport: S) -> (r: Self)
        ensures
            r.stream() == transport,
    {
        TpktClient { transport }
    }

    /// Give the stream back, ending the framing layer's ownership.
    pub fn into_transport(self) -> (r: S)
        ensures
            r == self.stream(),
    {
        self.transport
    }

    /// Send a message to the link layer with the slow-path envelope:
    /// the declared total length is the message length plus the
    /// envelope's own 4 bytes.
    pub fn write<T: Message>(&mut self, message: T) -> (r: Result<(), RdpError>)
        requires
            message.wire().len() + 4 <= 0xFFFF,
        ensures
            final(self).stream().obeys_model() == old(self).stream().obeys_model(),
            final(self).stream().to_recv() == old(self).stream().to_recv(),
            r.is_ok() ==> final(self).stream().sent()
                == old(self).stream().sent() + tpkt_frame(message.wire()),
            old(self).stream().obeys_model() ==> r.is_ok(),
            r.is_err() ==> r == Err::<(), RdpError>(RdpError::Io),
    {
        let len = message.length();
        let header = TpktHeader {
            action: Action::FastPathActionX224.to_u8(),
            flag: 0,
            size: (len + 4) as u16,
        };
        let mut buffer: Vec<u8> = Vec::new();
        let _ = header.write_to(&mut buffer);
        let _ = message.write_to(&mut buffer);
        proof {
            assert(buffer@ =~= tpkt_frame(message.wire()));
        }
        self.transport.write_all(&buffer)
    }

    /// Read a payload from the underlying layer: check the leading
    /// action byte and return a well formed payload, behaving on the
    /// delivered bytes exactly as `parse_frame` says.
    pub fn read(&mut self) -> (r: Result<Payload, RdpError>)
        ensures
            final(self).stream().obeys_model() == old(self).stream().obeys_model(),
            final(self).stream().sent() == old(self).stream().sent(),
            ({
                let s = old(self).stream().to_recv();
                let obeys = old(self).stream().obeys_model();
                match parse_frame(s) {
                    FrameParse::Raw { payload, used } => {
                        &&& (r matches Ok(p) ==> p matches Payload::Raw(v) && v@ == payload
                            && final(self).stream().to_recv() == s.skip(used))
                        &&& (r.is_err() ==> r == Err::<Payload, RdpError>(RdpError::Io))
                        &&& (obeys ==> r.is_ok())
                    }
                    FrameParse::FastPath { flags, payload, used } => {
                        &&& (r matches Ok(p) ==> p matches Payload::FastPath(f, v)
                            && f == flags && v@ == payload
                            && final(self).stream().to_recv() == s.skip(used))
                        &&& (r.is_err() ==> r == Err::<Payload, RdpError>(RdpError::Io))
                        &&& (obeys ==> r.is_ok())
                    }
                    FrameParse::Malformed => {
                        &&& r.is_err()
                        &&& (r == Err::<Payload, RdpError>(RdpError::MalformedFrame)
                            || r == Err::<Payload, RdpError>(RdpError::Io))
                        &&& (obeys ==> r == Err::<Payload, RdpError>(RdpError::MalformedFrame))
                    }
                    FrameParse::SizeViolation => {
                        &&& r.is_err()
                        &&& (r == Err::<Payload, RdpError>(RdpError::SizeViolation)
                            || r == Err::<Payload, RdpError>(RdpError::Io))
                        &&& (obeys ==> r == Err::<Payload, RdpError>(RdpError::SizeViolation))
                    }
                    FrameParse::Truncated => {
                        r == Err::<Payload, RdpError>(RdpError::Io)
                    }
                }
            }),
    {
        let action_byte = match self.transport.read_u8() {
            Ok(b) => b,
            Err(e) => { return Err(e); }
        };
        let action = match Action::try_from_u8(action_byte) {
            Some(a) => a,
            None => { return Err(RdpError::MalformedFrame); }
        };

        match action {
            Action::FastPathActionX224 => {
                let _padding = match self.transport.read_u8() {
                    Ok(b) => b,
                    Err(e) => { return Err(e); }
                };
                let size = match self.transport.read_u16() {
                    Ok(v) => v,
                    Err(e) => { return Err(e); }
                };
                if size < 4 {
                    return Err(RdpError::SizeViolation);
                }
                match self.transport.read_exact((size - 4) as usize) {
                    Ok(buffer) => Ok(Payload::Raw(buffer)),
                    Err(e) => Err(e),
                }
            }
            Action::FastPathActionFastPath => {
                let sec_flag = (action_byte >> 6) & 0x3;
                let short_length = match self.transport.read_u8() {
                    Ok(b) => b,
                    Err(e) => { return Err(e); }
                };
                if short_length & 0x80 == 0 {
                    if short_length < 2 {
                        return Err(RdpError::SizeViolation);
                    }
                    match self.transport.read_exact((short_length - 2) as usize) {
                        Ok(buffer) => Ok(Payload::FastPath(sec_flag, buffer)),
                        Err(e) => Err(e),
                    }
                } else {
                    let hi_length = match self.transport.read_u8() {
                        Ok(b) => b,
                        Err(e) => { return Err(e); }
                    };
                    let length: u16 = (((short_length & 0x7f) as u16) << 8) | (hi_length as u16);
                    if length < 3 {
                        return Err(RdpError::SizeViolation);
                    }
                    match self.transport.read_exact((length - 3) as usize) {
                        Ok(buffer) => Ok(Payload::FastPath(sec_flag, buffer)),
                        Err(e) => Err(e),
                    }
                }
            }
        }
    }

    /// Shutdown current connection
    pub fn shutdown(&mut self) -> (r: Result<(), RdpError>) {
        self.transport.shutdown()
    }
}

} // verus!
