//! Binary value codec: endianness-tagged integer wrappers, a byte
//! reader over a buffer, and the `Message` contract every fixed-layout
//! wire structure implements.

use vstd::prelude::*;
use crate::error::RdpError;

verus! {

/// Big-endian bytes of a 16-bit value: most significant byte first.
pub open spec fn be16_bytes(v: u16) -> Seq<u8> {
    seq![(v >> 8) as u8, (v & 0xff) as u8]
}

/// Little-endian bytes of a 16-bit value: least significant byte first.
pub open spec fn le16_bytes(v: u16) -> Seq<u8> {
    seq![(v & 0xff) as u8, (v >> 8) as u8]
}

/// Big-endian bytes of a 32-bit value.
pub open spec fn be32_bytes(v: u32) -> Seq<u8> {
    seq![
        ((v >> 24) & 0xff) as u8,
        ((v >> 16) & 0xff) as u8,
        ((v >> 8) & 0xff) as u8,
        (v & 0xff) as u8,
    ]
}

/// Little-endian bytes of a 32-bit value.
pub open spec fn le32_bytes(v: u32) -> Seq<u8> {
    seq![
        (v & 0xff) as u8,
        ((v >> 8) & 0xff) as u8,
        ((v >> 16) & 0xff) as u8,
        ((v >> 24) & 0xff) as u8,
    ]
}

/// The 16-bit value whose big-endian encoding is the two given bytes.
pub open spec fn be16_value(b0: u8, b1: u8) -> u16 {
    (((b0 as u16) << 8) | (b1 as u16)) as u16
}

/// The 16-bit value whose little-endian encoding is the two given bytes.
pub open spec fn le16_value(b0: u8, b1: u8) -> u16 {
    (((b1 as u16) << 8) | (b0 as u16)) as u16
}

/// The 32-bit value whose big-endian encoding is the four given bytes.
pub open spec fn be32_value(b0: u8, b1: u8, b2: u8, b3: u8) -> u32 {
    (((b0 as u32) << 24) | ((b1 as u32) << 16) | ((b2 as u32) << 8) | (b3 as u32)) as u32
}

/// The 32-bit value whose little-endian encoding is the four given bytes.
pub open spec fn le32_value(b0: u8, b1: u8, b2: u8, b3: u8) -> u32 {
    (((b3 as u32) << 24) | ((b2 as u32) << 16) | ((b1 as u32) << 8) | (b0 as u32)) as u32
}

/// All data type used
///
/// Allow us to retrieve correct data out of a decoded message tree.
pub enum DataType<'a> {
    /// Unsigned 32 bits integer
    U32(u32),
    /// Unsigned 16 bits integer
    U16(u16),
    /// 8 bits integer
    U8(u8),
    /// A slice is just a raw u8 of vector
    Slice(&'a [u8]),
    /// Optional value can be absent
    Absent,
}

/// Allow to a son to inform parent of something special
///
/// In a tree type a son can control the parser of a parent node
/// by providing some type depend fields
pub enum MessageOption {
    /// You ask to skip a field
    /// during reading operation
    SkipField(String),
    /// You ask to limit the size of reading buffer
    /// for a particular field
    Size(String, usize),
    /// Non option
    Absent,
}

/// An integer carrying an endianness tag; the tag decides the wire
/// encoding only, never the numeric value.
#[derive(Copy, Clone)]
pub enum Value<Type> {
    /// Big endianness
    BE(Type),
    /// Little endianness
    LE(Type),
}

impl<Type: Copy> Value<Type> {
    /// The numeric value, independent of the endianness tag.
    pub open spec fn spec_inner(self) -> Type {
        match self {
            Value::BE(e) => e,
            Value::LE(e) => e,
        }
    }

    /// True when the tag is big-endian.
    pub open spec fn is_be(self) -> bool {
        match self {
            Value::BE(_) => true,
            Value::LE(_) => false,
        }
    }

    /// Return the inner value.
    pub fn inner(&self) -> (r: Type)
        ensures
            r == self.spec_inner(),
    {
        match self {
            Value::BE(e) => *e,
            Value::LE(e) => *e,
        }
    }
}

/// Unsigned 16 bits message
pub type U16 = Value<u16>;

/// Unsigned 32 bits message
pub type U32 = Value<u32>;

/// Equality between all type: two tagged integers compare by numeric
/// value alone, whatever their endianness tags.
impl PartialEq for Value<u16> {
    fn eq(&self, other: &Self) -> (r: bool) {
        self.inner() == other.inner()
    }
}

impl vstd::std_specs::cmp::PartialEqSpecImpl for Value<u16> {
    open spec fn obeys_eq_spec() -> bool {
        true
    }

    open spec fn eq_spec(&self, other: &Self) -> bool {
        self.spec_inner() == other.spec_inner()
    }
}

/// Equality between all type: two tagged integers compare by numeric
/// value alone, whatever their endianness tags.
impl PartialEq for Value<u32> {
    fn eq(&self, other: &Self) -> (r: bool) {
        self.inner() == other.inner()
    }
}

impl vstd::std_specs::cmp::PartialEqSpecImpl for Value<u32> {
    open spec fn obeys_eq_spec() -> bool {
        true
    }

    open spec fn eq_spec(&self, other: &Self) -> bool {
        self.spec_inner() == other.spec_inner()
    }
}

/// Splitting a 16-bit value into big-endian bytes and reassembling
/// them gives the value back, and conversely.
pub proof fn lemma_be16_round(v: u16, b0: u8, b1: u8)
    ensures
        be16_value(be16_bytes(v)[0], be16_bytes(v)[1]) == v,
        be16_bytes(be16_value(b0, b1)) =~= seq![b0, b1],
{
    assert((((((v >> 8) as u8) as u16) << 8) | (((v & 0xff) as u8) as u16)) == v) by (bit_vector);
    assert(((((b0 as u16) << 8) | (b1 as u16)) >> 8) as u8 == b0) by (bit_vector);
    assert(((((b0 as u16) << 8) | (b1 as u16)) & 0xff) as u8 == b1) by (bit_vector);
}

/// The little-endian analogue of `lemma_be16_round`.
pub proof fn lemma_le16_round(v: u16, b0: u8, b1: u8)
    ensures
        le16_value(le16_bytes(v)[0], le16_bytes(v)[1]) == v,
        le16_bytes(le16_value(b0, b1)) =~= seq![b0, b1],
{
    assert((((((v >> 8) as u8) as u16) << 8) | (((v & 0xff) as u8) as u16)) == v) by (bit_vector);
    assert(((((b1 as u16) << 8) | (b0 as u16)) >> 8) as u8 == b1) by (bit_vector);
    assert(((((b1 as u16) << 8) | (b0 as u16)) & 0xff) as u8 == b0) by (bit_vector);
}

/// Splitting a 32-bit value into big-endian bytes and reassembling
/// them gives the value back, and conversely.
pub proof fn lemma_be32_round(v: u32, b0: u8, b1: u8, b2: u8, b3: u8)
    ensures
        be32_value(be32_bytes(v)[0], be32_bytes(v)[1], be32_bytes(v)[2], be32_bytes(v)[3]) == v,
        be32_bytes(be32_value(b0, b1, b2, b3)) =~= seq![b0, b1, b2, b3],
{
    assert(((((((v >> 24) & 0xff) as u8) as u32) << 24)
        | (((((v >> 16) & 0xff) as u8) as u32) << 16)
        | (((((v >> 8) & 0xff) as u8) as u32) << 8)
        | (((v & 0xff) as u8) as u32)) == v) by (bit_vector);
    assert(((((b0 as u32) << 24) | ((b1 as u32) << 16) | ((b2 as u32) << 8) | (b3 as u32)) >> 24
        & 0xff) as u8 == b0) by (bit_vector);
    assert(((((b0 as u32) << 24) | ((b1 as u32) << 16) | ((b2 as u32) << 8) | (b3 as u32)) >> 16
        & 0xff) as u8 == b1) by (bit_vector);
    assert(((((b0 as u32) << 24) | ((b1 as u32) << 16) | ((b2 as u32) << 8) | (b3 as u32)) >> 8
        & 0xff) as u8 == b2) by (bit_vector);
    assert(((((b0 as u32) << 24) | ((b1 as u32) << 16) | ((b2 as u32) << 8) | (b3 as u32))
        & 0xff) as u8 == b3) by (bit_vector);
}

/// The little-endian analogue of `lemma_be32_round`.
pub proof fn lemma_le32_round(v: u32, b0: u8, b1: u8, b2: u8, b3: u8)
    ensures
        le32_value(le32_bytes(v)[0], le32_bytes(v)[1], le32_bytes(v)[2], le32_bytes(v)[3]) == v,
        le32_bytes(le32_value(b0, b1, b2, b3)) =~= seq![b0, b1, b2, b3],
{
    assert(((((((v >> 24) & 0xff) as u8) as u32) << 24)
        | (((((v >> 16) & 0xff) as u8) as u32) << 16)
        | (((((v >> 8) & 0xff) as u8) as u32) << 8)
        | (((v & 0xff) as u8) as u32)) == v) by (bit_vector);
    assert(((((b3 as u32) << 24) | ((b2 as u32) << 16) | ((b1 as u32) << 8) | (b0 as u32)) >> 24
        & 0xff) as u8 == b3) by (bit_vector);
    assert(((((b3 as u32) << 24) | ((b2 as u32) << 16) | ((b1 as u32) << 8) | (b0 as u32)) >> 16
        & 0xff) as u8 == b2) by (bit_vector);
    assert(((((b3 as u32) << 24) | ((b2 as u32) << 16) | ((b1 as u32) << 8) | (b0 as u32)) >> 8
        & 0xff) as u8 == b1) by (bit_vector);
    assert(((((b3 as u32) << 24) | ((b2 as u32) << 16) | ((b1 as u32) << 8) | (b0 as u32))
        & 0xff) as u8 == b0) by (bit_vector);
}

/// A reading position over a byte buffer; decode operations consume
/// from the front of `remaining()`.
pub struct ByteReader {
    data: Vec<u8>,
    pos: usize,
}

impl ByteReader {
    /// The position never passes the end of the buffer.
    #[verifier::type_invariant]
    spec fn wf(self) -> bool {
        self.pos <= self.data.len()
    }

    /// The bytes not yet consumed.
    pub closed spec fn remaining(self) -> Seq<u8> {
        if self.pos <= self.data.len() {
            self.data@.skip(self.pos as int)
        } else {
            Seq::empty()
        }
    }

    /// Start reading a buffer from its first byte.
    pub fn new(data: Vec<u8>) -> (r: ByteReader)
        ensures
            r.remaining() == data@,
    {
        let r = ByteReader { data, pos: 0 };
        proof {
            assert(r.remaining() =~= r.data@);
        }
        r
    }

    /// How many bytes are left to consume.
    pub fn remaining_len(&self) -> (r: usize)
        ensures
            r == self.remaining().len(),
    {
        proof {
            use_type_invariant(&*self);
        }
        self.data.len() - self.pos
    }

    /// Consume one byte.
    pub fn read_u8(&mut self) -> (r: Result<u8, RdpError>)
        ensures
            r.is_ok() <==> old(self).remaining().len() >= 1,
            r.is_ok() ==> r.unwrap() == old(self).remaining()[0]
                && final(self).remaining() == old(self).remaining().skip(1),
            r.is_err() ==> r == Err::<u8, RdpError>(RdpError::Io)
                && *final(self) == *old(self),
    {
        proof {
            use_type_invariant(&*self);
        }
        if self.pos < self.data.len() {
            let b = self.data[self.pos];
            self.pos = self.pos + 1;
            proof {
                assert(final(self).remaining() =~= old(self).remaining().skip(1));
            }
            Ok(b)
        } else {
            Err(RdpError::Io)
        }
    }

    /// Consume two bytes as a big-endian 16-bit value.
    pub fn read_u16_be(&mut self) -> (r: Result<u16, RdpError>)
        ensures
            r.is_ok() <==> old(self).remaining().len() >= 2,
            r.is_ok() ==> r.unwrap() == be16_value(
                old(self).remaining()[0],
                old(self).remaining()[1],
            ) && final(self).remaining() == old(self).remaining().skip(2),
            r.is_err() ==> r == Err::<u16, RdpError>(RdpError::Io)
                && *final(self) == *old(self),
    {
        proof {
            use_type_invariant(&*self);
        }
        if self.data.len() - self.pos >= 2 {
            let b0 = self.data[self.pos];
            let b1 = self.data[self.pos + 1];
            self.pos = self.pos + 2;
            proof {
                assert(final(self).remaining() =~= old(self).remaining().skip(2));
            }
            Ok(((b0 as u16) << 8) | (b1 as u16))
        } else {
            Err(RdpError::Io)
        }
    }

    /// Consume two bytes as a little-endian 16-bit value.
    pub fn read_u16_le(&mut self) -> (r: Result<u16, RdpError>)
        ensures
            r.is_ok() <==> old(self).remaining().len() >= 2,
            r.is_ok() ==> r.unwrap() == le16_value(
                old(self).remaining()[0],
                old(self).remaining()[1],
            ) && final(self).remaining() == old(self).remaining().skip(2),
            r.is_err() ==> r == Err::<u16, RdpError>(RdpError::Io)
                && *final(self) == *old(self),
    {
        proof {
            use_type_invariant(&*self);
        }
        if self.data.len() - self.pos >= 2 {
            let b0 = self.data[self.pos];
            let b1 = self.data[self.pos + 1];
            self.pos = self.pos + 2;
            proof {
                assert(final(self).remaining() =~= old(self).remaining().skip(2));
            }
            Ok(((b1 as u16) << 8) | (b0 as u16))
        } else {
            Err(RdpError::Io)
        }
    }

    /// Consume four bytes as a big-endian 32-bit value.
    pub fn read_u32_be(&mut self) -> (r: Result<u32, RdpError>)
        ensures
            r.is_ok() <==> old(self).remaining().len() >= 4,
            r.is_ok() ==> r.unwrap() == be32_value(
                old(self).remaining()[0],
                old(self).remaining()[1],
                old(self).remaining()[2],
                old(self).remaining()[3],
            ) && final(self).remaining() == old(self).remaining().skip(4),
            r.is_err() ==> r == Err::<u32, RdpError>(RdpError::Io)
                && *final(self) == *old(self),
    {
        proof {
            use_type_invariant(&*self);
        }
        if self.data.len() - self.pos >= 4 {
            let b0 = self.data[self.pos];
            let b1 = self.data[self.pos + 1];
            let b2 = self.data[self.pos + 2];
            let b3 = self.data[self.pos + 3];
            self.pos = self.pos + 4;
            proof {
                assert(final(self).remaining() =~= old(self).remaining().skip(4));
            }
            Ok(((b0 as u32) << 24) | ((b1 as u32) << 16) | ((b2 as u32) << 8) | (b3 as u32))
        } else {
            Err(RdpError::Io)
        }
    }

    /// Consume four bytes as a little-endian 32-bit value.
    pub fn read_u32_le(&mut self) -> (r: Result<u32, RdpError>)
        ensures
            r.is_ok() <==> old(self).remaining().len() >= 4,
            r.is_ok() ==> r.unwrap() == le32_value(
                old(self).remaining()[0],
                old(self).remaining()[1],
                old(self).remaining()[2],
                old(self).remaining()[3],
            ) && final(self).remaining() == old(self).remaining().skip(4),
            r.is_err() ==> r == Err::<u32, RdpError>(RdpError::Io)
                && *final(self) == *old(self),
    {
        proof {
            use_type_invariant(&*self);
        }
        if self.data.len() - self.pos >= 4 {
            let b0 = self.data[self.pos];
            let b1 = self.data[self.pos + 1];
            let b2 = self.data[self.pos + 2];
            let b3 = self.data[self.pos + 3];
            self.pos = self.pos + 4;
            proof {
                assert(final(self).remaining() =~= old(self).remaining().skip(4));
            }
            Ok(((b3 as u32) << 24) | ((b2 as u32) << 16) | ((b1 as u32) << 8) | (b0 as u32))
        } else {
            Err(RdpError::Io)
        }
    }

    /// Consume exactly `n` bytes; a short buffer is an error, never a
    /// truncated result.
    pub fn read_bytes(&mut self, n: usize) -> (r: Result<Vec<u8>, RdpError>)
        ensures
            r.is_ok() <==> old(self).remaining().len() >= n,
            r.is_ok() ==> r.unwrap()@ == old(self).remaining().take(n as int)
                && final(self).remaining() == old(self).remaining().skip(n as int),
            r.is_err() ==> r == Err::<Vec<u8>, RdpError>(RdpError::Io)
                && *final(self) == *old(self),
    {
        proof {
            use_type_invariant(&*self);
        }
        if self.data.len() - self.pos >= n {
            let mut out: Vec<u8> = Vec::new();
            let mut i: usize = 0;
            while i < n
                invariant
                    i <= n,
                    self.pos + n <= self.data.len(),
                    self.data == old(self).data,
                    self.pos == old(self).pos,
                    out@ == self.data@.subrange(
                        self.pos as int,
                        self.pos + i as int,
                    ),
                decreases n - i,
            {
                out.push(self.data[self.pos + i]);
                i = i + 1;
                proof {
                    assert(out@ =~= self.data@.subrange(self.pos as int, self.pos + i as int));
                }
            }
            self.pos = self.pos + n;
            proof {
                assert(out@ =~= old(self).remaining().take(n as int));
                assert(final(self).remaining() =~= old(self).remaining().skip(n as int));
            }
            Ok(out)
        } else {
            Err(RdpError::Io)
        }
    }
}

/// All is a message
///
/// A message can be read from a buffer or written to a byte sink; its
/// declared length always equals the number of bytes its encoding
/// occupies, because peers size their reads from it.
pub trait Message: Sized {
    /// The exact bytes this value encodes to.
    spec fn wire(&self) -> Seq<u8>;

    /// Length in bytes of current element
    fn length(&self) -> (r: usize)
        ensures
            r == self.wire().len(),
    ;

    /// Write node to the sink
    fn write_to(&self, writer: &mut Vec<u8>) -> (r: Result<(), RdpError>)
        ensures
            r.is_ok(),
            final(writer)@ == old(writer)@ + self.wire(),
    ;

    /// Read node from the source, in place. On success the consumed
    /// prefix is exactly the new value's encoding and the encoded
    /// length is unchanged; on failure nothing has moved.
    fn read_from(&mut self, reader: &mut ByteReader) -> (r: Result<(), RdpError>)
        ensures
            final(self).wire().len() == old(self).wire().len(),
            r.is_ok() <==> old(reader).remaining().len() >= old(self).wire().len(),
            r.is_ok() ==> old(reader).remaining()
                == final(self).wire() + final(reader).remaining(),
            r.is_err() ==> r == Err::<(), RdpError>(RdpError::Io)
                && *final(self) == *old(self) && *final(reader) == *old(reader),
    ;
}

/// u8 message
impl Message for u8 {
    open spec fn wire(&self) -> Seq<u8> {
        seq![*self]
    }

    fn length(&self) -> (r: usize) {
        1
    }

    fn write_to(&self, writer: &mut Vec<u8>) -> (r: Result<(), RdpError>) {
        writer.push(*self);
        Ok(())
    }

    fn read_from(&mut self, reader: &mut ByteReader) -> (r: Result<(), RdpError>) {
        match reader.read_u8() {
            Ok(b) => {
                *self = b;
                proof {
                    assert(old(reader).remaining()
                        =~= final(self).wire() + final(reader).remaining());
                }
                Ok(())
            }
            Err(e) => Err(e),
        }
    }
}

impl Message for U16 {
    open spec fn wire(&self) -> Seq<u8> {
        match *self {
            Value::BE(v) => be16_bytes(v),
            Value::LE(v) => le16_bytes(v),
        }
    }

    /// Length of U16 is 2
    fn length(&self) -> (r: usize) {
        2
    }

    fn write_to(&self, writer: &mut Vec<u8>) -> (r: Result<(), RdpError>) {
        match self {
            Value::BE(v) => {
                writer.push(((*v >> 8) & 0xff) as u8);
                writer.push((*v & 0xff) as u8);
                proof {
                    assert((*v >> 8) & 0xff == *v >> 8) by (bit_vector);
                    assert(final(writer)@ =~= old(writer)@ + self.wire());
                }
            }
            Value::LE(v) => {
                writer.push((*v & 0xff) as u8);
                writer.push(((*v >> 8) & 0xff) as u8);
                proof {
                    assert((*v >> 8) & 0xff == *v >> 8) by (bit_vector);
                    assert(final(writer)@ =~= old(writer)@ + self.wire());
                }
            }
        }
        Ok(())
    }

    /// Decode according to the receiver's own endianness tag; the tag
    /// is kept, only the numeric value moves.
    fn read_from(&mut self, reader: &mut ByteReader) -> (r: Result<(), RdpError>)
        ensures
            final(self).is_be() == old(self).is_be(),
            r.is_ok() ==> final(self).spec_inner() == (if old(self).is_be() {
                be16_value(old(reader).remaining()[0], old(reader).remaining()[1])
            } else {
                le16_value(old(reader).remaining()[0], old(reader).remaining()[1])
            }),
    {
        let is_be = match self {
            Value::BE(_) => true,
            Value::LE(_) => false,
        };
        if is_be {
            match reader.read_u16_be() {
                Ok(v) => {
                    *self = Value::BE(v);
                    proof {
                        lemma_be16_round(v, old(reader).remaining()[0], old(reader).remaining()[1]);
                        assert(old(reader).remaining()
                            =~= final(self).wire() + final(reader).remaining());
                    }
                    Ok(())
                }
                Err(e) => Err(e),
            }
        } else {
            match reader.read_u16_le() {
                Ok(v) => {
                    *self = Value::LE(v);
                    proof {
                        lemma_le16_round(v, old(reader).remaining()[0], old(reader).remaining()[1]);
                        assert(old(reader).remaining()
                            =~= final(self).wire() + final(reader).remaining());
                    }
                    Ok(())
                }
                Err(e) => Err(e),
            }
        }
    }
}

impl Message for U32 {
    open spec fn wire(&self) -> Seq<u8> {
        match *self {
            Value::BE(v) => be32_bytes(v),
            Value::LE(v) => le32_bytes(v),
        }
    }

    /// Length of the 32 bits is four
    fn length(&self) -> (r: usize) {
        4
    }

    fn write_to(&self, writer: &mut Vec<u8>) -> (r: Result<(), RdpError>) {
        match self {
            Value::BE(v) => {
                writer.push(((*v >> 24) & 0xff) as u8);
                writer.push(((*v >> 16) & 0xff) as u8);
                writer.push(((*v >> 8) & 0xff) as u8);
                writer.push((*v & 0xff) as u8);
                proof {
                    assert(final(writer)@ =~= old(writer)@ + self.wire());
                }
            }
            Value::LE(v) => {
                writer.push((*v & 0xff) as u8);
                writer.push(((*v >> 8) & 0xff) as u8);
                writer.push(((*v >> 16) & 0xff) as u8);
                writer.push(((*v >> 24) & 0xff) as u8);
                proof {
                    assert(final(writer)@ =~= old(writer)@ + self.wire());
                }
            }
        }
        Ok(())
    }

    /// Decode according to the receiver's own endianness tag; the tag
    /// is kept, only the numeric value moves.
    fn read_from(&mut self, reader: &mut ByteReader) -> (r: Result<(), RdpError>)
        ensures
            final(self).is_be() == old(self).is_be(),
            r.is_ok() ==> final(self).spec_inner() == (if old(self).is_be() {
                be32_value(
                    old(reader).remaining()[0],
                    old(reader).remaining()[1],
                    old(reader).remaining()[2],
                    old(reader).remaining()[3],
                )
            } else {
                le32_value(
                    old(reader).remaining()[0],
                    old(reader).remaining()[1],
                    old(reader).remaining()[2],
                    old(reader).remaining()[3],
                )
            }),
    {
        let is_be = match self {
            Value::BE(_) => true,
            Value::LE(_) => false,
        };
        if is_be {
            match reader.read_u32_be() {
                Ok(v) => {
                    *self = Value::BE(v);
                    proof {
                        lemma_be32_round(
                            v,
                            old(reader).remaining()[0],
                            old(reader).remaining()[1],
                            old(reader).remaining()[2],
                            old(reader).remaining()[3],
                        );
                        assert(old(reader).remaining()
                            =~= final(self).wire() + final(reader).remaining());
                    }
                    Ok(())
                }
                Err(e) => Err(e),
            }
        } else {
            match reader.read_u32_le() {
                Ok(v) => {
                    *self = Value::LE(v);
                    proof {
                        lemma_le32_round(
                            v,
                            old(reader).remaining()[0],
                            old(reader).remaining()[1],
                            old(reader).remaining()[2],
                            old(reader).remaining()[3],
                        );
                        assert(old(reader).remaining()
                            =~= final(self).wire() + final(reader).remaining());
                    }
                    Ok(())
                }
                Err(e) => Err(e),
            }
        }
    }
}

/// A raw byte buffer encodes as itself and decodes by filling its
/// pre-sized length exactly.
impl Message for Vec<u8> {
    open spec fn wire(&self) -> Seq<u8> {
        self@
    }

    fn length(&self) -> (r: usize) {
        self.len()
    }

    fn write_to(&self, writer: &mut Vec<u8>) -> (r: Result<(), RdpError>) {
        let mut i: usize = 0;
        while i < self.len()
            invariant
                i <= self.len(),
                writer@ == old(writer)@ + self@.take(i as int),
            decreases self.len() - i,
        {
            writer.push(self[i]);
            i = i + 1;
            proof {
                assert(writer@ =~= old(writer)@ + self@.take(i as int));
            }
        }
        proof {
            assert(final(writer)@ =~= old(writer)@ + self.wire());
        }
        Ok(())
    }

    fn read_from(&mut self, reader: &mut ByteReader) -> (r: Result<(), RdpError>) {
        let n = self.len();
        match reader.read_bytes(n) {
            Ok(buf) => {
                *self = buf;
                proof {
                    assert(old(reader).remaining()
                        =~= final(self).wire() + final(reader).remaining());
                }
                Ok(())
            }
            Err(e) => Err(e),
        }
    }
}

/// For 16-bit tagged integers: equality is purely by numeric value,
/// independent of the tags; and each value round-trips, in that
/// reading its own encoding back under its own tag yields the original
/// numeric value.
pub proof fn lemma_value_u16_eq_round_trip(a: Value<u16>, b: Value<u16>)
    ensures
        vstd::std_specs::cmp::PartialEqSpec::eq_spec(&a, &b) <==> a.spec_inner()
            == b.spec_inner(),
        a.wire().len() == 2,
        a.is_be() ==> be16_value(a.wire()[0], a.wire()[1]) == a.spec_inner(),
        !a.is_be() ==> le16_value(a.wire()[0], a.wire()[1]) == a.spec_inner(),
{
    lemma_be16_round(a.spec_inner(), 0, 0);
    lemma_le16_round(a.spec_inner(), 0, 0);
}

/// The 32-bit analogue of `lemma_value_u16_eq_round_trip`.
pub proof fn lemma_value_u32_eq_round_trip(a: Value<u32>, b: Value<u32>)
    ensures
        vstd::std_specs::cmp::PartialEqSpec::eq_spec(&a, &b) <==> a.spec_inner()
            == b.spec_inner(),
        a.wire().len() == 4,
        a.is_be() ==> be32_value(a.wire()[0], a.wire()[1], a.wire()[2], a.wire()[3])
            == a.spec_inner(),
        !a.is_be() ==> le32_value(a.wire()[0], a.wire()[1], a.wire()[2], a.wire()[3])
            == a.spec_inner(),
{
    lemma_be32_round(a.spec_inner(), 0, 0, 0, 0);
    lemma_le32_round(a.spec_inner(), 0, 0, 0, 0);
}

} // verus!

