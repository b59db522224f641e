//! The byte-stream abstraction the framing layer owns: ordered,
//! reliable delivery in both directions, modelled by the sequence of
//! bytes sent so far and the sequence still to be received. An
//! in-memory stream implements it for use inside the library; a real
//! socket adapter can implement it outside.

use vstd::prelude::*;
use crate::error::RdpError;

verus! {

/// An ordered, reliable byte stream. `sent()` models everything
/// written so far, `to_recv()` the bytes that will be delivered next.
/// An implementation whose reads and writes never fail while the model
/// has bytes left says so through `obeys_model()`; for one backed by a
/// real transport any call may instead fail with an `Io` error, and
/// every contract here is honest about that.
pub trait Transport: Sized {
    /// Everything written to the stream so far. An implementation
    /// outside the library need not track this; left at its default
    /// it is unspecified.
    open spec fn sent(&self) -> Seq<u8> {
        arbitrary()
    }

    /// The bytes the stream will deliver next, in order; unspecified
    /// by default, as for `sent`.
    open spec fn to_recv(&self) -> Seq<u8> {
        arbitrary()
    }

    /// True when reads and writes succeed exactly as the model says:
    /// a read fails only once `to_recv()` is exhausted, and a write
    /// never fails. By default nothing of the kind is claimed.
    open spec fn obeys_model(&self) -> bool {
        false
    }

    /// Append bytes to the stream.
    fn write_all(&mut self, data: &Vec<u8>) -> (r: Result<(), RdpError>)
        ensures
            final(self).obeys_model() == old(self).obeys_model(),
            final(self).to_recv() == old(self).to_recv(),
            r.is_ok() ==> final(self).sent() == old(self).sent() + data@,
            old(self).obeys_model() ==> r.is_ok(),
            r.is_err() ==> r == Err::<(), RdpError>(RdpError::Io),
    ;

    /// Deliver the next byte.
    fn read_u8(&mut self) -> (r: Result<u8, RdpError>)
        ensures
            final(self).obeys_model() == old(self).obeys_model(),
            final(self).sent() == old(self).sent(),
            r.is_ok() ==> old(self).to_recv().len() >= 1
                && r.unwrap() == old(self).to_recv()[0]
                && final(self).to_recv() == old(self).to_recv().skip(1),
            old(self).obeys_model() ==> (r.is_ok() <==> old(self).to_recv().len() >= 1),
            old(self).obeys_model() && r.is_err() ==> final(self).to_recv()
                == old(self).to_recv(),
            r.is_err() ==> r == Err::<u8, RdpError>(RdpError::Io),
    ;

    /// Deliver the next two bytes as a big-endian 16-bit value.
    fn read_u16(&mut self) -> (r: Result<u16, RdpError>)
        ensures
            final(self).obeys_model() == old(self).obeys_model(),
            final(self).sent() == old(self).sent(),
            r.is_ok() ==> old(self).to_recv().len() >= 2
                && r.unwrap() == crate::data::be16_value(
                    old(self).to_recv()[0],
                    old(self).to_recv()[1],
                )
                && final(self).to_recv() == old(self).to_recv().skip(2),
            old(self).obeys_model() ==> (r.is_ok() <==> old(self).to_recv().len() >= 2),
            old(self).obeys_model() && r.is_err() ==> final(self).to_recv()
                == old(self).to_recv(),
            r.is_err() ==> r == Err::<u16, RdpError>(RdpError::Io),
    ;

    /// Deliver exactly `n` bytes; a stream that ends first is an
    /// error, never a truncated result.
    fn read_exact(&mut self, n: usize) -> (r: Result<Vec<u8>, RdpError>)
        ensures
            final(self).obeys_model() == old(self).obeys_model(),
            final(self).sent() == old(self).sent(),
            r.is_ok() ==> old(self).to_recv().len() >= n
                && r.unwrap()@ == old(self).to_recv().take(n as int)
                && final(self).to_recv() == old(self).to_recv().skip(n as int),
            old(self).obeys_model() ==> (r.is_ok() <==> old(self).to_recv().len() >= n),
            old(self).obeys_model() && r.is_err() ==> final(self).to_recv()
                == old(self).to_recv(),
            r.is_err() ==> r == Err::<Vec<u8>, RdpError>(RdpError::Io),
    ;

    /// Close the stream; nothing more is promised of it afterwards.
    fn shutdown(&mut self) -> (r: Result<(), RdpError>)
    ;
}

/// A stream held entirely in memory: reads consume a fixed incoming
/// buffer, writes append to an outgoing one. It obeys the stream model
/// exactly, which makes it the stand-in for the peer in tests and the
/// reference implementation of `Transport`.
pub struct MemoryStream {
    incoming: Vec<u8>,
    pos: usize,
    outgoing: Vec<u8>,
}

impl MemoryStream {
    /// Create a stream that will deliver exactly `incoming`.
    pub fn new(incoming: Vec<u8>) -> (r: MemoryStream)
        ensures
            r.to_recv() == incoming@,
            r.sent() == Seq::<u8>::empty(),
            r.obeys_model(),
    {
        let r = MemoryStream { incoming, pos: 0, outgoing: Vec::new() };
        proof {
            assert(r.to_recv() =~= r.incoming@);
        }
        r
    }

    /// Everything written to the stream, in order.
    pub fn sent_bytes(&self) -> (r: &Vec<u8>)
        ensures
            r@ == self.sent(),
    {
        &self.outgoing
    }
}

impl Transport for MemoryStream {
    closed spec fn sent(&self) -> Seq<u8> {
        self.outgoing@
    }

    closed spec fn to_recv(&self) -> Seq<u8> {
        if self.pos <= self.incoming.len() {
            self.incoming@.skip(self.pos as int)
        } else {
            Seq::empty()
        }
    }

    closed spec fn obeys_model(&self) -> bool {
        true
    }

    fn write_all(&mut self, data: &Vec<u8>) -> (r: Result<(), RdpError>) {
        let mut i: usize = 0;
        while i < data.len()
            invariant
                i <= data.len(),
                self.incoming == old(self).incoming,
                self.pos == old(self).pos,
                self.outgoing@ == old(self).outgoing@ + data@.take(i as int),
            decreases data.len() - i,
        {
            let b = data[i];
            self.outgoing.push(b);
            i = i + 1;
            proof {
                assert(self.outgoing@ =~= old(self).outgoing@ + data@.take(i as int));
            }
        }
        proof {
            assert(final(self).sent() =~= old(self).sent() + data@);
        }
        Ok(())
    }

    fn read_u8(&mut self) -> (r: Result<u8, RdpError>) {
        if self.pos < self.incoming.len() {
            let b = self.incoming[self.pos];
            self.pos = self.pos + 1;
            proof {
                assert(final(self).to_recv() =~= old(self).to_recv().skip(1));
            }
            Ok(b)
        } else {
            Err(RdpError::Io)
        }
    }

    fn read_u16(&mut self) -> (r: Result<u16, RdpError>) {
        if self.pos < self.incoming.len() && self.incoming.len() - self.pos >= 2 {
            let b0 = self.incoming[self.pos];
            let b1 = self.incoming[self.pos + 1];
            self.pos = self.pos + 2;
            proof {
                assert(final(self).to_recv() =~= old(self).to_recv().skip(2));
            }
            Ok(((b0 as u16) << 8) | (b1 as u16))
        } else {
            Err(RdpError::Io)
        }
    }

    fn read_exact(&mut self, n: usize) -> (r: Result<Vec<u8>, RdpError>) {
        if n == 0 {
            proof {
                assert(old(self).to_recv().take(0) =~= Seq::<u8>::empty());
                assert(final(self).to_recv() =~= old(self).to_recv().skip(0));
            }
            return Ok(Vec::new());
        }
        if self.pos <= self.incoming.len() && n <= self.incoming.len() - self.pos {
            let mut out: Vec<u8> = Vec::new();
            let mut i: usize = 0;
            while i < n
                invariant
                    i <= n,
                    self.pos + n <= self.incoming.len(),
                    self.incoming == old(self).incoming,
                    self.pos == old(self).pos,
                    self.outgoing == old(self).outgoing,
                    out@ == self.incoming@.subrange(self.pos as int, self.pos + i as int),
                decreases n - i,
            {
                out.push(self.incoming[self.pos + i]);
                i = i + 1;
                proof {
                    assert(out@ =~= self.incoming@.subrange(
                        self.pos as int,
                        self.pos + i as int,
                    ));
                }
            }
            self.pos = self.pos + n;
            proof {
                assert(out@ =~= old(self).to_recv().take(n as int));
                assert(final(self).to_recv() =~= old(self).to_recv().skip(n as int));
            }
            Ok(out)
        } else {
            Err(RdpError::Io)
        }
    }

    /// Closing an in-memory stream leaves nothing to do.
    fn shutdown(&mut self) -> (r: Result<(), RdpError>) {
        Ok(())
    }
}

} // verus!
