//! Endian-aware primitive reads and writes over an in-memory byte source.
//!
//! Unverified callers read a whole file into a byte vector and hand it to
//! this module; every primitive decode and encode is then pure integer code
//! with an exact specification.  A 32-bit floating sample travels as the
//! 32-bit integer holding its IEEE-754 encoding, so reading one is the same
//! operation as reading a `u32`.

use vstd::prelude::*;
use crate::error::StreamError;

verus! {

/// Byte order of a stream.
#[derive(Clone, Copy, Debug, PartialEq, Eq, Structural)]
pub enum ByteOrder {
    /// little endian byte order
    LittleEndian,
    /// big endian byte order
    BigEndian,
}

/// The value of two bytes combined with `lo` as the low-order byte.
pub open spec fn comb16(lo: u8, hi: u8) -> int {
    lo + 256 * hi
}

/// The value of four bytes combined with `b0` as the lowest-order byte.
pub open spec fn comb32(b0: u8, b1: u8, b2: u8, b3: u8) -> int {
    b0 + 256 * b1 + 65536 * b2 + 16777216 * b3
}

/// The 16-bit value encoded at `pos` of `data` under byte order `bo`.
pub open spec fn spec_u16_at(data: Seq<u8>, pos: int, bo: ByteOrder) -> int {
    match bo {
        ByteOrder::LittleEndian => comb16(data[pos], data[pos + 1]),
        ByteOrder::BigEndian => comb16(data[pos + 1], data[pos]),
    }
}

/// The 32-bit value encoded at `pos` of `data` under byte order `bo`.
pub open spec fn spec_u32_at(data: Seq<u8>, pos: int, bo: ByteOrder) -> int {
    match bo {
        ByteOrder::LittleEndian => comb32(data[pos], data[pos + 1], data[pos + 2], data[pos + 3]),
        ByteOrder::BigEndian => comb32(data[pos + 3], data[pos + 2], data[pos + 1], data[pos]),
    }
}

/// The two bytes that encode `n` under byte order `bo`.
pub open spec fn spec_u16_bytes(n: u16, bo: ByteOrder) -> Seq<u8> {
    match bo {
        ByteOrder::LittleEndian => seq![(n % 256) as u8, (n / 256) as u8],
        ByteOrder::BigEndian => seq![(n / 256) as u8, (n % 256) as u8],
    }
}

/// The four bytes that encode `n` under byte order `bo`.
pub open spec fn spec_u32_bytes(n: u32, bo: ByteOrder) -> Seq<u8> {
    match bo {
        ByteOrder::LittleEndian => seq![
            (n % 256) as u8,
            ((n / 256) % 256) as u8,
            ((n / 65536) % 256) as u8,
            (n / 16777216) as u8,
        ],
        ByteOrder::BigEndian => seq![
            (n / 16777216) as u8,
            ((n / 65536) % 256) as u8,
            ((n / 256) % 256) as u8,
            (n % 256) as u8,
        ],
    }
}

/// Reader that is aware of the byte order.  It consumes a byte vector from
/// the front; `pos` is the index of the next unread byte.
#[derive(Debug)]
pub struct SmartReader {
    pub data: Vec<u8>,
    pub pos: usize,
    pub byte_order: ByteOrder,
}

impl SmartReader {
    /// Wraps a byte source.
    pub fn wrap(reader: Vec<u8>, byte_order: ByteOrder) -> (r: SmartReader)
        ensures
            r.data == reader,
            r.pos == 0,
            r.byte_order == byte_order,
    {
        SmartReader { data: reader, pos: 0, byte_order }
    }

    /// How many bytes remain unread.
    pub open spec fn spec_remaining(self) -> int {
        self.data@.len() - self.pos
    }

    /// Byte order that the reader adheres to.
    pub fn byte_order(&self) -> (r: ByteOrder)
        ensures
            r == self.byte_order,
    {
        self.byte_order
    }

    /// Reads a `u16`, or reports truncation (leaving the position alone)
    /// when fewer than two bytes remain.
    pub fn read_u16(&mut self) -> (r: Result<u16, StreamError>)
        ensures
            final(self).data == old(self).data,
            final(self).byte_order == old(self).byte_order,
            old(self).spec_remaining() >= 2 ==> {
                &&& r == Ok::<u16, StreamError>(
                    (spec_u16_at(old(self).data@, old(self).pos as int, old(self).byte_order)) as u16,
                )
                &&& final(self).pos == old(self).pos + 2
            },
            old(self).spec_remaining() < 2 ==> {
                &&& r == Err::<u16, StreamError>(StreamError::Truncated)
                &&& final(self).pos == old(self).pos
            },
    {
        if self.pos >= self.data.len() || self.data.len() - self.pos < 2 {
            return Err(StreamError::Truncated);
        }
        let b0 = self.data[self.pos];
        let b1 = self.data[self.pos + 1];
        self.pos = self.pos + 2;
        match self.byte_order {
            ByteOrder::LittleEndian => Ok(b0 as u16 + 256 * (b1 as u16)),
            ByteOrder::BigEndian => Ok(b1 as u16 + 256 * (b0 as u16)),
        }
    }

    /// Reads a `u32`, or reports truncation (leaving the position alone)
    /// when fewer than four bytes remain.
    pub fn read_u32(&mut self) -> (r: Result<u32, StreamError>)
        ensures
            final(self).data == old(self).data,
            final(self).byte_order == old(self).byte_order,
            old(self).spec_remaining() >= 4 ==> {
                &&& r == Ok::<u32, StreamError>(
                    (spec_u32_at(old(self).data@, old(self).pos as int, old(self).byte_order)) as u32,
                )
                &&& final(self).pos == old(self).pos + 4
            },
            old(self).spec_remaining() < 4 ==> {
                &&& r == Err::<u32, StreamError>(StreamError::Truncated)
                &&& final(self).pos == old(self).pos
            },
    {
        if self.pos >= self.data.len() || self.data.len() - self.pos < 4 {
            return Err(StreamError::Truncated);
        }
        let b0 = self.data[self.pos];
        let b1 = self.data[self.pos + 1];
        let b2 = self.data[self.pos + 2];
        let b3 = self.data[self.pos + 3];
        self.pos = self.pos + 4;
        match self.byte_order {
            ByteOrder::LittleEndian => Ok(
                b0 as u32 + 256 * (b1 as u32) + 65536 * (b2 as u32) + 16777216 * (b3 as u32),
            ),
            ByteOrder::BigEndian => Ok(
                b3 as u32 + 256 * (b2 as u32) + 65536 * (b1 as u32) + 16777216 * (b0 as u32),
            ),
        }
    }

    /// Reads the encoding of a 32-bit floating sample: the same four bytes
    /// as a `u32`, handed back as the sample's bit pattern.
    pub fn read_f32_bits(&mut self) -> (r: Result<u32, StreamError>)
        ensures
            final(self).data == old(self).data,
            final(self).byte_order == old(self).byte_order,
            old(self).spec_remaining() >= 4 ==> {
                &&& r == Ok::<u32, StreamError>(
                    (spec_u32_at(old(self).data@, old(self).pos as int, old(self).byte_order)) as u32,
                )
                &&& final(self).pos == old(self).pos + 4
            },
            old(self).spec_remaining() < 4 ==> {
                &&& r == Err::<u32, StreamError>(StreamError::Truncated)
                &&& final(self).pos == old(self).pos
            },
    {
        self.read_u32()
    }
}

/// Writer that is aware of the byte order.  It appends encodings to a byte
/// vector, which the caller takes back when the image is complete.
#[derive(Debug)]
pub struct SmartWriter {
    pub data: Vec<u8>,
    pub byte_order: ByteOrder,
}

impl SmartWriter {
    /// Wraps a byte sink.
    pub fn wrap(writer: Vec<u8>, byte_order: ByteOrder) -> (r: SmartWriter)
        ensures
            r.data == writer,
            r.byte_order == byte_order,
    {
        SmartWriter { data: writer, byte_order }
    }

    /// Byte order that the writer adheres to.
    pub fn byte_order(&self) -> (r: ByteOrder)
        ensures
            r == self.byte_order,
    {
        self.byte_order
    }

    /// Appends the two-byte encoding of `n`.
    pub fn write_u16(&mut self, n: u16)
        ensures
            final(self).byte_order == old(self).byte_order,
            final(self).data@ == old(self).data@ + spec_u16_bytes(n, old(self).byte_order),
    {
        let lo = (n % 256) as u8;
        let hi = (n / 256) as u8;
        match self.byte_order {
            ByteOrder::LittleEndian => {
                self.data.push(lo);
                self.data.push(hi);
            },
            ByteOrder::BigEndian => {
                self.data.push(hi);
                self.data.push(lo);
            },
        }
        proof {
            assert(final(self).data@ =~= old(self).data@ + spec_u16_bytes(
                n,
                old(self).byte_order,
            ));
        }
    }

    /// Appends the four-byte encoding of `n`.
    pub fn write_u32(&mut self, n: u32)
        ensures
            final(self).byte_order == old(self).byte_order,
            final(self).data@ == old(self).data@ + spec_u32_bytes(n, old(self).byte_order),
    {
        let b0 = (n % 256) as u8;
        let b1 = ((n / 256) % 256) as u8;
        let b2 = ((n / 65536) % 256) as u8;
        let b3 = (n / 16777216) as u8;
        match self.byte_order {
            ByteOrder::LittleEndian => {
                self.data.push(b0);
                self.data.push(b1);
                self.data.push(b2);
                self.data.push(b3);
            },
            ByteOrder::BigEndian => {
                self.data.push(b3);
                self.data.push(b2);
                self.data.push(b1);
                self.data.push(b0);
            },
        }
        proof {
            assert(final(self).data@ =~= old(self).data@ + spec_u32_bytes(
                n,
                old(self).byte_order,
            ));
        }
    }

    /// Appends the four-byte encoding of a 32-bit floating sample given as
    /// its bit pattern: the same bytes as for the equal `u32`.
    pub fn write_f32_bits(&mut self, n: u32)
        ensures
            final(self).byte_order == old(self).byte_order,
            final(self).data@ == old(self).data@ + spec_u32_bytes(n, old(self).byte_order),
    {
        self.write_u32(n)
    }
}

} // verus!
