//! A bounds-checked byte cursor and the specification of what it reads.

use vstd::prelude::*;
use vstd::slice::slice_subrange;

use super::de::SplineError;

verus! {

/// The byte order of multi-byte values.
#[derive(Clone, Copy, Debug, PartialEq, Eq, Structural)]
pub enum Endianness {
    /// Most significant byte first.
    Big,
    /// Least significant byte first.
    Little,
}

/// A parse step: the value read and the position after it, or the error.
pub type Parsed<T> = Result<(T, int), SplineError>;

/// The 16-bit value of two consecutive bytes.
pub open spec fn word16(b0: u8, b1: u8, endian: Endianness) -> u16 {
    match endian {
        Endianness::Little => (b0 as nat + b1 as nat * 0x100) as u16,
        Endianness::Big => (b1 as nat + b0 as nat * 0x100) as u16,
    }
}

/// The 32-bit value of four consecutive bytes.
pub open spec fn word32(b0: u8, b1: u8, b2: u8, b3: u8, endian: Endianness) -> u32 {
    match endian {
        Endianness::Little => (b0 as nat + b1 as nat * 0x100 + b2 as nat * 0x10000 + b3 as nat
            * 0x1000000) as u32,
        Endianness::Big => (b3 as nat + b2 as nat * 0x100 + b1 as nat * 0x10000 + b0 as nat
            * 0x1000000) as u32,
    }
}

/// Reads one byte at `p`.
pub open spec fn parse_u8(d: Seq<u8>, p: int) -> Parsed<u8> {
    if 0 <= p < d.len() {
        Ok((d[p], p + 1))
    } else {
        Err(SplineError::UnexpectedEof)
    }
}

/// Reads a 16-bit value at `p`.
pub open spec fn parse_u16(d: Seq<u8>, p: int, endian: Endianness) -> Parsed<u16> {
    if 0 <= p && p + 2 <= d.len() {
        Ok((word16(d[p], d[p + 1], endian), p + 2))
    } else {
        Err(SplineError::UnexpectedEof)
    }
}

/// Reads a 32-bit value at `p`.
pub open spec fn parse_u32(d: Seq<u8>, p: int, endian: Endianness) -> Parsed<u32> {
    if 0 <= p && p + 4 <= d.len() {
        Ok((word32(d[p], d[p + 1], d[p + 2], d[p + 3], endian), p + 4))
    } else {
        Err(SplineError::UnexpectedEof)
    }
}

/// Reads `n` raw bytes at `p`.
pub open spec fn parse_bytes(d: Seq<u8>, p: int, n: int) -> Parsed<Seq<u8>> {
    if 0 <= p && 0 <= n && p + n <= d.len() {
        Ok((d.subrange(p, p + n), p + n))
    } else {
        Err(SplineError::UnexpectedEof)
    }
}

/// Skips `n` bytes at `p`.
pub open spec fn parse_skip(d: Seq<u8>, p: int, n: int) -> Result<int, SplineError> {
    if p + n <= d.len() {
        Ok(p + n)
    } else {
        Err(SplineError::UnexpectedEof)
    }
}

/// The least multiple of `a` that is not below `p`.
pub open spec fn align_up(p: int, a: int) -> int {
    if p % a == 0 {
        p
    } else {
        p + (a - p % a)
    }
}

/// Skips the padding up to the next multiple of `a`.
pub open spec fn parse_align(d: Seq<u8>, p: int, a: int) -> Result<int, SplineError> {
    parse_skip(d, p, align_up(p, a) - p)
}

/// A cursor over a byte slice. Every read is bounds-checked; a failed read
/// leaves the cursor where it was.
pub struct Reader<'a> {
    pub data: &'a [u8],
    pub position: usize,
}

impl<'a> Reader<'a> {
    /// The cursor invariant: the position lies within the data.
    pub open spec fn inv(&self) -> bool {
        self.position <= self.data@.len()
    }

    /// Creates a cursor at the start of `data`.
    pub fn new(data: &'a [u8]) -> (r: Self)
        ensures
            r.data@ == data@,
            r.position == 0,
    {
        Reader { data, position: 0 }
    }

    /// Reads one byte.
    pub fn read_u8(&mut self) -> (r: Result<u8, SplineError>)
        requires
            old(self).inv(),
        ensures
            final(self).inv(),
            final(self).data@ == old(self).data@,
            match parse_u8(old(self).data@, old(self).position as int) {
                Ok((v, q)) => r == Ok::<u8, SplineError>(v) && final(self).position == q,
                Err(e) => r == Err::<u8, SplineError>(e) && final(self).position == old(self).position,
            },
    {
        if self.position < self.data.len() {
            let value = self.data[self.position];
            self.position = self.position + 1;
            Ok(value)
        } else {
            Err(SplineError::UnexpectedEof)
        }
    }

    /// Reads `N` bytes as an array.
    pub fn read_array<const N: usize>(&mut self) -> (r: Result<[u8; N], SplineError>)
        requires
            old(self).inv(),
        ensures
            final(self).inv(),
            final(self).data@ == old(self).data@,
            match parse_bytes(old(self).data@, old(self).position as int, N as int) {
                Ok((v, q)) => r matches Ok(a) && a@ == v && final(self).position == q,
                Err(e) => r == Err::<[u8; N], SplineError>(e) && final(self).position == old(self).position,
            },
    {
        if N > self.data.len() - self.position {
            return Err(SplineError::UnexpectedEof);
        }
        let mut result = [0u8; N];
        let start = self.position;
        let mut i: usize = 0;
        while i < N
            invariant
                start + N <= self.data.len(),
                i <= N,
                result@.len() == N,
                forall|j: int| 0 <= j < i ==> result@[j] == self.data@[start + j],
            decreases N - i,
        {
            result[i] = self.data[start + i];
            i = i + 1;
        }
        self.position = start + N;
        assert(result@ == self.data@.subrange(start as int, start + N));
        Ok(result)
    }
    /// Reads a 16-bit value in the given byte order.
    pub fn read_u16(&mut self, endian: Endianness) -> (r: Result<u16, SplineError>)
        requires
            old(self).inv(),
        ensures
            final(self).inv(),
            final(self).data@ == old(self).data@,
            match parse_u16(old(self).data@, old(self).position as int, endian) {
                Ok((v, q)) => r == Ok::<u16, SplineError>(v) && final(self).position == q,
                Err(e) => r == Err::<u16, SplineError>(e) && final(self).position == old(self).position,
            },
    {
        let bytes = self.read_array::<2>()?;
        let b0 = bytes[0];
        let b1 = bytes[1];
        match endian {
            Endianness::Little => {
                assert((b0 as u16) | ((b1 as u16) << 8u16) == b0 + b1 * 256) by (bit_vector);
                Ok((b0 as u16) | ((b1 as u16) << 8))
            },
            Endianness::Big => {
                assert((b1 as u16) | ((b0 as u16) << 8u16) == b1 + b0 * 256) by (bit_vector);
                Ok((b1 as u16) | ((b0 as u16) << 8))
            },
        }
    }

    /// Reads a little-endian 16-bit value.
    pub fn read_u16_le(&mut self) -> (r: Result<u16, SplineError>)
        requires
            old(self).inv(),
        ensures
            final(self).inv(),
            final(self).data@ == old(self).data@,
            match parse_u16(old(self).data@, old(self).position as int, Endianness::Little) {
                Ok((v, q)) => r == Ok::<u16, SplineError>(v) && final(self).position == q,
                Err(e) => r == Err::<u16, SplineError>(e) && final(self).position == old(self).position,
            },
    {
        self.read_u16(Endianness::Little)
    }

    /// Reads a 32-bit value in the given byte order.
    pub fn read_u32(&mut self, endian: Endianness) -> (r: Result<u32, SplineError>)
        requires
            old(self).inv(),
        ensures
            final(self).inv(),
            final(self).data@ == old(self).data@,
            match parse_u32(old(self).data@, old(self).position as int, endian) {
                Ok((v, q)) => r == Ok::<u32, SplineError>(v) && final(self).position == q,
                Err(e) => r == Err::<u32, SplineError>(e) && final(self).position == old(self).position,
            },
    {
        let bytes = self.read_array::<4>()?;
        let b0 = bytes[0];
        let b1 = bytes[1];
        let b2 = bytes[2];
        let b3 = bytes[3];
        match endian {
            Endianness::Little => {
                assert((b0 as u32) | ((b1 as u32) << 8u32) | ((b2 as u32) << 16u32) | ((b3 as u32) << 24u32)
                    == b0 + b1 * 0x100 + b2 * 0x10000 + b3 * 0x1000000) by (bit_vector);
                Ok((b0 as u32) | ((b1 as u32) << 8) | ((b2 as u32) << 16) | ((b3 as u32) << 24))
            },
            Endianness::Big => {
                assert((b3 as u32) | ((b2 as u32) << 8u32) | ((b1 as u32) << 16u32) | ((b0 as u32) << 24u32)
                    == b3 + b2 * 0x100 + b1 * 0x10000 + b0 * 0x1000000) by (bit_vector);
                Ok((b3 as u32) | ((b2 as u32) << 8) | ((b1 as u32) << 16) | ((b0 as u32) << 24))
            },
        }
    }

    /// Reads a little-endian 32-bit value.
    pub fn read_u32_le(&mut self) -> (r: Result<u32, SplineError>)
        requires
            old(self).inv(),
        ensures
            final(self).inv(),
            final(self).data@ == old(self).data@,
            match parse_u32(old(self).data@, old(self).position as int, Endianness::Little) {
                Ok((v, q)) => r == Ok::<u32, SplineError>(v) && final(self).position == q,
                Err(e) => r == Err::<u32, SplineError>(e) && final(self).position == old(self).position,
            },
    {
        self.read_u32(Endianness::Little)
    }

    /// Reads a little-endian 64-bit value.
    pub fn read_u64_le(&mut self) -> (r: Result<u64, SplineError>)
        requires
            old(self).inv(),
        ensures
            final(self).inv(),
            final(self).data@ == old(self).data@,
            match parse_bytes(old(self).data@, old(self).position as int, 8) {
                Ok((v, q)) => r == Ok::<u64, SplineError>(
                    (word32(v[0], v[1], v[2], v[3], Endianness::Little) as nat
                        + word32(v[4], v[5], v[6], v[7], Endianness::Little) as nat * 0x100000000) as u64,
                ) && final(self).position == q,
                Err(e) => r == Err::<u64, SplineError>(e) && final(self).position == old(self).position,
            },
    {
        let old_position = self.position;
        let low = self.read_u32(Endianness::Little)?;
        let high = match self.read_u32(Endianness::Little) {
            Ok(v) => v,
            Err(e) => {
                self.position = old_position;
                return Err(e);
            },
        };
        assert((low as u64) | ((high as u64) << 32u64) == low + high * 0x100000000) by (bit_vector);
        Ok((low as u64) | ((high as u64) << 32))
    }

    /// Skips `count` bytes.
    pub fn skip(&mut self, count: usize) -> (r: Result<(), SplineError>)
        requires
            old(self).inv(),
        ensures
            final(self).inv(),
            final(self).data@ == old(self).data@,
            match parse_skip(old(self).data@, old(self).position as int, count as int) {
                Ok(q) => r == Ok::<(), SplineError>(()) && final(self).position == q,
                Err(e) => r == Err::<(), SplineError>(e) && final(self).position == old(self).position,
            },
    {
        if count > self.data.len() - self.position {
            return Err(SplineError::UnexpectedEof);
        }
        let end = self.position + count;
        self.position = end;
        Ok(())
    }

    /// Skips the padding up to the next multiple of `alignment`.
    pub fn align(&mut self, alignment: usize) -> (r: Result<(), SplineError>)
        requires
            old(self).inv(),
            alignment > 0,
        ensures
            final(self).inv(),
            final(self).data@ == old(self).data@,
            match parse_align(old(self).data@, old(self).position as int, alignment as int) {
                Ok(q) => r == Ok::<(), SplineError>(()) && final(self).position == q,
                Err(e) => r == Err::<(), SplineError>(e) && final(self).position == old(self).position,
            },
    {
        let remainder = self.position % alignment;
        let padding = if remainder == 0 { 0 } else { alignment - remainder };
        self.skip(padding)
    }

    /// Reads `count` bytes as a sub-slice of the data.
    pub fn read_bytes(&mut self, count: usize) -> (r: Result<&'a [u8], SplineError>)
        requires
            old(self).inv(),
        ensures
            final(self).inv(),
            final(self).data@ == old(self).data@,
            match parse_bytes(old(self).data@, old(self).position as int, count as int) {
                Ok((v, q)) => r matches Ok(b) && b@ == v && final(self).position == q,
                Err(e) => r == Err::<&'a [u8], SplineError>(e) && final(self).position == old(self).position,
            },
    {
        if count > self.data.len() - self.position {
            return Err(SplineError::UnexpectedEof);
        }
        let end = self.position + count;
        let bytes = slice_subrange(self.data, self.position, end);
        self.position = end;
        Ok(bytes)
    }
}

} // verus!
