//! Byte-order primitives and a bounded byte cursor.
//!
//! Every format reader works over an in-memory buffer through [`ByteReader`]
//! (forward reads) or through the positional helpers (random access, used by
//! the TIFF reader).  The decode of each primitive is pinned by a spec
//! function, so the format contracts can speak of field values directly.

use vstd::prelude::*;
use vstd::string::StringSliceAdditionalSpecFns;

verus! {

/// Relies on std's `str::from_utf8`: returns the bytes as a string slice
/// exactly when they are valid UTF-8.
#[verifier::external_body]
pub fn utf8_str<const N: usize>(bytes: &[u8; N]) -> (r: Option<&str>)
    ensures
        r is Some <==> vstd::utf8::valid_utf8(bytes@),
        r is Some ==> r->0.spec_bytes() == bytes@,
{
    match core::str::from_utf8(bytes) {
        Ok(s) => Some(s),
        Err(_) => None,
    }
}

/// Byte order of multi-byte integer fields.
#[derive(Clone, Copy, PartialEq, Eq, Structural, Debug)]
pub enum ByteOrder {
    Little,
    Big,
}

/// Value of a little-endian 16-bit field with bytes `b0 b1`.
pub open spec fn spec_le16(b0: u8, b1: u8) -> u16 {
    (b0 + 0x100 * b1) as u16
}

/// Value of a big-endian 16-bit field with bytes `b0 b1`.
pub open spec fn spec_be16(b0: u8, b1: u8) -> u16 {
    (0x100 * b0 + b1) as u16
}

/// Value of a little-endian 32-bit field with bytes `b0 b1 b2 b3`.
pub open spec fn spec_le32(b0: u8, b1: u8, b2: u8, b3: u8) -> u32 {
    (b0 + 0x100 * b1 + 0x10000 * b2 + 0x1000000 * b3) as u32
}

/// Value of a big-endian 32-bit field with bytes `b0 b1 b2 b3`.
pub open spec fn spec_be32(b0: u8, b1: u8, b2: u8, b3: u8) -> u32 {
    (0x1000000 * b0 + 0x10000 * b1 + 0x100 * b2 + b3) as u32
}

/// Value of a 16-bit field under the given byte order.
pub open spec fn spec_u16(bo: ByteOrder, b0: u8, b1: u8) -> u16 {
    match bo {
        ByteOrder::Little => spec_le16(b0, b1),
        ByteOrder::Big => spec_be16(b0, b1),
    }
}

/// Value of a 32-bit field under the given byte order.
pub open spec fn spec_u32(bo: ByteOrder, b0: u8, b1: u8, b2: u8, b3: u8) -> u32 {
    match bo {
        ByteOrder::Little => spec_le32(b0, b1, b2, b3),
        ByteOrder::Big => spec_be32(b0, b1, b2, b3),
    }
}

/// Value of the 16-bit field at `pos` in `d` under the given byte order.
pub open spec fn spec_u16_at(d: Seq<u8>, pos: int, bo: ByteOrder) -> u16
    recommends
        0 <= pos,
        pos + 2 <= d.len(),
{
    spec_u16(bo, d[pos], d[pos + 1])
}

/// Value of the 32-bit field at `pos` in `d` under the given byte order.
pub open spec fn spec_u32_at(d: Seq<u8>, pos: int, bo: ByteOrder) -> u32
    recommends
        0 <= pos,
        pos + 4 <= d.len(),
{
    spec_u32(bo, d[pos], d[pos + 1], d[pos + 2], d[pos + 3])
}

/// Value of the 64-bit field at `pos` in `d` under the given byte order.
pub open spec fn spec_u64_at(d: Seq<u8>, pos: int, bo: ByteOrder) -> u64
    recommends
        0 <= pos,
        pos + 8 <= d.len(),
{
    match bo {
        ByteOrder::Little => (spec_le32(d[pos], d[pos + 1], d[pos + 2], d[pos + 3])
            + 0x1_0000_0000 * spec_le32(d[pos + 4], d[pos + 5], d[pos + 6], d[pos + 7])) as u64,
        ByteOrder::Big => (0x1_0000_0000 * spec_be32(d[pos], d[pos + 1], d[pos + 2], d[pos + 3])
            + spec_be32(d[pos + 4], d[pos + 5], d[pos + 6], d[pos + 7])) as u64,
    }
}

/// Index of the first occurrence of `b` in `d`, or `d.len()` if `b` does not
/// occur.
pub open spec fn find_byte(d: Seq<u8>, b: u8) -> nat
    decreases d.len(),
{
    if d.len() == 0 {
        0
    } else if d[0] == b {
        0
    } else {
        1 + find_byte(d.skip(1), b)
    }
}

/// `find_byte` returns the index of the first occurrence, or the length.
pub proof fn lemma_find_byte(d: Seq<u8>, b: u8)
    ensures
        0 <= find_byte(d, b) <= d.len(),
        find_byte(d, b) < d.len() ==> d[find_byte(d, b) as int] == b,
        forall|j: int| 0 <= j < find_byte(d, b) ==> d[j] != b,
    decreases d.len(),
{
    if d.len() == 0 {
    } else if d[0] == b {
    } else {
        lemma_find_byte(d.skip(1), b);
        assert forall|j: int| 0 <= j < find_byte(d, b) implies d[j] != b by {
            if j > 0 {
                assert(d.skip(1)[j - 1] == d[j]);
            }
        }
        if find_byte(d, b) < d.len() {
            assert(d.skip(1)[find_byte(d, b) - 1] == d[find_byte(d, b) as int]);
        }
    }
}

/// Reads the 16-bit field with bytes `b0 b1` under the given byte order.
pub fn read_u16_of(bo: ByteOrder, b0: u8, b1: u8) -> (r: u16)
    ensures
        r == spec_u16(bo, b0, b1),
{
    match bo {
        ByteOrder::Little => b0 as u16 + 0x100 * (b1 as u16),
        ByteOrder::Big => 0x100 * (b0 as u16) + b1 as u16,
    }
}

/// Reads the 32-bit field with bytes `b0 b1 b2 b3` under the given byte order.
pub fn read_u32_of(bo: ByteOrder, b0: u8, b1: u8, b2: u8, b3: u8) -> (r: u32)
    ensures
        r == spec_u32(bo, b0, b1, b2, b3),
{
    match bo {
        ByteOrder::Little => b0 as u32 + 0x100 * (b1 as u32) + 0x10000 * (b2 as u32) + 0x1000000
            * (b3 as u32),
        ByteOrder::Big => 0x1000000 * (b0 as u32) + 0x10000 * (b1 as u32) + 0x100 * (b2 as u32)
            + b3 as u32,
    }
}

/// The 16-bit field at `pos`, or `None` if the buffer is too short.
pub fn u16_at(data: &Vec<u8>, pos: usize, bo: ByteOrder) -> (r: Option<u16>)
    ensures
        r is Some <==> pos + 2 <= data@.len(),
        r is Some ==> r->0 == spec_u16_at(data@, pos as int, bo),
{
    if pos < data.len() && data.len() - pos >= 2 {
        Some(read_u16_of(bo, data[pos], data[pos + 1]))
    } else {
        None
    }
}

/// The 32-bit field at `pos`, or `None` if the buffer is too short.
pub fn u32_at(data: &Vec<u8>, pos: usize, bo: ByteOrder) -> (r: Option<u32>)
    ensures
        r is Some <==> pos + 4 <= data@.len(),
        r is Some ==> r->0 == spec_u32_at(data@, pos as int, bo),
{
    if pos < data.len() && data.len() - pos >= 4 {
        Some(read_u32_of(bo, data[pos], data[pos + 1], data[pos + 2], data[pos + 3]))
    } else {
        None
    }
}

/// The 64-bit field at `pos`, or `None` if the buffer is too short.
pub fn u64_at(data: &Vec<u8>, pos: usize, bo: ByteOrder) -> (r: Option<u64>)
    ensures
        r is Some <==> pos + 8 <= data@.len(),
        r is Some ==> r->0 == spec_u64_at(data@, pos as int, bo),
{
    if pos < data.len() && data.len() - pos >= 8 {
        let a = read_u32_of(bo, data[pos], data[pos + 1], data[pos + 2], data[pos + 3]);
        let b = read_u32_of(bo, data[pos + 4], data[pos + 5], data[pos + 6], data[pos + 7]);
        match bo {
            ByteOrder::Little => Some(a as u64 + 0x1_0000_0000 * (b as u64)),
            ByteOrder::Big => Some(0x1_0000_0000 * (a as u64) + b as u64),
        }
    } else {
        None
    }
}

/// Copies `data[a..b]` into a fresh vector.
pub fn copy_range(data: &Vec<u8>, a: usize, b: usize) -> (v: Vec<u8>)
    requires
        a <= b <= data@.len(),
    ensures
        v@ == data@.subrange(a as int, b as int),
{
    let mut v: Vec<u8> = Vec::new();
    let mut i: usize = a;
    while i < b
        invariant
            a <= i <= b <= data@.len(),
            v@ == data@.subrange(a as int, i as int),
        decreases b - i,
    {
        v.push(data[i]);
        i = i + 1;
        assert(v@ =~= data@.subrange(a as int, i as int));
    }
    v
}

/// A forward-only cursor over an owned byte buffer.
///
/// Reads never move `pos` past the end of `data`; a read that would need
/// more bytes than remain returns `None` and leaves the cursor unchanged.
pub struct ByteReader {
    pub data: Vec<u8>,
    pub pos: usize,
}

impl ByteReader {
    /// The cursor never points past the end of the buffer.
    pub open spec fn wf(&self) -> bool {
        self.pos <= self.data@.len()
    }

    /// The bytes not yet consumed.
    pub open spec fn rem(&self) -> Seq<u8> {
        self.data@.skip(self.pos as int)
    }

    pub fn new(data: Vec<u8>) -> (r: ByteReader)
        ensures
            r.wf(),
            r.data@ == data@,
            r.pos == 0,
    {
        ByteReader { data, pos: 0 }
    }

    /// Moves the cursor back to the start of the buffer.
    pub fn rewind(&mut self)
        ensures
            final(self).data@ == old(self).data@,
            final(self).pos == 0,
            final(self).wf(),
    {
        self.pos = 0;
    }

    /// How many bytes remain.
    pub fn remaining(&self) -> (n: usize)
        requires
            self.wf(),
        ensures
            n == self.rem().len(),
    {
        self.data.len() - self.pos
    }

    /// Reads one byte.
    pub fn read_u8(&mut self) -> (r: Option<u8>)
        requires
            old(self).wf(),
        ensures
            final(self).data@ == old(self).data@,
            final(self).wf(),
            r is Some <==> old(self).rem().len() >= 1,
            r is Some ==> r->0 == old(self).rem()[0] && final(self).pos == old(self).pos + 1,
            r is None ==> final(self).pos == old(self).pos,
    {
        if self.pos < self.data.len() {
            let b = self.data[self.pos];
            self.pos = self.pos + 1;
            Some(b)
        } else {
            None
        }
    }

    /// Reads a 16-bit field under the given byte order.
    pub fn read_u16(&mut self, bo: ByteOrder) -> (r: Option<u16>)
        requires
            old(self).wf(),
        ensures
            final(self).data@ == old(self).data@,
            final(self).wf(),
            r is Some <==> old(self).rem().len() >= 2,
            r is Some ==> r->0 == spec_u16(bo, old(self).rem()[0], old(self).rem()[1])
                && final(self).pos == old(self).pos + 2,
            r is None ==> final(self).pos == old(self).pos,
    {
        if self.pos < self.data.len() && self.data.len() - self.pos >= 2 {
            let b0 = self.data[self.pos];
            let b1 = self.data[self.pos + 1];
            self.pos = self.pos + 2;
            Some(read_u16_of(bo, b0, b1))
        } else {
            None
        }
    }

    /// Reads a 32-bit field under the given byte order.
    pub fn read_u32(&mut self, bo: ByteOrder) -> (r: Option<u32>)
        requires
            old(self).wf(),
        ensures
            final(self).data@ == old(self).data@,
            final(self).wf(),
            r is Some <==> old(self).rem().len() >= 4,
            r is Some ==> r->0 == spec_u32(
                bo,
                old(self).rem()[0],
                old(self).rem()[1],
                old(self).rem()[2],
                old(self).rem()[3],
            ) && final(self).pos == old(self).pos + 4,
            r is None ==> final(self).pos == old(self).pos,
    {
        if self.pos < self.data.len() && self.data.len() - self.pos >= 4 {
            let b0 = self.data[self.pos];
            let b1 = self.data[self.pos + 1];
            let b2 = self.data[self.pos + 2];
            let b3 = self.data[self.pos + 3];
            self.pos = self.pos + 4;
            Some(read_u32_of(bo, b0, b1, b2, b3))
        } else {
            None
        }
    }

    /// Reads exactly `n` bytes, or returns `None` if fewer remain.
    pub fn read_bytes(&mut self, n: usize) -> (r: Option<Vec<u8>>)
        requires
            old(self).wf(),
        ensures
            final(self).data@ == old(self).data@,
            final(self).wf(),
            r is Some <==> old(self).rem().len() >= n,
            r is Some ==> r->0@ == old(self).rem().take(n as int)
                && final(self).pos == old(self).pos + n,
            r is None ==> final(self).pos == old(self).pos,
    {
        if self.pos < self.data.len() && self.data.len() - self.pos >= n || n == 0 {
            let v = copy_range(&self.data, self.pos, self.pos + n);
            self.pos = self.pos + n;
            assert(v@ =~= old(self).rem().take(n as int));
            Some(v)
        } else {
            None
        }
    }

    /// Reads everything that remains.
    pub fn read_rest(&mut self) -> (r: Vec<u8>)
        requires
            old(self).wf(),
        ensures
            final(self).data@ == old(self).data@,
            final(self).wf(),
            r@ == old(self).rem(),
            final(self).pos == old(self).data@.len(),
    {
        let v = copy_range(&self.data, self.pos, self.data.len());
        self.pos = self.data.len();
        assert(v@ =~= old(self).rem());
        v
    }

    /// Skips up to `n` bytes; returns how many were actually skipped, which
    /// is fewer than `n` only when the buffer ends first.
    pub fn skip_exact(&mut self, n: usize) -> (k: usize)
        requires
            old(self).wf(),
        ensures
            final(self).data@ == old(self).data@,
            final(self).wf(),
            k == if n <= old(self).rem().len() {
                n as int
            } else {
                old(self).rem().len() as int
            },
            final(self).pos == old(self).pos + k,
    {
        let avail = self.data.len() - self.pos;
        let k = if n <= avail {
            n
        } else {
            avail
        };
        self.pos = self.pos + k;
        k
    }

    /// Consumes bytes up to and including the first occurrence of `b`;
    /// returns the number consumed.  If `b` does not occur, consumes the
    /// whole rest and returns its length.
    pub fn skip_until(&mut self, b: u8) -> (k: usize)
        requires
            old(self).wf(),
        ensures
            final(self).data@ == old(self).data@,
            final(self).wf(),
            k == if find_byte(old(self).rem(), b) < old(self).rem().len() {
                find_byte(old(self).rem(), b) + 1
            } else {
                old(self).rem().len()
            },
            final(self).pos == old(self).pos + k,
    {
        let ghost rem0 = self.rem();
        proof {
            lemma_find_byte(rem0, b);
        }
        let start = self.pos;
        let len = self.data.len();
        let mut j: usize = self.pos;
        loop
            invariant
                self.wf(),
                self.data@ == old(self).data@,
                self.pos == old(self).pos,
                start == old(self).pos,
                len == self.data@.len(),
                rem0 == self.rem(),
                start <= j <= len,
                forall|t: int| 0 <= t < j - start ==> rem0[t] != b,
                0 <= find_byte(rem0, b) <= rem0.len(),
                find_byte(rem0, b) < rem0.len() ==> rem0[find_byte(rem0, b) as int] == b,
                forall|t: int| 0 <= t < find_byte(rem0, b) ==> rem0[t] != b,
            decreases len - j,
        {
            if j >= len {
                self.pos = j;
                assert(find_byte(rem0, b) >= rem0.len() || rem0[find_byte(rem0, b) as int] != b);
                return j - start;
            }
            let c = self.data[j];
            j = j + 1;
            if c == b {
                self.pos = j;
                assert(rem0[j - start - 1] == b);
                assert(find_byte(rem0, b) == j - start - 1) by {
                    if find_byte(rem0, b) < j - start - 1 {
                        assert(rem0[find_byte(rem0, b) as int] != b);
                    }
                }
                return j - start;
            }
        }
    }
}

} // verus!
