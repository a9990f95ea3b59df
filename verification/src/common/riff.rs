//! RIFF chunk walker.
//!
//! A RIFF document is a root chunk whose content may hold a flat run of
//! sibling chunks, each a 4-byte id, a little-endian 32-bit length and that
//! many content bytes.  `RIFF` and `LIST` chunks may be entered, which reads
//! a further 4-byte list type and then yields the children one by one.
//!
//! The ghost model is [`sib_seq`]: the sequence of sibling records laid out
//! in a byte region.  [`RiffListChunk::next`] is proved to walk exactly that
//! sequence, and [`lemma_riff_round_trip`] states the round trip: a region
//! that encodes a sequence of records walks back to precisely those records.

use vstd::prelude::*;
use vstd::string::StringSliceAdditionalSpecFns;

use crate::types::Error;
use crate::utils::{spec_u32_at, u32_at, copy_range, utf8_str, ByteOrder};

verus! {

/// A four-byte chunk identifier, compared byte for byte.
#[derive(Copy, Clone, PartialEq, Eq, Debug)]
pub struct ChunkId(pub [u8; 4]);

impl View for ChunkId {
    type V = Seq<u8>;

    open spec fn view(&self) -> Seq<u8> {
        self.0@
    }
}

impl ChunkId {
    /// The id as UTF-8 text, when it is valid UTF-8.
    pub fn as_str(&self) -> (r: Option<&str>)
        ensures
            r is Some <==> vstd::utf8::valid_utf8(self@),
            r is Some ==> r->0.spec_bytes() == self@,
    {
        utf8_str(&self.0)
    }

    /// The raw id bytes.
    pub fn as_bytes(&self) -> (r: &[u8; 4])
        ensures
            r@ == self@,
    {
        &self.0
    }
}

/// The id bytes of a `RIFF` chunk.
pub open spec fn riff_id() -> Seq<u8> {
    seq![82u8, 73u8, 70u8, 70u8]
}

/// The id bytes of a `LIST` chunk.
pub open spec fn list_id() -> Seq<u8> {
    seq![76u8, 73u8, 83u8, 84u8]
}

/// One sibling chunk as laid out in a byte region: its id, its declared
/// length, and its content clipped to the region.
pub struct ChunkRec {
    pub id: Seq<u8>,
    pub len: u32,
    pub content: Seq<u8>,
}

/// What the walker finds at position `pos` of a region: the end of the run,
/// a truncated header, or a chunk.
pub enum SibStep {
    Done,
    Truncated,
    Next(ChunkRec),
}

/// The declared length of the chunk whose header starts at `pos`.
pub open spec fn chunk_len_at(d: Seq<u8>, pos: int) -> u32 {
    spec_u32_at(d, pos + 4, ByteOrder::Little)
}

/// Where the content of the chunk at `pos` ends: its declared end, clipped
/// to the region.
pub open spec fn chunk_content_end(d: Seq<u8>, pos: int) -> int {
    if pos + 8 + chunk_len_at(d, pos) <= d.len() {
        pos + 8 + chunk_len_at(d, pos)
    } else {
        d.len() as int
    }
}

/// Position of the next sibling header after the chunk at `pos`; may exceed
/// the region when the chunk's declared length does.
pub open spec fn next_sib_pos(d: Seq<u8>, pos: int) -> int {
    pos + 8 + chunk_len_at(d, pos)
}

/// One step of the sibling walk at position `pos` of region `d`.
pub open spec fn sib_step(d: Seq<u8>, pos: int) -> SibStep {
    if pos == d.len() {
        SibStep::Done
    } else if pos < 0 || pos + 8 > d.len() {
        SibStep::Truncated
    } else {
        SibStep::Next(
            ChunkRec {
                id: d.subrange(pos, pos + 4),
                len: chunk_len_at(d, pos),
                content: d.subrange(pos + 8, chunk_content_end(d, pos)),
            },
        )
    }
}

/// All sibling chunks from `pos` to the point where the walk ends, whether
/// cleanly or on a truncation.
pub open spec fn sib_seq(d: Seq<u8>, pos: int) -> Seq<ChunkRec>
    decreases d.len() - pos,
{
    match sib_step(d, pos) {
        SibStep::Next(c) => {
            if next_sib_pos(d, pos) <= d.len() {
                seq![c] + sib_seq(d, next_sib_pos(d, pos))
            } else {
                seq![c]
            }
        },
        _ => Seq::empty(),
    }
}

/// `d` lays out exactly the records `cs` from `pos` to the end of the
/// region: each record's id, a little-endian header length equal to its
/// content length, and the content itself, packed back to back.
pub open spec fn encodes(d: Seq<u8>, pos: int, cs: Seq<ChunkRec>) -> bool
    decreases cs.len(),
{
    if cs.len() == 0 {
        pos == d.len()
    } else {
        let c = cs[0];
        &&& c.id.len() == 4
        &&& c.content.len() == c.len
        &&& 0 <= pos
        &&& pos + 8 + c.len <= d.len()
        &&& d.subrange(pos, pos + 4) == c.id
        &&& chunk_len_at(d, pos) == c.len
        &&& d.subrange(pos + 8, pos + 8 + c.len) == c.content
        &&& encodes(d, pos + 8 + c.len, cs.skip(1))
    }
}

/// Round trip: walking a region that encodes the records `cs` yields
/// exactly `cs`, in order, with the ids, lengths and content bytes that
/// were laid out — no matter whether any chunk's content is ever read,
/// since the walk is a function of the region alone.
pub proof fn lemma_riff_round_trip(d: Seq<u8>, pos: int, cs: Seq<ChunkRec>)
    requires
        encodes(d, pos, cs),
    ensures
        sib_seq(d, pos) == cs,
    decreases cs.len(),
{
    if cs.len() == 0 {
        assert(sib_seq(d, pos) =~= cs);
    } else {
        let c = cs[0];
        lemma_riff_round_trip(d, pos + 8 + c.len, cs.skip(1));
        assert(sib_step(d, pos) == SibStep::Next(c));
        assert(sib_seq(d, pos) =~= cs);
    }
}

/// Reads the root chunk of a RIFF document held in a byte buffer.
pub struct RiffReader {
    pub data: Vec<u8>,
}

/// An untyped chunk: its identity, its declared length, and its content
/// bytes (clipped to what the document actually holds).  Reading the
/// content taints the chunk, after which it can no longer be entered as a
/// list.
#[derive(Debug)]
pub struct RiffChunk {
    pub chunk_id: ChunkId,
    pub len: u32,
    pub tainted: bool,
    pub content: Vec<u8>,
}

/// An entered `RIFF`/`LIST` chunk: adds the 4-byte list type and walks the
/// children held in its body.
#[derive(Debug)]
pub struct RiffListChunk {
    pub chunk_id: ChunkId,
    pub len: u32,
    pub chunk_type: ChunkId,
    pub content: Vec<u8>,
    pub pos: usize,
    pub overran: bool,
}

impl RiffReader {
    pub fn new(data: Vec<u8>) -> (r: RiffReader)
        ensures
            r.data@ == data@,
    {
        RiffReader { data }
    }

    /// Reads the 8-byte root header.  Fails with `UnexpectedEndOfFile` when
    /// fewer than 8 bytes are available, with `InvalidFormat` when the id is
    /// not `RIFF`; otherwise returns the root chunk, untainted, bounded to
    /// its declared length.
    pub fn root(&self) -> (r: Result<RiffChunk, Error>)
        ensures
            match sib_step(self.data@, 0) {
                SibStep::Next(c) => {
                    if c.id == riff_id() {
                        r matches Ok(chunk) && chunk.chunk_id@ == c.id && chunk.len == c.len
                            && !chunk.tainted && chunk.content@ == c.content
                    } else {
                        r matches Err(e) && e.kind() == crate::types::ErrorKind::InvalidFormat
                    }
                },
                _ => r matches Err(e) && e.kind() == crate::types::ErrorKind::UnexpectedEndOfFile,
            },
    {
        if self.data.len() < 8 {
            return Err(Error::UnexpectedEndOfFile(None));
        }
        let id = ChunkId([self.data[0], self.data[1], self.data[2], self.data[3]]);
        let len = match u32_at(&self.data, 4, ByteOrder::Little) {
            Some(n) => n,
            None => {
                return Err(Error::UnexpectedEndOfFile(None));
            },
        };
        if !(id.0[0] == 82 && id.0[1] == 73 && id.0[2] == 70 && id.0[3] == 70) {
            proof {
                assert(id@ != riff_id());
            }
            return Err(Error::InvalidFormat(Some("RIFF file header is invalid")));
        }
        proof {
            assert(id@ =~= riff_id());
        }
        let end128 = 8u128 + len as u128;
        let end = if end128 <= self.data.len() as u128 {
            end128 as usize
        } else {
            self.data.len()
        };
        let content = copy_range(&self.data, 8, end);
        proof {
            assert(id@ =~= self.data@.subrange(0, 4));
        }
        Ok(RiffChunk { chunk_id: id, len, tainted: false, content })
    }
}

impl RiffChunk {
    /// The chunk's identity.
    pub fn chunk_id(&self) -> (r: ChunkId)
        ensures
            r == self.chunk_id,
    {
        self.chunk_id
    }

    /// The chunk's declared content length in bytes.
    pub fn len(&self) -> (r: u32)
        ensures
            r == self.len,
    {
        self.len
    }

    /// The chunk's content bytes.  Obtaining them taints the chunk: it can
    /// no longer be entered as a list afterwards.
    pub fn contents(&mut self) -> (r: Vec<u8>)
        ensures
            r@ == old(self).content@,
            final(self).chunk_id == old(self).chunk_id,
            final(self).len == old(self).len,
            final(self).content@ == old(self).content@,
            final(self).tainted,
    {
        self.tainted = true;
        copy_range(&self.content, 0, self.content.len())
    }

    /// Whether this chunk can still be entered as a list: its id must be
    /// `RIFF` or `LIST` and its content must not have been read.
    pub open spec fn spec_can_have_subchunks(&self) -> bool {
        !self.tainted && (self.chunk_id@ == riff_id() || self.chunk_id@ == list_id())
    }

    pub fn can_have_subchunks(&self) -> (r: bool)
        ensures
            r == self.spec_can_have_subchunks(),
    {
        let b = &self.chunk_id.0;
        let is_riff = b[0] == 82 && b[1] == 73 && b[2] == 70 && b[3] == 70;
        let is_list = b[0] == 76 && b[1] == 73 && b[2] == 83 && b[3] == 84;
        proof {
            if is_riff {
                assert(self.chunk_id@ =~= riff_id());
            }
            if is_list {
                assert(self.chunk_id@ =~= list_id());
            }
        }
        !self.tainted && (is_riff || is_list)
    }

    /// Tries to enter the chunk as a list.  When the chunk cannot hold
    /// subchunks (wrong id, or already tainted) the original chunk comes
    /// back unchanged in the outer `Err`, so it can still be read as raw
    /// bytes; when it can, the first 4 content bytes become the list type
    /// and the walk starts after them (`UnexpectedEndOfFile` if even those
    /// 4 bytes are missing).
    pub fn into_list(self) -> (r: Result<Result<RiffListChunk, Error>, RiffChunk>)
        ensures
            !self.spec_can_have_subchunks() ==> (r matches Err(c) && c.chunk_id == self.chunk_id
                && c.len == self.len && c.tainted == self.tainted && c.content@ == self.content@),
            self.spec_can_have_subchunks() && self.content@.len() < 4 ==> (r matches Ok(inner)
                && inner matches Err(e) && e.kind()
                == crate::types::ErrorKind::UnexpectedEndOfFile),
            self.spec_can_have_subchunks() && self.content@.len() >= 4 ==> (r matches Ok(inner)
                && inner matches Ok(l) && l.chunk_id == self.chunk_id && l.len == self.len
                && l.chunk_type@ == self.content@.take(4) && l.content@ == self.content@.skip(4)
                && l.pos == 0 && !l.overran),
    {
        if self.can_have_subchunks() {
            Ok(self.into_list_unchecked())
        } else {
            Err(self)
        }
    }

    /// Enters the chunk as a list without checking its id or taint: reads
    /// the 4-byte list type and hands the rest of the content to the walk.
    pub fn into_list_unchecked(self) -> (r: Result<RiffListChunk, Error>)
        ensures
            self.content@.len() < 4 ==> (r matches Err(e) && e.kind()
                == crate::types::ErrorKind::UnexpectedEndOfFile),
            self.content@.len() >= 4 ==> (r matches Ok(l) && l.chunk_id == self.chunk_id && l.len
                == self.len && l.chunk_type@ == self.content@.take(4) && l.content@
                == self.content@.skip(4) && l.pos == 0 && !l.overran),
    {
        if self.content.len() < 4 {
            return Err(Error::UnexpectedEndOfFile(None));
        }
        let chunk_type = ChunkId(
            [self.content[0], self.content[1], self.content[2], self.content[3]],
        );
        let body = copy_range(&self.content, 4, self.content.len());
        proof {
            assert(chunk_type@ =~= self.content@.take(4));
        }
        Ok(
            RiffListChunk {
                chunk_id: self.chunk_id,
                len: self.len,
                chunk_type,
                content: body,
                pos: 0,
                overran: false,
            },
        )
    }
}

impl RiffListChunk {
    /// The walk position never passes the end of the body unless the
    /// previous chunk's declared length overran it.
    pub open spec fn wf(&self) -> bool {
        !self.overran ==> self.pos <= self.content@.len()
    }

    /// The list chunk's identity.
    pub fn chunk_id(&self) -> (r: ChunkId)
        ensures
            r == self.chunk_id,
    {
        self.chunk_id
    }

    /// The list chunk's declared content length in bytes.
    pub fn len(&self) -> (r: u32)
        ensures
            r == self.len,
    {
        self.len
    }

    /// The 4-byte list type read when the list was entered.
    pub fn chunk_type(&self) -> (r: ChunkId)
        ensures
            r == self.chunk_type,
    {
        self.chunk_type
    }

    /// Yields the next child chunk.
    ///
    /// Any unread remainder of the previous child is skipped by position
    /// arithmetic, so the walk lands on the following sibling no matter how
    /// much of the previous child's content was read.  `None` marks a clean
    /// end exactly at the body boundary; a partial header, or a previous
    /// child whose declared length overran the body, is
    /// `UnexpectedEndOfFile`.
    pub fn next(&mut self) -> (r: Option<Result<RiffChunk, Error>>)
        requires
            old(self).wf(),
        ensures
            final(self).wf(),
            final(self).chunk_id == old(self).chunk_id,
            final(self).len == old(self).len,
            final(self).chunk_type == old(self).chunk_type,
            final(self).content@ == old(self).content@,
            old(self).overran ==> (r matches Some(res) && res matches Err(e) && e.kind()
                == crate::types::ErrorKind::UnexpectedEndOfFile && final(self).overran),
            !old(self).overran ==> match sib_step(old(self).content@, old(self).pos as int) {
                SibStep::Done => r is None && final(self).pos == old(self).pos
                    && !final(self).overran,
                SibStep::Truncated => r matches Some(res) && res matches Err(e) && e.kind()
                    == crate::types::ErrorKind::UnexpectedEndOfFile,
                SibStep::Next(c) => r matches Some(res) && res matches Ok(chunk)
                    && chunk.chunk_id@ == c.id && chunk.len == c.len && !chunk.tainted
                    && chunk.content@ == c.content && (if next_sib_pos(
                    old(self).content@,
                    old(self).pos as int,
                ) <= old(self).content@.len() {
                    final(self).pos == next_sib_pos(old(self).content@, old(self).pos as int)
                        && !final(self).overran
                } else {
                    final(self).overran
                }),
            },
    {
        if self.overran {
            return Some(Err(Error::UnexpectedEndOfFile(None)));
        }
        let avail = self.content.len() - self.pos;
        if avail == 0 {
            return None;
        }
        if avail < 8 {
            return Some(Err(Error::UnexpectedEndOfFile(None)));
        }
        let p = self.pos;
        let id = ChunkId(
            [self.content[p], self.content[p + 1], self.content[p + 2], self.content[p + 3]],
        );
        let len = match u32_at(&self.content, p + 4, ByteOrder::Little) {
            Some(n) => n,
            None => {
                return Some(Err(Error::UnexpectedEndOfFile(None)));
            },
        };
        proof {
            assert(id@ =~= self.content@.subrange(p as int, p as int + 4));
        }
        let next128 = p as u128 + 8 + len as u128;
        let end = if next128 <= self.content.len() as u128 {
            next128 as usize
        } else {
            self.content.len()
        };
        let child = copy_range(&self.content, p + 8, end);
        if next128 <= self.content.len() as u128 {
            self.pos = next128 as usize;
        } else {
            self.overran = true;
        }
        Some(Ok(RiffChunk { chunk_id: id, len, tainted: false, content: child }))
    }
}

/// Taint invariant: once a chunk's content has been obtained it cannot be
/// entered as a list, whatever its id says.
pub proof fn lemma_tainted_chunk_stays_raw(c: RiffChunk)
    requires
        c.tainted,
    ensures
        !c.spec_can_have_subchunks(),
{
}

} // verus!
