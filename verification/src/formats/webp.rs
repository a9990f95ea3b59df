//! Metadata of WebP images: a RIFF container whose list type is `WEBP`,
//! holding a `VP8 ` chunk whose frame tag and keyframe header carry the
//! dimensions.

use vstd::prelude::*;

use crate::common::riff::{
    riff_id, sib_step, ChunkId, RiffChunk, RiffReader, SibStep,
};
use crate::types::{Dimensions, Error, ErrorKind};
use crate::utils::ByteReader;

verus! {

/// Metadata of a WebP image, one variant per codec flavor.
#[derive(Copy, Clone, Eq, PartialEq, Debug)]
pub enum Metadata {
    VP8(VP8Metadata),
    VP8L(VP8LMetadata),
    VP8X(VP8XMetadata),
}

/// Metadata decoded from a `VP8 ` chunk's frame tag.
#[derive(Copy, Clone, Eq, PartialEq, Debug)]
pub struct VP8Metadata {
    /// Version number from the frame tag.
    pub version_number: u8,
    /// Whether the frame is meant to be displayed.
    pub show_frame: bool,
    /// Size in bytes of the first data partition.
    pub first_partition_len: u32,
    /// The frame: a keyframe with dimensions, or an interframe.
    pub frame: VP8Frame,
}

/// A VP8 frame: a keyframe carries the dimensions and scale factors.
#[derive(Copy, Clone, Eq, PartialEq, Debug)]
pub enum VP8Frame {
    Key { dimensions: Dimensions, x_scale: u8, y_scale: u8 },
    Inter,
}

/// Placeholder for lossless (`VP8L`) metadata.
#[derive(Copy, Clone, Eq, PartialEq, Debug)]
pub struct VP8LMetadata;

/// Placeholder for extended-format (`VP8X`) metadata.
#[derive(Copy, Clone, Eq, PartialEq, Debug)]
pub struct VP8XMetadata;

/// The list type bytes of a WebP container.
pub open spec fn webp_type() -> Seq<u8> {
    seq![87u8, 69u8, 66u8, 80u8]
}

/// The id bytes of a `VP8 ` chunk.
pub open spec fn vp8_id() -> Seq<u8> {
    seq![86u8, 80u8, 56u8, 32u8]
}

/// What decoding a `VP8 ` chunk's content yields: the 3-byte frame tag,
/// and for a keyframe the 7-byte keyframe header with its fixed magic
/// bytes and the packed width, height and scale fields.
pub open spec fn spec_vp8(c: Seq<u8>) -> Result<VP8Metadata, ErrorKind> {
    if c.len() < 3 {
        Err(ErrorKind::UnexpectedEndOfFile)
    } else {
        let b0 = c[0];
        let key_frame = b0 & 1 == 0;
        let version_number = (b0 >> 1) & 7;
        let show_frame = (b0 >> 4) & 1 == 1;
        let first_partition_len = ((b0 >> 5) as u32) | ((c[1] as u32) << 3) | ((c[2] as u32)
            << 11);
        if !key_frame {
            Ok(
                VP8Metadata {
                    version_number,
                    show_frame,
                    first_partition_len,
                    frame: VP8Frame::Inter,
                },
            )
        } else if c.len() < 10 {
            Err(ErrorKind::UnexpectedEndOfFile)
        } else if !(c[3] == 0x9d && c[4] == 0x01 && c[5] == 0x2a) {
            Err(ErrorKind::InvalidFormat)
        } else {
            let width = (((c[7] & 0x3f) as u32) << 8) | (c[6] as u32);
            let height = (((c[9] & 0x3f) as u32) << 8) | (c[8] as u32);
            Ok(
                VP8Metadata {
                    version_number,
                    show_frame,
                    first_partition_len,
                    frame: VP8Frame::Key {
                        dimensions: Dimensions { width, height },
                        x_scale: c[7] >> 6,
                        y_scale: c[9] >> 6,
                    },
                },
            )
        }
    }
}

/// Decodes the frame tag and keyframe header held in a `VP8 ` chunk; the
/// chunk's content is read, which taints it.
pub fn read_vp8_chunk(chunk: &mut RiffChunk) -> (res: Result<VP8Metadata, Error>)
    ensures
        final(chunk).tainted,
        match spec_vp8(old(chunk).content@) {
            Ok(m) => res matches Ok(got) && got == m,
            Err(k) => res matches Err(e) && e.kind() == k,
        },
{
    let c = chunk.contents();
    if c.len() < 3 {
        return Err(Error::UnexpectedEndOfFile(Some("when reading VP8 frame header")));
    }
    let b0 = c[0];
    let key_frame = b0 & 1 == 0;
    let version_number = (b0 >> 1) & 7;
    let show_frame = (b0 >> 4) & 1 == 1;
    let first_partition_len = ((b0 >> 5) as u32) | ((c[1] as u32) << 3) | ((c[2] as u32) << 11);
    if !key_frame {
        return Ok(
            VP8Metadata { version_number, show_frame, first_partition_len, frame: VP8Frame::Inter },
        );
    }
    if c.len() < 10 {
        return Err(Error::UnexpectedEndOfFile(Some("when reading VP8 key frame header")));
    }
    if !(c[3] == 0x9d && c[4] == 0x01 && c[5] == 0x2a) {
        return Err(Error::InvalidFormat(Some("VP8 key frame magic code is invalid")));
    }
    let width = (((c[7] & 0x3f) as u32) << 8) | (c[6] as u32);
    let height = (((c[9] & 0x3f) as u32) << 8) | (c[8] as u32);
    Ok(
        VP8Metadata {
            version_number,
            show_frame,
            first_partition_len,
            frame: VP8Frame::Key {
                dimensions: Dimensions { width, height },
                x_scale: c[7] >> 6,
                y_scale: c[9] >> 6,
            },
        },
    )
}

/// What loading WebP metadata from the bytes `d` yields: the RIFF root
/// must carry the `WEBP` list type, and the first child chunk must be a
/// `VP8 ` chunk (the lossless and extended flavors are not decoded here).
pub open spec fn spec_load(d: Seq<u8>) -> Result<Metadata, ErrorKind> {
    match sib_step(d, 0) {
        SibStep::Next(root) => {
            if root.id != riff_id() {
                Err(ErrorKind::InvalidFormat)
            } else if root.content.len() < 4 {
                Err(ErrorKind::UnexpectedEndOfFile)
            } else if root.content.take(4) != webp_type() {
                Err(ErrorKind::InvalidFormat)
            } else {
                match sib_step(root.content.skip(4), 0) {
                    SibStep::Next(ch) => {
                        if ch.id == vp8_id() {
                            match spec_vp8(ch.content) {
                                Ok(m) => Ok(Metadata::VP8(m)),
                                Err(k) => Err(k),
                            }
                        } else {
                            Err(ErrorKind::InvalidFormat)
                        }
                    },
                    _ => Err(ErrorKind::UnexpectedEndOfFile),
                }
            }
        },
        _ => Err(ErrorKind::UnexpectedEndOfFile),
    }
}

impl Metadata {
    /// The image dimensions; defined for metadata of a VP8 keyframe,
    /// which is the only flavor this reader decodes.
    pub fn dimensions(&self) -> (r: Dimensions)
        requires
            *self matches Metadata::VP8(m) && m.frame is Key,
        ensures
            (*self) matches Metadata::VP8(m) && r == m.frame->dimensions,
    {
        match self {
            Metadata::VP8(m) => match &m.frame {
                VP8Frame::Key { dimensions, .. } => *dimensions,
                VP8Frame::Inter => VP8Frame::arbitrary_dimensions(),
            },
            _ => VP8Frame::arbitrary_dimensions(),
        }
    }

    /// Loads WebP metadata from the reader's remaining bytes.
    pub fn load(r: &mut ByteReader) -> (res: Result<Metadata, Error>)
        requires
            old(r).wf(),
        ensures
            final(r).data@ == old(r).data@,
            final(r).wf(),
            match spec_load(old(r).rem()) {
                Ok(m) => res matches Ok(got) && got == m,
                Err(k) => res matches Err(e) && e.kind() == k,
            },
    {
        let data = r.read_rest();
        let rr = RiffReader::new(data);
        let root = match rr.root() {
            Ok(c) => c,
            Err(e) => {
                return Err(e);
            },
        };
        let list = match root.into_list() {
            Ok(inner) => match inner {
                Ok(l) => l,
                Err(e) => {
                    return Err(e);
                },
            },
            Err(_) => {
                return Err(Error::InvalidFormat(Some("invalid WEBP signature")));
            },
        };
        let tb = &list.chunk_type.0;
        let type_ok = tb[0] == 87 && tb[1] == 69 && tb[2] == 66 && tb[3] == 80;
        let ghost root_rec = sib_step(old(r).rem(), 0)->Next_0;
        proof {
            if type_ok {
                assert(list.chunk_type@ =~= webp_type());
                assert(root_rec.content.take(4) =~= list.chunk_type@);
            } else {
                assert(root_rec.content.take(4) != webp_type()) by {
                    if root_rec.content.take(4) == webp_type() {
                        assert(list.chunk_type@[0] == 87u8 && list.chunk_type@[1] == 69u8
                            && list.chunk_type@[2] == 66u8 && list.chunk_type@[3] == 80u8);
                    }
                }
            }
        }
        if !type_ok {
            return Err(Error::InvalidFormat(Some("invalid WEBP signature")));
        }
        let mut list = list;
        let mut chunk = match list.next() {
            Some(c) => match c {
                Ok(c) => c,
                Err(e) => {
                    return Err(e);
                },
            },
            None => {
                return Err(Error::UnexpectedEndOfFile(Some("when reading first WEBP chunk")));
            },
        };
        let ib = chunk.chunk_id.0;
        let is_vp8 = ib[0] == 86 && ib[1] == 80 && ib[2] == 56 && ib[3] == 32;
        let ghost ch_rec = sib_step(root_rec.content.skip(4), 0)->Next_0;
        proof {
            if is_vp8 {
                assert(chunk.chunk_id@ =~= vp8_id());
            } else {
                assert(ch_rec.id != vp8_id()) by {
                    if ch_rec.id == vp8_id() {
                        assert(chunk.chunk_id@[0] == 86u8 && chunk.chunk_id@[1] == 80u8
                            && chunk.chunk_id@[2] == 56u8 && chunk.chunk_id@[3] == 32u8);
                    }
                }
            }
        }
        if !is_vp8 {
            return Err(Error::InvalidFormat(Some("invalid WEBP chunk id")));
        }
        match read_vp8_chunk(&mut chunk) {
            Ok(m) => Ok(Metadata::VP8(m)),
            Err(e) => Err(e),
        }
    }

    /// Loads WebP metadata from a byte buffer.
    pub fn load_from_buf(b: &[u8]) -> (res: Result<Metadata, Error>)
        ensures
            match spec_load(b@) {
                Ok(m) => res matches Ok(got) && got == m,
                Err(k) => res matches Err(e) && e.kind() == k,
            },
    {
        let mut r = ByteReader::new(vstd::slice::slice_to_vec(b));
        proof {
            assert(r.rem() =~= b@);
        }
        Metadata::load(&mut r)
    }
}

impl VP8Frame {
    /// A fixed dimensions value; only reached from code whose callers are
    /// excluded by `requires` from asking for it.
    fn arbitrary_dimensions() -> Dimensions {
        Dimensions { width: 0, height: 0 }
    }
}

} // verus!
