//! Metadata of PNG images: a fixed linear scan of the 8-byte signature and
//! the `IHDR` chunk.

use vstd::prelude::*;

use crate::types::{Dimensions, Error, ErrorKind};
use crate::utils::{spec_u32_at, ByteOrder, ByteReader};

verus! {

/// Color type used in an image, as defined by the PNG specification.
#[derive(Copy, Clone, Eq, PartialEq, Structural, Debug)]
pub enum ColorType {
    Grayscale,
    Rgb,
    Indexed,
    GrayscaleAlpha,
    RgbAlpha,
}

/// The color type designated by a raw code.
pub open spec fn spec_color_type(n: u8) -> Option<ColorType> {
    if n == 0 {
        Some(ColorType::Grayscale)
    } else if n == 2 {
        Some(ColorType::Rgb)
    } else if n == 3 {
        Some(ColorType::Indexed)
    } else if n == 4 {
        Some(ColorType::GrayscaleAlpha)
    } else if n == 6 {
        Some(ColorType::RgbAlpha)
    } else {
        None
    }
}

impl ColorType {
    /// Maps a raw color type code to the color type.
    pub fn from_u8(n: u8) -> (r: Option<ColorType>)
        ensures
            r == spec_color_type(n),
    {
        match n {
            0 => Some(ColorType::Grayscale),
            2 => Some(ColorType::Rgb),
            3 => Some(ColorType::Indexed),
            4 => Some(ColorType::GrayscaleAlpha),
            6 => Some(ColorType::RgbAlpha),
            _ => None,
        }
    }
}

/// Bits per pixel implied by a bit depth and a color type, or `None` when
/// the combination is not one the PNG specification allows.
pub open spec fn spec_color_depth(bit_depth: u8, color_type: u8) -> Option<u8> {
    if color_type == 3 {
        if bit_depth == 1 || bit_depth == 2 || bit_depth == 4 || bit_depth == 8 {
            Some(bit_depth)
        } else {
            None
        }
    } else if color_type == 0 {
        if bit_depth == 1 || bit_depth == 2 || bit_depth == 4 || bit_depth == 8 || bit_depth
            == 16 {
            Some(bit_depth)
        } else {
            None
        }
    } else if color_type == 4 {
        if bit_depth == 8 || bit_depth == 16 {
            Some((bit_depth * 2) as u8)
        } else {
            None
        }
    } else if color_type == 2 {
        if bit_depth == 8 || bit_depth == 16 {
            Some((bit_depth * 3) as u8)
        } else {
            None
        }
    } else if color_type == 6 {
        if bit_depth == 8 || bit_depth == 16 {
            Some((bit_depth * 4) as u8)
        } else {
            None
        }
    } else {
        None
    }
}

/// Computes the color depth (bits per pixel) from the raw bit depth and
/// color type fields.
pub fn compute_color_depth(bit_depth: u8, color_type: u8) -> (r: Option<u8>)
    ensures
        r == spec_color_depth(bit_depth, color_type),
{
    match color_type {
        3 => match bit_depth {
            1 | 2 | 4 | 8 => Some(bit_depth),
            _ => None,
        },
        0 => match bit_depth {
            1 | 2 | 4 | 8 | 16 => Some(bit_depth),
            _ => None,
        },
        4 => match bit_depth {
            8 | 16 => Some(bit_depth * 2),
            _ => None,
        },
        2 => match bit_depth {
            8 | 16 => Some(bit_depth * 3),
            _ => None,
        },
        6 => match bit_depth {
            8 | 16 => Some(bit_depth * 4),
            _ => None,
        },
        _ => None,
    }
}

/// Compression method used in an image; the PNG specification defines only
/// deflate/inflate, code 0.
#[derive(Copy, Clone, Eq, PartialEq, Structural, Debug)]
pub enum CompressionMethod {
    DeflateInflate,
}

/// The compression method designated by a raw code.
pub open spec fn spec_compression_method(n: u8) -> Option<CompressionMethod> {
    if n == 0 {
        Some(CompressionMethod::DeflateInflate)
    } else {
        None
    }
}

impl CompressionMethod {
    /// Maps a raw compression method code to the compression method.
    pub fn from_u8(n: u8) -> (r: Option<CompressionMethod>)
        ensures
            r == spec_compression_method(n),
    {
        match n {
            0 => Some(CompressionMethod::DeflateInflate),
            _ => None,
        }
    }
}

/// Filter method used in an image; the PNG specification defines only
/// adaptive filtering, code 0.
#[derive(Copy, Clone, Eq, PartialEq, Structural, Debug)]
pub enum FilterMethod {
    AdaptiveFiltering,
}

/// The filter method designated by a raw code.
pub open spec fn spec_filter_method(n: u8) -> Option<FilterMethod> {
    if n == 0 {
        Some(FilterMethod::AdaptiveFiltering)
    } else {
        None
    }
}

impl FilterMethod {
    /// Maps a raw filter method code to the filter method.
    pub fn from_u8(n: u8) -> (r: Option<FilterMethod>)
        ensures
            r == spec_filter_method(n),
    {
        match n {
            0 => Some(FilterMethod::AdaptiveFiltering),
            _ => None,
        }
    }
}

/// Interlace method used in an image: none, or Adam7.
#[derive(Copy, Clone, Eq, PartialEq, Structural, Debug)]
pub enum InterlaceMethod {
    Disabled,
    Adam7,
}

/// The interlace method designated by a raw code.
pub open spec fn spec_interlace_method(n: u8) -> Option<InterlaceMethod> {
    if n == 0 {
        Some(InterlaceMethod::Disabled)
    } else if n == 1 {
        Some(InterlaceMethod::Adam7)
    } else {
        None
    }
}

impl InterlaceMethod {
    /// Maps a raw interlace method code to the interlace method.
    pub fn from_u8(n: u8) -> (r: Option<InterlaceMethod>)
        ensures
            r == spec_interlace_method(n),
    {
        match n {
            0 => Some(InterlaceMethod::Disabled),
            1 => Some(InterlaceMethod::Adam7),
            _ => None,
        }
    }
}

/// Metadata of a PNG image: everything the `IHDR` chunk holds.
#[derive(Copy, Clone, Eq, PartialEq, Structural, Debug)]
pub struct Metadata {
    /// Width and height.
    pub dimensions: Dimensions,
    /// Color type used in the image.
    pub color_type: ColorType,
    /// Color depth (bits per pixel) used in the image.
    pub color_depth: u8,
    /// Compression method used in the image.
    pub compression_method: CompressionMethod,
    /// Preprocessing method used in the image.
    pub filter_method: FilterMethod,
    /// Transmission order used in the image.
    pub interlace_method: InterlaceMethod,
}

impl View for Metadata {
    type V = Metadata;

    open spec fn view(&self) -> Metadata {
        *self
    }
}

/// The 8-byte PNG signature.
pub open spec fn png_signature() -> Seq<u8> {
    seq![0x89u8, 0x50u8, 0x4eu8, 0x47u8, 0x0du8, 0x0au8, 0x1au8, 0x0au8]
}

/// The `IHDR` chunk type bytes.
pub open spec fn ihdr_type() -> Seq<u8> {
    seq![73u8, 72u8, 68u8, 82u8]
}

/// What loading PNG metadata from the bytes `d` yields: the record, or the
/// failure met first — a short read is `UnexpectedEndOfFile`, a wrong
/// signature, chunk type or field code is `InvalidFormat`.
pub open spec fn spec_load(d: Seq<u8>) -> Result<Metadata, ErrorKind> {
    if d.len() < 8 {
        Err(ErrorKind::UnexpectedEndOfFile)
    } else if d.subrange(0, 8) != png_signature() {
        Err(ErrorKind::InvalidFormat)
    } else if d.len() < 16 {
        Err(ErrorKind::UnexpectedEndOfFile)
    } else if d.subrange(12, 16) != ihdr_type() {
        Err(ErrorKind::InvalidFormat)
    } else if d.len() < 29 {
        Err(ErrorKind::UnexpectedEndOfFile)
    } else {
        let width = spec_u32_at(d, 16, ByteOrder::Big);
        let height = spec_u32_at(d, 20, ByteOrder::Big);
        let bit_depth = d[24];
        let color_type = d[25];
        let compression = d[26];
        let filter = d[27];
        let interlace = d[28];
        if spec_color_type(color_type) is None {
            Err(ErrorKind::InvalidFormat)
        } else if spec_color_depth(bit_depth, color_type) is None {
            Err(ErrorKind::InvalidFormat)
        } else if spec_compression_method(compression) is None {
            Err(ErrorKind::InvalidFormat)
        } else if spec_filter_method(filter) is None {
            Err(ErrorKind::InvalidFormat)
        } else if spec_interlace_method(interlace) is None {
            Err(ErrorKind::InvalidFormat)
        } else {
            Ok(
                Metadata {
                    dimensions: Dimensions { width, height },
                    color_type: spec_color_type(color_type)->0,
                    color_depth: spec_color_depth(bit_depth, color_type)->0,
                    compression_method: spec_compression_method(compression)->0,
                    filter_method: spec_filter_method(filter)->0,
                    interlace_method: spec_interlace_method(interlace)->0,
                },
            )
        }
    }
}

impl Metadata {
    /// Loads PNG metadata from the reader's remaining bytes.
    pub fn load(r: &mut ByteReader) -> (res: Result<Metadata, Error>)
        requires
            old(r).wf(),
        ensures
            final(r).data@ == old(r).data@,
            final(r).wf(),
            match spec_load(old(r).rem()) {
                Ok(m) => res matches Ok(got) && got == m,
                Err(k) => res matches Err(e) && e.kind() == k,
            },
    {
        let ghost d = r.rem();
        let sig = match r.read_bytes(8) {
            Some(s) => s,
            None => {
                return Err(Error::UnexpectedEndOfFile(Some("when reading PNG signature")));
            },
        };
        let sig_ok = sig[0] == 0x89 && sig[1] == 0x50 && sig[2] == 0x4e && sig[3] == 0x47 && sig[4]
            == 0x0d && sig[5] == 0x0a && sig[6] == 0x1a && sig[7] == 0x0a;
        proof {
            assert(sig@ =~= d.subrange(0, 8));
            if sig_ok {
                assert(d.subrange(0, 8) =~= png_signature());
            } else {
                assert(d.subrange(0, 8) != png_signature()) by {
                    if d.subrange(0, 8) == png_signature() {
                        assert(sig@[0] == 0x89u8 && sig@[1] == 0x50u8 && sig@[2] == 0x4eu8
                            && sig@[3] == 0x47u8 && sig@[4] == 0x0du8 && sig@[5] == 0x0au8
                            && sig@[6] == 0x1au8 && sig@[7] == 0x0au8);
                    }
                }
            }
        }
        if !sig_ok {
            return Err(Error::InvalidFormat(Some("invalid PNG header")));
        }
        let _chunk_len = match r.read_u32(ByteOrder::Big) {
            Some(n) => n,
            None => {
                return Err(Error::UnexpectedEndOfFile(Some("when reading chunk length")));
            },
        };
        let ct = match r.read_bytes(4) {
            Some(v) => v,
            None => {
                return Err(Error::UnexpectedEndOfFile(Some("when reading chunk type")));
            },
        };
        let ct_ok = ct[0] == 73 && ct[1] == 72 && ct[2] == 68 && ct[3] == 82;
        proof {
            assert(ct@ =~= d.subrange(12, 16));
            if ct_ok {
                assert(d.subrange(12, 16) =~= ihdr_type());
            } else {
                assert(d.subrange(12, 16) != ihdr_type()) by {
                    if d.subrange(12, 16) == ihdr_type() {
                        assert(ct@[0] == 73u8 && ct@[1] == 72u8 && ct@[2] == 68u8 && ct@[3]
                            == 82u8);
                    }
                }
            }
        }
        if !ct_ok {
            return Err(Error::InvalidFormat(Some("invalid PNG chunk")));
        }
        let width = match r.read_u32(ByteOrder::Big) {
            Some(n) => n,
            None => {
                return Err(Error::UnexpectedEndOfFile(Some("when reading width")));
            },
        };
        let height = match r.read_u32(ByteOrder::Big) {
            Some(n) => n,
            None => {
                return Err(Error::UnexpectedEndOfFile(Some("when reading height")));
            },
        };
        let bit_depth = match r.read_u8() {
            Some(n) => n,
            None => {
                return Err(Error::UnexpectedEndOfFile(Some("when reading bit depth")));
            },
        };
        let color_type = match r.read_u8() {
            Some(n) => n,
            None => {
                return Err(Error::UnexpectedEndOfFile(Some("when reading color type")));
            },
        };
        let compression = match r.read_u8() {
            Some(n) => n,
            None => {
                return Err(Error::UnexpectedEndOfFile(Some("when reading compression method")));
            },
        };
        let filter = match r.read_u8() {
            Some(n) => n,
            None => {
                return Err(Error::UnexpectedEndOfFile(Some("when reading filter method")));
            },
        };
        let interlace = match r.read_u8() {
            Some(n) => n,
            None => {
                return Err(Error::UnexpectedEndOfFile(Some("when reading interlace method")));
            },
        };
        proof {
            assert(width == spec_u32_at(d, 16, ByteOrder::Big));
            assert(height == spec_u32_at(d, 20, ByteOrder::Big));
            assert(bit_depth == d[24]);
            assert(color_type == d[25]);
            assert(compression == d[26]);
            assert(filter == d[27]);
            assert(interlace == d[28]);
        }
        let color_type_v = match ColorType::from_u8(color_type) {
            Some(v) => v,
            None => {
                return Err(Error::InvalidFormat(Some("invalid color type")));
            },
        };
        let color_depth = match compute_color_depth(bit_depth, color_type) {
            Some(v) => v,
            None => {
                return Err(Error::InvalidFormat(Some("invalid bit depth")));
            },
        };
        let compression_method = match CompressionMethod::from_u8(compression) {
            Some(v) => v,
            None => {
                return Err(Error::InvalidFormat(Some("invalid compression method")));
            },
        };
        let filter_method = match FilterMethod::from_u8(filter) {
            Some(v) => v,
            None => {
                return Err(Error::InvalidFormat(Some("invalid filter method")));
            },
        };
        let interlace_method = match InterlaceMethod::from_u8(interlace) {
            Some(v) => v,
            None => {
                return Err(Error::InvalidFormat(Some("invalid interlace method")));
            },
        };
        Ok(
            Metadata {
                dimensions: Dimensions { width, height },
                color_type: color_type_v,
                color_depth,
                compression_method,
                filter_method,
                interlace_method,
            },
        )
    }

    /// Loads PNG metadata from a byte buffer.
    pub fn load_from_buf(b: &[u8]) -> (res: Result<Metadata, Error>)
        ensures
            match spec_load(b@) {
                Ok(m) => res matches Ok(got) && got == m,
                Err(k) => res matches Err(e) && e.kind() == k,
            },
    {
        let mut r = ByteReader::new(vstd::slice::slice_to_vec(b));
        proof {
            assert(r.rem() =~= b@);
        }
        Metadata::load(&mut r)
    }
}

} // verus!
