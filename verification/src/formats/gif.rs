//! Metadata of GIF images.
//!
//! After a 13-byte logical-screen header (signature and version, the
//! dimensions, a packed flags byte, the background color index and the
//! pixel aspect ratio) and an optional global color table, the file is a
//! run of blocks, one introducer byte each: an image descriptor (0x2C), an
//! extension (0x21) or the trailer (0x3B).  The recurring pattern is the
//! sub-block run: length-prefixed segments ended by a zero-length one.

use vstd::prelude::*;
use vstd::string::StringSliceAdditionalSpecFns;

use crate::types::{Dimensions, Error, ErrorKind};
use crate::utils::{spec_u16_at, utf8_str, ByteOrder, ByteReader};

verus! {

/// GIF file version number.
#[derive(Copy, Clone, PartialEq, Eq, Debug)]
pub enum Version {
    V87a,
    V89a,
}

/// The version designated by the three version bytes of the signature.
pub open spec fn spec_version(b0: u8, b1: u8, b2: u8) -> Option<Version> {
    if b0 == 56 && b1 == 55 && b2 == 97 {
        Some(Version::V87a)
    } else if b0 == 56 && b1 == 57 && b2 == 97 {
        Some(Version::V89a)
    } else {
        None
    }
}

impl Version {
    /// Maps the three version bytes (`87a` or `89a`) to the version.
    pub fn from_bytes(b: &[u8]) -> (r: Option<Version>)
        requires
            b@.len() == 3,
        ensures
            r == spec_version(b@[0], b@[1], b@[2]),
    {
        let b0 = *vstd::slice::slice_index_get(b, 0);
        let b1 = *vstd::slice::slice_index_get(b, 1);
        let b2 = *vstd::slice::slice_index_get(b, 2);
        if b0 == 56 && b1 == 55 && b2 == 97 {
            Some(Version::V87a)
        } else if b0 == 56 && b1 == 57 && b2 == 97 {
            Some(Version::V89a)
        } else {
            None
        }
    }
}

/// Information about a color table (global or local): its size and whether
/// it is sorted by decreasing importance.
#[derive(Copy, Clone, PartialEq, Eq, Debug)]
pub struct ColorTable {
    /// Color table size, between 2 and 256.
    pub size: u16,
    /// Whether the color table is sorted.
    pub sorted: bool,
}

/// Describes how a graphic is treated after being displayed.
#[derive(Copy, Clone, PartialEq, Eq, Debug)]
pub enum DisposalMethod {
    /// The decoder is not required to take any action.
    NoDisposal,
    /// The graphic is to be left in place.
    DoNotDispose,
    /// The area used by the graphic must be restored to the background
    /// color.
    RestoreToBackgroundColor,
    /// The area must be restored to what was there before the graphic.
    RestoreToPrevious,
    /// A reserved disposal method code.
    Unknown(u8),
}

/// The disposal method designated by a raw 3-bit code; codes 8 and above
/// are invalid.
pub open spec fn spec_disposal_method(n: u8) -> Option<DisposalMethod> {
    if n == 0 {
        Some(DisposalMethod::NoDisposal)
    } else if n == 1 {
        Some(DisposalMethod::DoNotDispose)
    } else if n == 2 {
        Some(DisposalMethod::RestoreToBackgroundColor)
    } else if n == 3 {
        Some(DisposalMethod::RestoreToPrevious)
    } else if n < 8 {
        Some(DisposalMethod::Unknown(n))
    } else {
        None
    }
}

impl DisposalMethod {
    /// Maps a raw disposal method code to the disposal method.
    pub fn from_u8(n: u8) -> (r: Option<DisposalMethod>)
        ensures
            r == spec_disposal_method(n),
    {
        match n {
            0 => Some(DisposalMethod::NoDisposal),
            1 => Some(DisposalMethod::DoNotDispose),
            2 => Some(DisposalMethod::RestoreToBackgroundColor),
            3 => Some(DisposalMethod::RestoreToPrevious),
            n if n < 8 => Some(DisposalMethod::Unknown(n)),
            _ => None,
        }
    }
}

/// Metadata of one image block (one frame).
#[derive(Copy, Clone, PartialEq, Eq, Debug)]
pub struct ImageDescriptor {
    /// Offset of the image data from the left of the logical screen.
    pub left: u16,
    /// Offset of the image data from the top of the logical screen.
    pub top: u16,
    /// Width of the image data.
    pub width: u16,
    /// Height of the image data.
    pub height: u16,
    /// Information about the local color table, if one is present.
    pub local_color_table: Option<ColorTable>,
    /// Whether the image is interlaced.
    pub interlace: bool,
}

/// Metadata of a graphic control extension block: how the following image
/// should be displayed, with the delay and disposal flags that matter for
/// animation.
#[derive(Copy, Clone, PartialEq, Eq, Debug)]
pub struct GraphicControlExtension {
    /// How the graphic is treated after it is displayed.
    pub disposal_method: DisposalMethod,
    /// Whether user input is required before continuing.
    pub user_input: bool,
    /// The "transparent" color index, if one is set.
    pub transparent_color_index: Option<u8>,
    /// Delay before processing the rest of the stream, in hundredths of a
    /// second; zero means no delay.
    pub delay_time: u16,
}

impl GraphicControlExtension {
    /// The delay time in milliseconds.
    pub fn delay_time_ms(&self) -> (r: u32)
        ensures
            r == self.delay_time * 10,
    {
        self.delay_time as u32 * 10
    }
}

/// Metadata of a plain text extension block: a text grid rendered over the
/// logical screen.
#[derive(Copy, Clone, PartialEq, Eq, Debug)]
pub struct PlainTextExtension {
    /// Column, in pixels, of the left edge of the text grid.
    pub left: u16,
    /// Row, in pixels, of the top edge of the text grid.
    pub top: u16,
    /// Width of the text grid in pixels.
    pub width: u16,
    /// Height of the text grid in pixels.
    pub height: u16,
    /// Width in pixels of each cell in the grid.
    pub cell_width: u8,
    /// Height in pixels of each cell in the grid.
    pub cell_height: u8,
    /// Index of the foreground color in the global color table.
    pub foreground_color_index: u8,
    /// Index of the background color in the global color table.
    pub background_color_index: u8,
}

/// Metadata of an application extension block: which application created
/// the image.
#[derive(Copy, Clone, PartialEq, Eq, Debug)]
pub struct ApplicationExtension {
    /// Eight ASCII bytes of an application identifier.
    pub application_identifier: [u8; 8],
    /// Three bytes of an application authentication code.
    pub authentication_code: [u8; 3],
}

impl ApplicationExtension {
    /// The application identifier as UTF-8 text, when it is valid UTF-8.
    pub fn application_identifier_str(&self) -> (r: Option<&str>)
        ensures
            r is Some <==> vstd::utf8::valid_utf8(self.application_identifier@),
            r is Some ==> r->0.spec_bytes() == self.application_identifier@,
    {
        utf8_str(&self.application_identifier)
    }

    /// The authentication code as UTF-8 text, when it is valid UTF-8.
    pub fn authentication_code_str(&self) -> (r: Option<&str>)
        ensures
            r is Some <==> vstd::utf8::valid_utf8(self.authentication_code@),
            r is Some ==> r->0.spec_bytes() == self.authentication_code@,
    {
        utf8_str(&self.authentication_code)
    }
}

/// A comment extension block carries no metadata; this placeholder keeps
/// the block list uniform.
#[derive(Copy, Clone, PartialEq, Eq, Debug)]
pub struct CommentExtension;

/// One block of a GIF image.
#[derive(Copy, Clone, PartialEq, Eq, Debug)]
pub enum Block {
    /// An image descriptor (image contents for one frame).
    ImageDescriptor(ImageDescriptor),
    /// Graphics control metadata (frame delay, transparency).
    GraphicControlExtension(GraphicControlExtension),
    /// Plain text block.
    PlainTextExtension(PlainTextExtension),
    /// Application information block.
    ApplicationExtension(ApplicationExtension),
    /// Comment block.
    CommentExtension(CommentExtension),
}

/// Ghost image of a [`Block`]: the application extension's byte arrays are
/// byte sequences.
pub enum BlockRec {
    Image(ImageDescriptor),
    GraphicControl(GraphicControlExtension),
    PlainText(PlainTextExtension),
    Application { application_identifier: Seq<u8>, authentication_code: Seq<u8> },
    Comment,
}

impl View for Block {
    type V = BlockRec;

    open spec fn view(&self) -> BlockRec {
        match self {
            Block::ImageDescriptor(d) => BlockRec::Image(*d),
            Block::GraphicControlExtension(g) => BlockRec::GraphicControl(*g),
            Block::PlainTextExtension(p) => BlockRec::PlainText(*p),
            Block::ApplicationExtension(a) => BlockRec::Application {
                application_identifier: a.application_identifier@,
                authentication_code: a.authentication_code@,
            },
            Block::CommentExtension(_) => BlockRec::Comment,
        }
    }
}

/// The sub-block run model: repeated `[length byte][length bytes]` until a
/// zero length byte.  Yields the bytes consumed, terminator included, or
/// the failure.
pub open spec fn spec_skip_blocks(d: Seq<u8>) -> Result<int, ErrorKind>
    decreases d.len(),
{
    if d.len() < 1 {
        Err(ErrorKind::UnexpectedEndOfFile)
    } else {
        let n = d[0];
        if n == 0 {
            Ok(1)
        } else if 1 + n > d.len() {
            Err(ErrorKind::UnexpectedEndOfFile)
        } else {
            match spec_skip_blocks(d.skip(1 + n)) {
                Ok(c) => Ok(1 + n + c),
                Err(k) => Err(k),
            }
        }
    }
}

/// A sub-block run consumes at least one byte and never more than the
/// input holds.
pub proof fn lemma_skip_blocks_consumed(d: Seq<u8>)
    ensures
        spec_skip_blocks(d) matches Ok(c) ==> 1 <= c <= d.len(),
    decreases d.len(),
{
    if d.len() >= 1 && d[0] != 0 && 1 + d[0] <= d.len() {
        lemma_skip_blocks_consumed(d.skip(1 + d[0] as int));
    }
}

/// Skips a sub-block run from the reader's position.
pub fn skip_blocks(r: &mut ByteReader) -> (res: Result<(), Error>)
    requires
        old(r).wf(),
    ensures
        final(r).data@ == old(r).data@,
        final(r).wf(),
        match spec_skip_blocks(old(r).rem()) {
            Ok(c) => res is Ok && final(r).pos == old(r).pos + c,
            Err(k) => res matches Err(e) && e.kind() == k,
        },
    decreases old(r).rem().len(),
{
    let ghost d = r.rem();
    let n = match r.read_u8() {
        Some(b) => b,
        None => {
            return Err(Error::UnexpectedEndOfFile(Some("when skipping data sub-blocks")));
        },
    };
    if n == 0 {
        return Ok(());
    }
    let k = r.skip_exact(n as usize);
    if k != n as usize {
        return Err(Error::UnexpectedEndOfFile(Some("when skipping data sub-blocks")));
    }
    proof {
        assert(r.rem() =~= d.skip(1 + n as int));
    }
    skip_blocks(r)
}

/// The image descriptor model over the bytes after the 0x2C introducer:
/// the 9 fixed bytes, the optional local color table, the LZW minimum code
/// size byte, and the image data sub-block run.  Yields the descriptor and
/// the bytes consumed.
pub open spec fn spec_image_descriptor(d: Seq<u8>) -> Result<(ImageDescriptor, int), ErrorKind> {
    if d.len() < 9 {
        Err(ErrorKind::UnexpectedEndOfFile)
    } else {
        let packed = d[8];
        let has_lct = packed & 0x80 > 0;
        let interlace = packed & 0x40 > 0;
        let sorted = packed & 0x20 > 0;
        let size_p = packed & 0x07;
        let lct_size = if has_lct {
            (1u16 << ((size_p + 1) as u16)) as u16
        } else {
            0u16
        };
        let after_table: int = 9 + 3 * lct_size;
        if has_lct && after_table > d.len() {
            Err(ErrorKind::UnexpectedEndOfFile)
        } else if after_table + 1 > d.len() {
            Err(ErrorKind::UnexpectedEndOfFile)
        } else {
            match spec_skip_blocks(d.skip(after_table + 1)) {
                Err(k) => Err(k),
                Ok(c) => Ok(
                    (
                        ImageDescriptor {
                            left: spec_u16_at(d, 0, ByteOrder::Little),
                            top: spec_u16_at(d, 2, ByteOrder::Little),
                            width: spec_u16_at(d, 4, ByteOrder::Little),
                            height: spec_u16_at(d, 6, ByteOrder::Little),
                            local_color_table: if has_lct {
                                Some(ColorTable { size: lct_size, sorted })
                            } else {
                                None
                            },
                            interlace,
                        },
                        after_table + 1 + c,
                    ),
                ),
            }
        }
    }
}

/// The graphic control extension model over the bytes after its label:
/// a block size that must be exactly 4, the packed flags, the delay, the
/// transparent color index, and the block terminator run.
pub open spec fn spec_graphic_control(d: Seq<u8>) -> Result<
    (GraphicControlExtension, int),
    ErrorKind,
> {
    if d.len() < 1 {
        Err(ErrorKind::UnexpectedEndOfFile)
    } else if d[0] != 4 {
        Err(ErrorKind::InvalidFormat)
    } else if d.len() < 2 {
        Err(ErrorKind::UnexpectedEndOfFile)
    } else if d.len() < 4 {
        Err(ErrorKind::UnexpectedEndOfFile)
    } else if d.len() < 5 {
        Err(ErrorKind::UnexpectedEndOfFile)
    } else {
        let packed = d[1];
        let delay = spec_u16_at(d, 2, ByteOrder::Little);
        let tci = d[4];
        match spec_skip_blocks(d.skip(5)) {
            Err(k) => Err(k),
            Ok(c) => {
                let disposal = (packed & 0x1c) >> 2;
                match spec_disposal_method(disposal) {
                    None => Err(ErrorKind::InvalidFormat),
                    Some(dm) => Ok(
                        (
                            GraphicControlExtension {
                                disposal_method: dm,
                                user_input: packed & 0x02 > 0,
                                transparent_color_index: if packed & 0x01 > 0 {
                                    Some(tci)
                                } else {
                                    None
                                },
                                delay_time: delay,
                            },
                            5 + c,
                        ),
                    ),
                }
            },
        }
    }
}

/// The plain text extension model over the bytes after its label: a block
/// size that must be exactly 12, the 12 fixed bytes, and the text data
/// sub-block run.
pub open spec fn spec_plain_text(d: Seq<u8>) -> Result<(PlainTextExtension, int), ErrorKind> {
    if d.len() < 1 {
        Err(ErrorKind::UnexpectedEndOfFile)
    } else if d[0] != 12 {
        Err(ErrorKind::InvalidFormat)
    } else if d.len() < 13 {
        Err(ErrorKind::UnexpectedEndOfFile)
    } else {
        match spec_skip_blocks(d.skip(13)) {
            Err(k) => Err(k),
            Ok(c) => Ok(
                (
                    PlainTextExtension {
                        left: spec_u16_at(d, 1, ByteOrder::Little),
                        top: spec_u16_at(d, 3, ByteOrder::Little),
                        width: spec_u16_at(d, 5, ByteOrder::Little),
                        height: spec_u16_at(d, 7, ByteOrder::Little),
                        cell_width: d[9],
                        cell_height: d[10],
                        foreground_color_index: d[11],
                        background_color_index: d[12],
                    },
                    13 + c,
                ),
            ),
        }
    }
}

/// The application extension model over the bytes after its label: a
/// block size that must be exactly 11, the 8-byte identifier, the 3-byte
/// authentication code, and the application data sub-block run.
pub open spec fn spec_application(d: Seq<u8>) -> Result<(Seq<u8>, Seq<u8>, int), ErrorKind> {
    if d.len() < 1 {
        Err(ErrorKind::UnexpectedEndOfFile)
    } else if d[0] != 11 {
        Err(ErrorKind::InvalidFormat)
    } else if d.len() < 12 {
        Err(ErrorKind::UnexpectedEndOfFile)
    } else {
        match spec_skip_blocks(d.skip(12)) {
            Err(k) => Err(k),
            Ok(c) => Ok((d.subrange(1, 9), d.subrange(9, 12), 12 + c)),
        }
    }
}

/// The comment extension model: only its sub-block run.
pub open spec fn spec_comment(d: Seq<u8>) -> Result<int, ErrorKind> {
    spec_skip_blocks(d)
}

/// The block-list model over the bytes after the color table: one
/// introducer byte per block, ended by the 0x3B trailer.  Any other
/// introducer, or an unknown extension label, is `InvalidFormat`.
pub open spec fn spec_blocks(d: Seq<u8>) -> Result<Seq<BlockRec>, ErrorKind>
    decreases d.len(), 1int,
    via spec_blocks_decreases
{
    if d.len() < 1 {
        Err(ErrorKind::UnexpectedEndOfFile)
    } else {
        let sep = d[0];
        if sep == 0x3b {
            Ok(Seq::empty())
        } else if sep == 0x2c {
            spec_image_rest(d.skip(1))
        } else if sep == 0x21 {
            if d.len() < 2 {
                Err(ErrorKind::UnexpectedEndOfFile)
            } else {
                let label = d[1];
                if label == 0x01 {
                    spec_plain_text_rest(d.skip(2))
                } else if label == 0xf9 {
                    spec_graphic_control_rest(d.skip(2))
                } else if label == 0xfe {
                    spec_comment_rest(d.skip(2))
                } else if label == 0xff {
                    spec_application_rest(d.skip(2))
                } else {
                    Err(ErrorKind::InvalidFormat)
                }
            }
        } else {
            Err(ErrorKind::InvalidFormat)
        }
    }
}

/// An image descriptor block followed by the rest of the block list.
pub open spec fn spec_image_rest(x: Seq<u8>) -> Result<Seq<BlockRec>, ErrorKind>
    decreases x.len(), 0int,
    via spec_image_rest_decreases
{
    match spec_image_descriptor(x) {
        Err(k) => Err(k),
        Ok(bc) => match spec_blocks(x.skip(bc.1)) {
            Err(k) => Err(k),
            Ok(rest) => Ok(seq![BlockRec::Image(bc.0)] + rest),
        },
    }
}

/// A plain text extension block followed by the rest of the block list.
pub open spec fn spec_plain_text_rest(x: Seq<u8>) -> Result<Seq<BlockRec>, ErrorKind>
    decreases x.len(), 0int,
    via spec_plain_text_rest_decreases
{
    match spec_plain_text(x) {
        Err(k) => Err(k),
        Ok(bc) => match spec_blocks(x.skip(bc.1)) {
            Err(k) => Err(k),
            Ok(rest) => Ok(seq![BlockRec::PlainText(bc.0)] + rest),
        },
    }
}

/// A graphic control extension block followed by the rest of the block
/// list.
pub open spec fn spec_graphic_control_rest(x: Seq<u8>) -> Result<Seq<BlockRec>, ErrorKind>
    decreases x.len(), 0int,
    via spec_graphic_control_rest_decreases
{
    match spec_graphic_control(x) {
        Err(k) => Err(k),
        Ok(bc) => match spec_blocks(x.skip(bc.1)) {
            Err(k) => Err(k),
            Ok(rest) => Ok(seq![BlockRec::GraphicControl(bc.0)] + rest),
        },
    }
}

/// A comment extension block followed by the rest of the block list.
pub open spec fn spec_comment_rest(x: Seq<u8>) -> Result<Seq<BlockRec>, ErrorKind>
    decreases x.len(), 0int,
    via spec_comment_rest_decreases
{
    match spec_comment(x) {
        Err(k) => Err(k),
        Ok(c) => match spec_blocks(x.skip(c)) {
            Err(k) => Err(k),
            Ok(rest) => Ok(seq![BlockRec::Comment] + rest),
        },
    }
}

/// An application extension block followed by the rest of the block list.
pub open spec fn spec_application_rest(x: Seq<u8>) -> Result<Seq<BlockRec>, ErrorKind>
    decreases x.len(), 0int,
    via spec_application_rest_decreases
{
    match spec_application(x) {
        Err(k) => Err(k),
        Ok(ac) => match spec_blocks(x.skip(ac.2)) {
            Err(k) => Err(k),
            Ok(rest) => Ok(
                seq![
                    BlockRec::Application {
                        application_identifier: ac.0,
                        authentication_code: ac.1,
                    },
                ] + rest,
            ),
        },
    }
}

/// Each block parser consumes at least one byte of the input handed to it
/// and never more than it holds.
pub proof fn lemma_block_parsers_consumed(d: Seq<u8>)
    ensures
        spec_image_descriptor(d) matches Ok(bc) ==> 1 <= bc.1 <= d.len(),
        spec_graphic_control(d) matches Ok(bc) ==> 1 <= bc.1 <= d.len(),
        spec_plain_text(d) matches Ok(bc) ==> 1 <= bc.1 <= d.len(),
        spec_application(d) matches Ok(ac) ==> 1 <= ac.2 <= d.len(),
        spec_comment(d) matches Ok(c) ==> 1 <= c <= d.len(),
{
    lemma_skip_blocks_consumed(d);
    if d.len() >= 9 {
        let packed = d[8];
        let has_lct = packed & 0x80 > 0;
        let size_p = packed & 0x07;
        let lct_size = if has_lct {
            (1u16 << ((size_p + 1) as u16)) as u16
        } else {
            0u16
        };
        let after_table: int = 9 + 3 * lct_size;
        if after_table + 1 <= d.len() {
            lemma_skip_blocks_consumed(d.skip(after_table + 1));
        }
    }
    if d.len() >= 5 {
        lemma_skip_blocks_consumed(d.skip(5));
    }
    if d.len() >= 13 {
        lemma_skip_blocks_consumed(d.skip(13));
    }
    if d.len() >= 12 {
        lemma_skip_blocks_consumed(d.skip(12));
    }
}

#[via_fn]
proof fn spec_blocks_decreases(d: Seq<u8>) {
}

#[via_fn]
proof fn spec_image_rest_decreases(x: Seq<u8>) {
    lemma_block_parsers_consumed(x);
}

#[via_fn]
proof fn spec_plain_text_rest_decreases(x: Seq<u8>) {
    lemma_block_parsers_consumed(x);
}

#[via_fn]
proof fn spec_graphic_control_rest_decreases(x: Seq<u8>) {
    lemma_block_parsers_consumed(x);
}

#[via_fn]
proof fn spec_comment_rest_decreases(x: Seq<u8>) {
    lemma_block_parsers_consumed(x);
}

#[via_fn]
proof fn spec_application_rest_decreases(x: Seq<u8>) {
    lemma_block_parsers_consumed(x);
}

impl ImageDescriptor {
    /// Loads an image descriptor from the bytes after its 0x2C introducer,
    /// skipping the local color table and the image data sub-blocks.
    pub fn load(r: &mut ByteReader) -> (res: Result<ImageDescriptor, Error>)
        requires
            old(r).wf(),
        ensures
            final(r).data@ == old(r).data@,
            final(r).wf(),
            match spec_image_descriptor(old(r).rem()) {
                Ok(bc) => res matches Ok(b) && b == bc.0 && final(r).pos == old(r).pos + bc.1,
                Err(k) => res matches Err(e) && e.kind() == k,
            },
    {
        let ghost d = r.rem();
        let left = match r.read_u16(ByteOrder::Little) {
            Some(v) => v,
            None => {
                return Err(
                    Error::UnexpectedEndOfFile(Some("when reading left offset of an image block")),
                );
            },
        };
        let top = match r.read_u16(ByteOrder::Little) {
            Some(v) => v,
            None => {
                return Err(
                    Error::UnexpectedEndOfFile(Some("when reading top offset of an image block")),
                );
            },
        };
        let width = match r.read_u16(ByteOrder::Little) {
            Some(v) => v,
            None => {
                return Err(
                    Error::UnexpectedEndOfFile(Some("when reading width of an image block")),
                );
            },
        };
        let height = match r.read_u16(ByteOrder::Little) {
            Some(v) => v,
            None => {
                return Err(
                    Error::UnexpectedEndOfFile(Some("when reading height of an image block")),
                );
            },
        };
        let packed = match r.read_u8() {
            Some(v) => v,
            None => {
                return Err(
                    Error::UnexpectedEndOfFile(Some("when reading flags of an image block")),
                );
            },
        };
        proof {
            assert(left == spec_u16_at(d, 0, ByteOrder::Little));
            assert(top == spec_u16_at(d, 2, ByteOrder::Little));
            assert(width == spec_u16_at(d, 4, ByteOrder::Little));
            assert(height == spec_u16_at(d, 6, ByteOrder::Little));
            assert(packed == d[8]);
            assert((packed & 0x07) < 8) by (bit_vector);
        }
        let has_lct = packed & 0x80 > 0;
        let interlace = packed & 0x40 > 0;
        let sorted = packed & 0x20 > 0;
        let size_p = packed & 0x07;
        let lct_size: u16 = if has_lct {
            1u16 << ((size_p + 1) as u16)
        } else {
            0
        };
        if has_lct {
            let skip_size = 3 * lct_size as usize;
            let k = r.skip_exact(skip_size);
            if k != skip_size {
                return Err(
                    Error::UnexpectedEndOfFile(
                        Some("when reading color table of an image block"),
                    ),
                );
            }
        }
        let _lzw = match r.read_u8() {
            Some(v) => v,
            None => {
                return Err(
                    Error::UnexpectedEndOfFile(
                        Some("when reading LZW minimum code size of an image block"),
                    ),
                );
            },
        };
        let ghost after_table: int = 9 + 3 * lct_size;
        proof {
            assert(r.rem() =~= d.skip(after_table + 1));
        }
        match skip_blocks(r) {
            Ok(_) => {},
            Err(e) => {
                return Err(e);
            },
        }
        Ok(
            ImageDescriptor {
                left,
                top,
                width,
                height,
                local_color_table: if has_lct {
                    Some(ColorTable { size: lct_size, sorted })
                } else {
                    None
                },
                interlace,
            },
        )
    }
}

impl GraphicControlExtension {
    /// Loads a graphic control extension from the bytes after its label:
    /// the fixed 4-byte payload, which must declare exactly that size, and
    /// the block terminator.
    pub fn load(r: &mut ByteReader) -> (res: Result<GraphicControlExtension, Error>)
        requires
            old(r).wf(),
        ensures
            final(r).data@ == old(r).data@,
            final(r).wf(),
            match spec_graphic_control(old(r).rem()) {
                Ok(bc) => res matches Ok(b) && b == bc.0 && final(r).pos == old(r).pos + bc.1,
                Err(k) => res matches Err(e) && e.kind() == k,
            },
    {
        let ghost d = r.rem();
        let block_size = match r.read_u8() {
            Some(v) => v,
            None => {
                return Err(
                    Error::UnexpectedEndOfFile(
                        Some("when reading block size of a graphics control extension block"),
                    ),
                );
            },
        };
        if block_size != 0x04 {
            return Err(
                Error::InvalidFormat(
                    Some("invalid block size in a graphics control extension block"),
                ),
            );
        }
        let packed = match r.read_u8() {
            Some(v) => v,
            None => {
                return Err(
                    Error::UnexpectedEndOfFile(
                        Some("when reading flags of a graphics control extension block"),
                    ),
                );
            },
        };
        let delay_time = match r.read_u16(ByteOrder::Little) {
            Some(v) => v,
            None => {
                return Err(
                    Error::UnexpectedEndOfFile(
                        Some("when reading delay time of a graphics control extension block"),
                    ),
                );
            },
        };
        let tci = match r.read_u8() {
            Some(v) => v,
            None => {
                return Err(
                    Error::UnexpectedEndOfFile(
                        Some(
                            "when reading transparent color index of a graphics control extension block",
                        ),
                    ),
                );
            },
        };
        proof {
            assert(packed == d[1]);
            assert(delay_time == spec_u16_at(d, 2, ByteOrder::Little));
            assert(tci == d[4]);
            assert(r.rem() =~= d.skip(5));
        }
        match skip_blocks(r) {
            Ok(_) => {},
            Err(e) => {
                return Err(e);
            },
        }
        let disposal = (packed & 0x1c) >> 2;
        proof {
            assert(((packed & 0x1c) >> 2) < 8) by (bit_vector);
        }
        let disposal_method = match DisposalMethod::from_u8(disposal) {
            Some(dm) => dm,
            None => {
                return Err(
                    Error::InvalidFormat(
                        Some("invalid disposal method in a graphics control extension block"),
                    ),
                );
            },
        };
        Ok(
            GraphicControlExtension {
                disposal_method,
                user_input: packed & 0x02 > 0,
                transparent_color_index: if packed & 0x01 > 0 {
                    Some(tci)
                } else {
                    None
                },
                delay_time,
            },
        )
    }
}

impl PlainTextExtension {
    /// Loads a plain text extension from the bytes after its label: the
    /// fixed 12-byte payload, which must declare exactly that size, and
    /// the text data sub-blocks.
    pub fn load(r: &mut ByteReader) -> (res: Result<PlainTextExtension, Error>)
        requires
            old(r).wf(),
        ensures
            final(r).data@ == old(r).data@,
            final(r).wf(),
            match spec_plain_text(old(r).rem()) {
                Ok(bc) => res matches Ok(b) && b == bc.0 && final(r).pos == old(r).pos + bc.1,
                Err(k) => res matches Err(e) && e.kind() == k,
            },
    {
        let ghost d = r.rem();
        let block_size = match r.read_u8() {
            Some(v) => v,
            None => {
                return Err(
                    Error::UnexpectedEndOfFile(
                        Some("when reading block size of a plain text extension block"),
                    ),
                );
            },
        };
        if block_size != 0x0c {
            return Err(
                Error::InvalidFormat(Some("invalid block size in a plain text extension block")),
            );
        }
        if r.remaining() < 12 {
            return Err(
                Error::UnexpectedEndOfFile(
                    Some("when reading fields of a plain text extension block"),
                ),
            );
        }
        let left = match r.read_u16(ByteOrder::Little) {
            Some(v) => v,
            None => {
                return Err(Error::UnexpectedEndOfFile(None));
            },
        };
        let top = match r.read_u16(ByteOrder::Little) {
            Some(v) => v,
            None => {
                return Err(Error::UnexpectedEndOfFile(None));
            },
        };
        let width = match r.read_u16(ByteOrder::Little) {
            Some(v) => v,
            None => {
                return Err(Error::UnexpectedEndOfFile(None));
            },
        };
        let height = match r.read_u16(ByteOrder::Little) {
            Some(v) => v,
            None => {
                return Err(Error::UnexpectedEndOfFile(None));
            },
        };
        let cell_width = match r.read_u8() {
            Some(v) => v,
            None => {
                return Err(Error::UnexpectedEndOfFile(None));
            },
        };
        let cell_height = match r.read_u8() {
            Some(v) => v,
            None => {
                return Err(Error::UnexpectedEndOfFile(None));
            },
        };
        let foreground_color_index = match r.read_u8() {
            Some(v) => v,
            None => {
                return Err(Error::UnexpectedEndOfFile(None));
            },
        };
        let background_color_index = match r.read_u8() {
            Some(v) => v,
            None => {
                return Err(Error::UnexpectedEndOfFile(None));
            },
        };
        proof {
            assert(left == spec_u16_at(d, 1, ByteOrder::Little));
            assert(top == spec_u16_at(d, 3, ByteOrder::Little));
            assert(width == spec_u16_at(d, 5, ByteOrder::Little));
            assert(height == spec_u16_at(d, 7, ByteOrder::Little));
            assert(cell_width == d[9]);
            assert(cell_height == d[10]);
            assert(foreground_color_index == d[11]);
            assert(background_color_index == d[12]);
            assert(r.rem() =~= d.skip(13));
        }
        match skip_blocks(r) {
            Ok(_) => {},
            Err(e) => {
                return Err(e);
            },
        }
        Ok(
            PlainTextExtension {
                left,
                top,
                width,
                height,
                cell_width,
                cell_height,
                foreground_color_index,
                background_color_index,
            },
        )
    }
}

impl ApplicationExtension {
    /// Loads an application extension from the bytes after its label: the
    /// fixed 11-byte payload, which must declare exactly that size, and
    /// the application data sub-blocks.
    pub fn load(r: &mut ByteReader) -> (res: Result<ApplicationExtension, Error>)
        requires
            old(r).wf(),
        ensures
            final(r).data@ == old(r).data@,
            final(r).wf(),
            match spec_application(old(r).rem()) {
                Ok(ac) => res matches Ok(b) && b.application_identifier@ == ac.0
                    && b.authentication_code@ == ac.1 && final(r).pos == old(r).pos + ac.2,
                Err(k) => res matches Err(e) && e.kind() == k,
            },
    {
        let ghost d = r.rem();
        let block_size = match r.read_u8() {
            Some(v) => v,
            None => {
                return Err(
                    Error::UnexpectedEndOfFile(
                        Some("when reading block size of an application extension block"),
                    ),
                );
            },
        };
        if block_size != 0x0b {
            return Err(
                Error::InvalidFormat(Some("invalid block size in an application extension block")),
            );
        }
        let ident = match r.read_bytes(8) {
            Some(v) => v,
            None => {
                return Err(
                    Error::UnexpectedEndOfFile(
                        Some("while reading application identifier in an application extension block"),
                    ),
                );
            },
        };
        let auth = match r.read_bytes(3) {
            Some(v) => v,
            None => {
                return Err(
                    Error::UnexpectedEndOfFile(
                        Some("while reading authentication code in an application extension block"),
                    ),
                );
            },
        };
        let application_identifier = [
            ident[0],
            ident[1],
            ident[2],
            ident[3],
            ident[4],
            ident[5],
            ident[6],
            ident[7],
        ];
        let authentication_code = [auth[0], auth[1], auth[2]];
        proof {
            assert(application_identifier@ =~= d.subrange(1, 9));
            assert(authentication_code@ =~= d.subrange(9, 12));
            assert(r.rem() =~= d.skip(12));
        }
        match skip_blocks(r) {
            Ok(_) => {},
            Err(e) => {
                return Err(e);
            },
        }
        Ok(ApplicationExtension { application_identifier, authentication_code })
    }
}

impl CommentExtension {
    /// Loads a comment extension from the bytes after its label: only its
    /// sub-block run, which carries no metadata.
    pub fn load(r: &mut ByteReader) -> (res: Result<CommentExtension, Error>)
        requires
            old(r).wf(),
        ensures
            final(r).data@ == old(r).data@,
            final(r).wf(),
            match spec_comment(old(r).rem()) {
                Ok(c) => res is Ok && final(r).pos == old(r).pos + c,
                Err(k) => res matches Err(e) && e.kind() == k,
            },
    {
        match skip_blocks(r) {
            Ok(_) => Ok(CommentExtension),
            Err(e) => Err(e),
        }
    }
}

/// The ghost images of a vector of blocks.
pub open spec fn block_views(s: Seq<Block>) -> Seq<BlockRec> {
    s.map_values(|b: Block| b@)
}

/// Reads blocks into `out` until the trailer.
fn load_blocks(r: &mut ByteReader, out: &mut Vec<Block>) -> (res: Result<(), Error>)
    requires
        old(r).wf(),
    ensures
        final(r).data@ == old(r).data@,
        final(r).wf(),
        match spec_blocks(old(r).rem()) {
            Ok(model) => res is Ok && block_views(final(out)@) == block_views(old(out)@) + model,
            Err(k) => res matches Err(e) && e.kind() == k,
        },
    decreases old(r).rem().len(), 1int,
{
    let ghost d = r.rem();
    let sep = match r.read_u8() {
        Some(v) => v,
        None => {
            return Err(Error::UnexpectedEndOfFile(Some("when reading separator of a block")));
        },
    };
    if sep == 0x3b {
        proof {
            assert(block_views(final(out)@) =~= block_views(old(out)@) + Seq::<
                BlockRec,
            >::empty());
        }
        return Ok(());
    }
    if sep == 0x2c {
        proof {
            assert(r.rem() =~= d.skip(1));
        }
        return load_image_rest(r, out);
    }
    if sep == 0x21 {
        let label = match r.read_u8() {
            Some(v) => v,
            None => {
                return Err(Error::UnexpectedEndOfFile(Some("when reading label of a block")));
            },
        };
        proof {
            assert(label == d[1]);
            assert(r.rem() =~= d.skip(2));
        }
        if label == 0x01 {
            return load_plain_text_rest(r, out);
        }
        if label == 0xf9 {
            return load_graphic_control_rest(r, out);
        }
        if label == 0xfe {
            return load_comment_rest(r, out);
        }
        if label == 0xff {
            return load_application_rest(r, out);
        }
        return Err(Error::InvalidFormat(Some("unknown extension type of a block")));
    }
    Err(Error::InvalidFormat(Some("unknown block type of a block")))
}

/// Reads one image descriptor block, then the rest of the block list.
fn load_image_rest(r: &mut ByteReader, out: &mut Vec<Block>) -> (res: Result<(), Error>)
    requires
        old(r).wf(),
    ensures
        final(r).data@ == old(r).data@,
        final(r).wf(),
        match spec_image_rest(old(r).rem()) {
            Ok(model) => res is Ok && block_views(final(out)@) == block_views(old(out)@) + model,
            Err(k) => res matches Err(e) && e.kind() == k,
        },
    decreases old(r).rem().len(), 0int,
{
    let ghost d = r.rem();
    let blk = match ImageDescriptor::load(r) {
        Ok(b) => b,
        Err(e) => {
            return Err(e);
        },
    };
    let ghost bc = spec_image_descriptor(d)->Ok_0;
    proof {
        lemma_block_parsers_consumed(d);
        assert(r.rem() =~= d.skip(bc.1));
    }
    out.push(Block::ImageDescriptor(blk));
    proof {
        assert(block_views(out@) =~= block_views(old(out)@) + seq![BlockRec::Image(bc.0)]);
    }
    let res = load_blocks(r, out);
    proof {
        if res is Ok {
            match spec_blocks(d.skip(bc.1)) {
                Ok(rest) => {
                    assert(block_views(final(out)@) =~= block_views(old(out)@) + (seq![
                        BlockRec::Image(bc.0),
                    ] + rest));
                },
                Err(_) => {},
            }
        }
    }
    res
}

/// Reads one plain text extension block, then the rest of the block list.
fn load_plain_text_rest(r: &mut ByteReader, out: &mut Vec<Block>) -> (res: Result<(), Error>)
    requires
        old(r).wf(),
    ensures
        final(r).data@ == old(r).data@,
        final(r).wf(),
        match spec_plain_text_rest(old(r).rem()) {
            Ok(model) => res is Ok && block_views(final(out)@) == block_views(old(out)@) + model,
            Err(k) => res matches Err(e) && e.kind() == k,
        },
    decreases old(r).rem().len(), 0int,
{
    let ghost d = r.rem();
    let blk = match PlainTextExtension::load(r) {
        Ok(b) => b,
        Err(e) => {
            return Err(e);
        },
    };
    let ghost bc = spec_plain_text(d)->Ok_0;
    proof {
        lemma_block_parsers_consumed(d);
        assert(r.rem() =~= d.skip(bc.1));
    }
    out.push(Block::PlainTextExtension(blk));
    proof {
        assert(block_views(out@) =~= block_views(old(out)@) + seq![BlockRec::PlainText(bc.0)]);
    }
    let res = load_blocks(r, out);
    proof {
        if res is Ok {
            match spec_blocks(d.skip(bc.1)) {
                Ok(rest) => {
                    assert(block_views(final(out)@) =~= block_views(old(out)@) + (seq![
                        BlockRec::PlainText(bc.0),
                    ] + rest));
                },
                Err(_) => {},
            }
        }
    }
    res
}

/// Reads one graphic control extension block, then the rest of the block
/// list.
fn load_graphic_control_rest(r: &mut ByteReader, out: &mut Vec<Block>) -> (res: Result<(), Error>)
    requires
        old(r).wf(),
    ensures
        final(r).data@ == old(r).data@,
        final(r).wf(),
        match spec_graphic_control_rest(old(r).rem()) {
            Ok(model) => res is Ok && block_views(final(out)@) == block_views(old(out)@) + model,
            Err(k) => res matches Err(e) && e.kind() == k,
        },
    decreases old(r).rem().len(), 0int,
{
    let ghost d = r.rem();
    let blk = match GraphicControlExtension::load(r) {
        Ok(b) => b,
        Err(e) => {
            return Err(e);
        },
    };
    let ghost bc = spec_graphic_control(d)->Ok_0;
    proof {
        lemma_block_parsers_consumed(d);
        assert(r.rem() =~= d.skip(bc.1));
    }
    out.push(Block::GraphicControlExtension(blk));
    proof {
        assert(block_views(out@) =~= block_views(old(out)@) + seq![
            BlockRec::GraphicControl(bc.0),
        ]);
    }
    let res = load_blocks(r, out);
    proof {
        if res is Ok {
            match spec_blocks(d.skip(bc.1)) {
                Ok(rest) => {
                    assert(block_views(final(out)@) =~= block_views(old(out)@) + (seq![
                        BlockRec::GraphicControl(bc.0),
                    ] + rest));
                },
                Err(_) => {},
            }
        }
    }
    res
}

/// Reads one comment extension block, then the rest of the block list.
fn load_comment_rest(r: &mut ByteReader, out: &mut Vec<Block>) -> (res: Result<(), Error>)
    requires
        old(r).wf(),
    ensures
        final(r).data@ == old(r).data@,
        final(r).wf(),
        match spec_comment_rest(old(r).rem()) {
            Ok(model) => res is Ok && block_views(final(out)@) == block_views(old(out)@) + model,
            Err(k) => res matches Err(e) && e.kind() == k,
        },
    decreases old(r).rem().len(), 0int,
{
    let ghost d = r.rem();
    let blk = match CommentExtension::load(r) {
        Ok(b) => b,
        Err(e) => {
            return Err(e);
        },
    };
    let ghost c0 = spec_comment(d)->Ok_0;
    proof {
        lemma_block_parsers_consumed(d);
        assert(r.rem() =~= d.skip(c0));
    }
    out.push(Block::CommentExtension(blk));
    proof {
        assert(block_views(out@) =~= block_views(old(out)@) + seq![BlockRec::Comment]);
    }
    let res = load_blocks(r, out);
    proof {
        if res is Ok {
            match spec_blocks(d.skip(c0)) {
                Ok(rest) => {
                    assert(block_views(final(out)@) =~= block_views(old(out)@) + (seq![
                        BlockRec::Comment,
                    ] + rest));
                },
                Err(_) => {},
            }
        }
    }
    res
}

/// Reads one application extension block, then the rest of the block list.
fn load_application_rest(r: &mut ByteReader, out: &mut Vec<Block>) -> (res: Result<(), Error>)
    requires
        old(r).wf(),
    ensures
        final(r).data@ == old(r).data@,
        final(r).wf(),
        match spec_application_rest(old(r).rem()) {
            Ok(model) => res is Ok && block_views(final(out)@) == block_views(old(out)@) + model,
            Err(k) => res matches Err(e) && e.kind() == k,
        },
    decreases old(r).rem().len(), 0int,
{
    let ghost d = r.rem();
    let blk = match ApplicationExtension::load(r) {
        Ok(b) => b,
        Err(e) => {
            return Err(e);
        },
    };
    let ghost ac = spec_application(d)->Ok_0;
    proof {
        lemma_block_parsers_consumed(d);
        assert(r.rem() =~= d.skip(ac.2));
    }
    out.push(Block::ApplicationExtension(blk));
    proof {
        assert(block_views(out@) =~= block_views(old(out)@) + seq![
            BlockRec::Application {
                application_identifier: ac.0,
                authentication_code: ac.1,
            },
        ]);
    }
    let res = load_blocks(r, out);
    proof {
        if res is Ok {
            match spec_blocks(d.skip(ac.2)) {
                Ok(rest) => {
                    assert(block_views(final(out)@) =~= block_views(old(out)@) + (seq![
                        BlockRec::Application {
                            application_identifier: ac.0,
                            authentication_code: ac.1,
                        },
                    ] + rest));
                },
                Err(_) => {},
            }
        }
    }
    res
}

/// Metadata of a whole GIF image.
#[derive(Clone, PartialEq, Eq, Debug)]
pub struct Metadata {
    /// GIF format version from the file header.
    pub version: Version,
    /// Logical screen dimensions of the image.
    pub dimensions: Dimensions,
    /// Information about the global color table, if one is present.
    pub global_color_table: Option<ColorTable>,
    /// Number of colors available to the original image, derived from the
    /// 3-bit color resolution field: two to the power of the field's value
    /// plus one.
    pub color_resolution: u16,
    /// Index of the default background color in the global color table.
    pub background_color_index: u8,
    /// Factor defining the aspect ratio of a pixel in the original image;
    /// zero when no information is available.
    pub pixel_aspect_ratio: u8,
    /// Metadata for each block in the image, in file order.
    pub blocks: Vec<Block>,
}

/// Ghost image of the GIF [`Metadata`]: the block list is a sequence.
pub struct MetadataRec {
    pub version: Version,
    pub dimensions: Dimensions,
    pub global_color_table: Option<ColorTable>,
    pub color_resolution: u16,
    pub background_color_index: u8,
    pub pixel_aspect_ratio: u8,
    pub blocks: Seq<BlockRec>,
}

impl View for Metadata {
    type V = MetadataRec;

    open spec fn view(&self) -> MetadataRec {
        MetadataRec {
            version: self.version,
            dimensions: self.dimensions,
            global_color_table: self.global_color_table,
            color_resolution: self.color_resolution,
            background_color_index: self.background_color_index,
            pixel_aspect_ratio: self.pixel_aspect_ratio,
            blocks: block_views(self.blocks@),
        }
    }
}

/// What loading GIF metadata from the bytes `d` yields: the 13-byte
/// logical screen header with a valid version, the optional global color
/// table, and the block list up to the trailer.
pub open spec fn spec_load(d: Seq<u8>) -> Result<MetadataRec, ErrorKind> {
    if d.len() < 6 {
        Err(ErrorKind::UnexpectedEndOfFile)
    } else if spec_version(d[3], d[4], d[5]) is None {
        Err(ErrorKind::InvalidFormat)
    } else if d.len() < 13 {
        Err(ErrorKind::UnexpectedEndOfFile)
    } else {
        let width = spec_u16_at(d, 6, ByteOrder::Little);
        let height = spec_u16_at(d, 8, ByteOrder::Little);
        let packed = d[10];
        let bg = d[11];
        let par = d[12];
        let has_gct = packed & 0x80 > 0;
        let cr = (packed & 0x70) >> 4;
        let sorted = packed & 0x08 > 0;
        let size_p = packed & 0x07;
        let gct_size = if has_gct {
            (1u16 << ((size_p + 1) as u16)) as u16
        } else {
            0u16
        };
        let after: int = if has_gct {
            13 + 3 * gct_size
        } else {
            13
        };
        if has_gct && after > d.len() {
            Err(ErrorKind::UnexpectedEndOfFile)
        } else {
            match spec_blocks(d.skip(after)) {
                Err(k) => Err(k),
                Ok(blocks) => Ok(
                    MetadataRec {
                        version: spec_version(d[3], d[4], d[5])->0,
                        dimensions: Dimensions { width: width as u32, height: height as u32 },
                        global_color_table: if has_gct {
                            Some(ColorTable { size: gct_size, sorted })
                        } else {
                            None
                        },
                        color_resolution: (1u16 << ((cr + 1) as u16)) as u16,
                        background_color_index: bg,
                        pixel_aspect_ratio: par,
                        blocks,
                    },
                ),
            }
        }
    }
}

/// How many image descriptor blocks (frames) a block list holds.
pub open spec fn spec_frames_count(bs: Seq<BlockRec>) -> nat
    decreases bs.len(),
{
    if bs.len() == 0 {
        0
    } else {
        spec_frames_count(bs.drop_last()) + if bs.last() is Image {
            1nat
        } else {
            0nat
        }
    }
}

impl Metadata {
    /// Loads GIF metadata from the reader's remaining bytes.
    pub fn load(r: &mut ByteReader) -> (res: Result<Metadata, Error>)
        requires
            old(r).wf(),
        ensures
            final(r).data@ == old(r).data@,
            final(r).wf(),
            match spec_load(old(r).rem()) {
                Ok(m) => res matches Ok(got) && got@ == m,
                Err(k) => res matches Err(e) && e.kind() == k,
            },
    {
        let ghost d = r.rem();
        let sig = match r.read_bytes(6) {
            Some(v) => v,
            None => {
                return Err(Error::UnexpectedEndOfFile(Some("when reading GIF signature")));
            },
        };
        let version = match Version::from_bytes(
            vstd::slice::slice_subrange(sig.as_slice(), 3, 6),
        ) {
            Some(v) => v,
            None => {
                return Err(Error::InvalidFormat(Some("invalid GIF version")));
            },
        };
        proof {
            assert(sig@[3] == d[3] && sig@[4] == d[4] && sig@[5] == d[5]);
        }
        let width = match r.read_u16(ByteOrder::Little) {
            Some(v) => v,
            None => {
                return Err(Error::UnexpectedEndOfFile(Some("when reading logical width")));
            },
        };
        let height = match r.read_u16(ByteOrder::Little) {
            Some(v) => v,
            None => {
                return Err(Error::UnexpectedEndOfFile(Some("when reading logical height")));
            },
        };
        let packed = match r.read_u8() {
            Some(v) => v,
            None => {
                return Err(Error::UnexpectedEndOfFile(Some("when reading global flags")));
            },
        };
        let background_color_index = match r.read_u8() {
            Some(v) => v,
            None => {
                return Err(
                    Error::UnexpectedEndOfFile(Some("when reading background color index")),
                );
            },
        };
        let pixel_aspect_ratio = match r.read_u8() {
            Some(v) => v,
            None => {
                return Err(Error::UnexpectedEndOfFile(Some("when reading pixel aspect ratio")));
            },
        };
        proof {
            assert(width == spec_u16_at(d, 6, ByteOrder::Little));
            assert(height == spec_u16_at(d, 8, ByteOrder::Little));
            assert(packed == d[10]);
            assert(background_color_index == d[11]);
            assert(pixel_aspect_ratio == d[12]);
            assert((packed & 0x07) < 8) by (bit_vector);
            assert(((packed & 0x70) >> 4) < 8) by (bit_vector);
        }
        let has_gct = packed & 0x80 > 0;
        let cr = (packed & 0x70) >> 4;
        let sorted = packed & 0x08 > 0;
        let size_p = packed & 0x07;
        let gct_size: u16 = if has_gct {
            1u16 << ((size_p + 1) as u16)
        } else {
            0
        };
        if has_gct {
            let skip_size = 3 * gct_size as usize;
            let k = r.skip_exact(skip_size);
            if k != skip_size {
                return Err(
                    Error::UnexpectedEndOfFile(Some("when reading global color table")),
                );
            }
        }
        let ghost after: int = if has_gct {
            13 + 3 * gct_size
        } else {
            13int
        };
        proof {
            assert(r.rem() =~= d.skip(after));
        }
        let mut blocks: Vec<Block> = Vec::new();
        match load_blocks(r, &mut blocks) {
            Ok(_) => {},
            Err(e) => {
                return Err(e);
            },
        }
        proof {
            match spec_blocks(d.skip(after)) {
                Ok(model) => {
                    assert(block_views(Seq::empty()) =~= Seq::<BlockRec>::empty());
                    assert(block_views(Seq::empty()) + model =~= model);
                },
                Err(_) => {},
            }
        }
        Ok(
            Metadata {
                version,
                dimensions: Dimensions { width: width as u32, height: height as u32 },
                global_color_table: if has_gct {
                    Some(ColorTable { size: gct_size, sorted })
                } else {
                    None
                },
                color_resolution: 1u16 << ((cr + 1) as u16),
                background_color_index,
                pixel_aspect_ratio,
                blocks,
            },
        )
    }

    /// Loads GIF metadata from a byte buffer.
    pub fn load_from_buf(b: &[u8]) -> (res: Result<Metadata, Error>)
        ensures
            match spec_load(b@) {
                Ok(m) => res matches Ok(got) && got@ == m,
                Err(k) => res matches Err(e) && e.kind() == k,
            },
    {
        let mut r = ByteReader::new(vstd::slice::slice_to_vec(b));
        proof {
            assert(r.rem() =~= b@);
        }
        Metadata::load(&mut r)
    }

    /// The number of frames: the number of image descriptor blocks.
    pub fn frames_number(&self) -> (r: usize)
        ensures
            r == spec_frames_count(self@.blocks),
    {
        let mut count: usize = 0;
        let mut i: usize = 0;
        while i < self.blocks.len()
            invariant
                i <= self.blocks@.len(),
                count == spec_frames_count(block_views(self.blocks@).take(i as int)),
                count <= i,
            decreases self.blocks@.len() - i,
        {
            let is_frame = match &self.blocks[i] {
                Block::ImageDescriptor(_) => true,
                _ => false,
            };
            if is_frame {
                count = count + 1;
            }
            i = i + 1;
            proof {
                let bv = block_views(self.blocks@);
                assert(bv.take(i as int).drop_last() =~= bv.take(i as int - 1));
                assert(bv.take(i as int).last() == bv[i as int - 1]);
            }
        }
        proof {
            assert(block_views(self.blocks@).take(self.blocks@.len() as int) =~= block_views(
                self.blocks@,
            ));
        }
        count
    }

    /// Whether the image is animated: more than one frame.
    pub fn is_animated(&self) -> (r: bool)
        ensures
            r == (spec_frames_count(self@.blocks) > 1),
    {
        self.frames_number() > 1
    }
}

/// A terminated sub-block run laid out from `p` to `q`: length-prefixed
/// segments whose final segment is the zero-length terminator, spanning
/// exactly to `q`.
pub open spec fn subblock_run(d: Seq<u8>, p: int, q: int) -> bool
    decreases q - p,
{
    &&& 0 <= p
    &&& p < q <= d.len()
    &&& if d[p] == 0 {
        q == p + 1
    } else {
        &&& p + 1 + d[p] < q
        &&& subblock_run(d, p + 1 + d[p], q)
    }
}

/// Skipping a laid-out sub-block run consumes exactly its span.
pub proof fn lemma_subblock_run(d: Seq<u8>, p: int, q: int)
    requires
        subblock_run(d, p, q),
    ensures
        spec_skip_blocks(d.skip(p)) == Ok::<int, ErrorKind>(q - p),
    decreases q - p,
{
    let x = d.skip(p);
    assert(x[0] == d[p]);
    if d[p] == 0 {
    } else {
        let n = d[p] as int;
        assert(1 + n <= x.len());
        lemma_subblock_run(d, p + 1 + n, q);
        assert(x.skip(1 + n) =~= d.skip(p + 1 + n));
    }
}

/// A graphic control extension laid out at `p` (its block-size byte)
/// parses to exactly its packed fields and spans to `q`.
proof fn lemma_gce_parse(d: Seq<u8>, p: int, q: int)
    requires
        0 <= p,
        p + 5 <= q <= d.len(),
        d[p] == 4,
        subblock_run(d, p + 5, q),
    ensures
        spec_graphic_control(d.skip(p)) == Ok::<(GraphicControlExtension, int), ErrorKind>(
            (
                GraphicControlExtension {
                    disposal_method: spec_disposal_method((d[p + 1] & 0x1c) >> 2)->0,
                    user_input: d[p + 1] & 0x02 > 0,
                    transparent_color_index: if d[p + 1] & 0x01 > 0 {
                        Some(d[p + 4])
                    } else {
                        None
                    },
                    delay_time: spec_u16_at(d, p + 2, ByteOrder::Little),
                },
                q - p,
            ),
        ),
{
    let x = d.skip(p);
    assert(x[0] == d[p]);
    assert(x[1] == d[p + 1]);
    assert(x[2] == d[p + 2]);
    assert(x[3] == d[p + 3]);
    assert(x[4] == d[p + 4]);
    assert(x.len() >= 5);
    assert(spec_u16_at(x, 2, ByteOrder::Little) == spec_u16_at(d, p + 2, ByteOrder::Little));
    lemma_subblock_run(d, p + 5, q);
    assert(x.skip(5) =~= d.skip(p + 5));
    let g = d[p + 1];
    assert(((g & 0x1c) >> 2) < 8) by (bit_vector);
}

/// An application extension laid out at `p` (its block-size byte) parses
/// to exactly its identifier and authentication bytes and spans to `q`.
proof fn lemma_app_parse(d: Seq<u8>, p: int, q: int)
    requires
        0 <= p,
        p + 12 <= q <= d.len(),
        d[p] == 11,
        subblock_run(d, p + 12, q),
    ensures
        spec_application(d.skip(p)) == Ok::<(Seq<u8>, Seq<u8>, int), ErrorKind>(
            (d.subrange(p + 1, p + 9), d.subrange(p + 9, p + 12), q - p),
        ),
{
    let x = d.skip(p);
    assert(x[0] == d[p]);
    assert(x.len() >= 12);
    lemma_subblock_run(d, p + 12, q);
    assert(x.skip(12) =~= d.skip(p + 12));
    assert(x.subrange(1, 9) =~= d.subrange(p + 1, p + 9));
    assert(x.subrange(9, 12) =~= d.subrange(p + 9, p + 12));
}

/// An image descriptor laid out at `p` (its left-offset field) with no
/// local color table parses to exactly its fields and spans to `q`.
proof fn lemma_img_parse(d: Seq<u8>, p: int, q: int)
    requires
        0 <= p,
        p + 10 <= q <= d.len(),
        d[p + 8] & 0x80 == 0,
        subblock_run(d, p + 10, q),
    ensures
        spec_image_descriptor(d.skip(p)) == Ok::<(ImageDescriptor, int), ErrorKind>(
            (
                ImageDescriptor {
                    left: spec_u16_at(d, p, ByteOrder::Little),
                    top: spec_u16_at(d, p + 2, ByteOrder::Little),
                    width: spec_u16_at(d, p + 4, ByteOrder::Little),
                    height: spec_u16_at(d, p + 6, ByteOrder::Little),
                    local_color_table: None,
                    interlace: d[p + 8] & 0x40 > 0,
                },
                q - p,
            ),
        ),
{
    let x = d.skip(p);
    assert(x.len() >= 10);
    assert(x[0] == d[p]);
    assert(x[1] == d[p + 1]);
    assert(x[2] == d[p + 2]);
    assert(x[3] == d[p + 3]);
    assert(x[4] == d[p + 4]);
    assert(x[5] == d[p + 5]);
    assert(x[6] == d[p + 6]);
    assert(x[7] == d[p + 7]);
    assert(x[8] == d[p + 8]);
    assert(spec_u16_at(x, 0, ByteOrder::Little) == spec_u16_at(d, p, ByteOrder::Little));
    assert(spec_u16_at(x, 2, ByteOrder::Little) == spec_u16_at(d, p + 2, ByteOrder::Little));
    assert(spec_u16_at(x, 4, ByteOrder::Little) == spec_u16_at(d, p + 4, ByteOrder::Little));
    assert(spec_u16_at(x, 6, ByteOrder::Little) == spec_u16_at(d, p + 6, ByteOrder::Little));
    lemma_subblock_run(d, p + 10, q);
    assert(x.skip(10) =~= d.skip(p + 10));
}

/// The block record a graphic control extension at `p` stands for.
pub open spec fn gce_rec_at(d: Seq<u8>, p: int) -> BlockRec {
    BlockRec::GraphicControl(
        GraphicControlExtension {
            disposal_method: spec_disposal_method((d[p + 3] & 0x1c) >> 2)->0,
            user_input: d[p + 3] & 0x02 > 0,
            transparent_color_index: if d[p + 3] & 0x01 > 0 {
                Some(d[p + 6])
            } else {
                None
            },
            delay_time: spec_u16_at(d, p + 4, ByteOrder::Little),
        },
    )
}

/// The block record an application extension at `p` stands for.
pub open spec fn app_rec_at(d: Seq<u8>, p: int) -> BlockRec {
    BlockRec::Application {
        application_identifier: d.subrange(p + 3, p + 11),
        authentication_code: d.subrange(p + 11, p + 14),
    }
}

/// The block record an image descriptor without a local color table at
/// `p` stands for.
pub open spec fn img_rec_at(d: Seq<u8>, p: int) -> BlockRec {
    BlockRec::Image(
        ImageDescriptor {
            left: spec_u16_at(d, p + 1, ByteOrder::Little),
            top: spec_u16_at(d, p + 3, ByteOrder::Little),
            width: spec_u16_at(d, p + 5, ByteOrder::Little),
            height: spec_u16_at(d, p + 7, ByteOrder::Little),
            local_color_table: None,
            interlace: d[p + 9] & 0x40 > 0,
        },
    )
}

/// A block list laid out as one graphic control extension (at `t`), one
/// application extension (at `a`), one image descriptor (at `b`) and the
/// trailer (at `c`) parses to exactly those three records in order.
proof fn lemma_blocks_three(d: Seq<u8>, t: int, a: int, b: int, c: int)
    requires
        0 <= t,
        c < d.len(),
        d[t] == 0x21,
        d[t + 1] == 0xf9,
        d[t + 2] == 4,
        t + 7 <= a,
        subblock_run(d, t + 7, a),
        d[a] == 0x21,
        d[a + 1] == 0xff,
        d[a + 2] == 11,
        a + 14 <= b,
        subblock_run(d, a + 14, b),
        d[b] == 0x2c,
        d[b + 9] & 0x80 == 0,
        b + 11 <= c,
        subblock_run(d, b + 11, c),
        d[c] == 0x3b,
    ensures
        spec_blocks(d.skip(t)) == Ok::<Seq<BlockRec>, ErrorKind>(
            seq![gce_rec_at(d, t), app_rec_at(d, a), img_rec_at(d, b)],
        ),
{
    let z = d.skip(c);
    assert(z[0] == d[c]);
    assert(spec_blocks(d.skip(c)) == Ok::<Seq<BlockRec>, ErrorKind>(Seq::empty()));

    let y3 = d.skip(b);
    assert(y3[0] == d[b]);
    lemma_img_parse(d, b + 1, c);
    assert(y3.skip(1) =~= d.skip(b + 1));
    let img_c = c - b - 1;
    assert(d.skip(b + 1).skip(img_c) =~= d.skip(c));
    assert(spec_image_rest(d.skip(b + 1)) == Ok::<Seq<BlockRec>, ErrorKind>(
        seq![img_rec_at(d, b)] + Seq::empty(),
    ));
    assert(spec_blocks(d.skip(b)) == Ok::<Seq<BlockRec>, ErrorKind>(
        seq![img_rec_at(d, b)] + Seq::empty(),
    ));

    let y2 = d.skip(a);
    assert(y2[0] == d[a]);
    assert(y2[1] == d[a + 1]);
    lemma_app_parse(d, a + 2, b);
    assert(y2.skip(2) =~= d.skip(a + 2));
    let app_c = b - a - 2;
    assert(d.skip(a + 2).skip(app_c) =~= d.skip(b));
    assert(d.subrange(a + 2 + 1, a + 2 + 9) =~= d.subrange(a + 3, a + 11));
    assert(spec_application_rest(d.skip(a + 2)) == Ok::<Seq<BlockRec>, ErrorKind>(
        seq![app_rec_at(d, a)] + (seq![img_rec_at(d, b)] + Seq::empty()),
    ));
    assert(spec_blocks(d.skip(a)) == Ok::<Seq<BlockRec>, ErrorKind>(
        seq![app_rec_at(d, a)] + (seq![img_rec_at(d, b)] + Seq::empty()),
    ));

    let y1 = d.skip(t);
    assert(y1[0] == d[t]);
    assert(y1[1] == d[t + 1]);
    lemma_gce_parse(d, t + 2, a);
    assert(y1.skip(2) =~= d.skip(t + 2));
    let gce_c = a - t - 2;
    assert(d.skip(t + 2).skip(gce_c) =~= d.skip(a));
    assert(spec_graphic_control_rest(d.skip(t + 2)) == Ok::<Seq<BlockRec>, ErrorKind>(
        seq![gce_rec_at(d, t)] + (seq![app_rec_at(d, a)] + (seq![img_rec_at(d, b)]
            + Seq::empty())),
    ));
    assert(seq![gce_rec_at(d, t)] + (seq![app_rec_at(d, a)] + (seq![img_rec_at(d, b)]
        + Seq::empty())) =~= seq![gce_rec_at(d, t), app_rec_at(d, a), img_rec_at(d, b)]);
}

/// End-to-end law: a GIF89a buffer laid out as the 13-byte header with
/// the global-color-table flag set, the table itself, one graphic
/// control extension, one application extension, one image descriptor
/// without a local color table, and the trailer, parses to exactly those
/// three blocks in order, with the header's dimensions and table fields —
/// and counts exactly one frame, so it is not animated.
pub proof fn lemma_gif_end_to_end(d: Seq<u8>, t: int, a: int, b: int, c: int)
    requires
        d.len() >= 13,
        d[3] == 56 && d[4] == 57 && d[5] == 97,
        d[10] & 0x80 > 0,
        t == 13 + 3 * ((1u16 << (((d[10] & 0x07) + 1) as u16)) as int),
        d[t] == 0x21,
        d[t + 1] == 0xf9,
        d[t + 2] == 4,
        t + 7 <= a,
        subblock_run(d, t + 7, a),
        d[a] == 0x21,
        d[a + 1] == 0xff,
        d[a + 2] == 11,
        a + 14 <= b,
        subblock_run(d, a + 14, b),
        d[b] == 0x2c,
        d[b + 9] & 0x80 == 0,
        b + 11 <= c,
        subblock_run(d, b + 11, c),
        c < d.len(),
        d[c] == 0x3b,
    ensures
        spec_load(d) == Ok::<MetadataRec, ErrorKind>(
            MetadataRec {
                version: Version::V89a,
                dimensions: Dimensions {
                    width: spec_u16_at(d, 6, ByteOrder::Little) as u32,
                    height: spec_u16_at(d, 8, ByteOrder::Little) as u32,
                },
                global_color_table: Some(
                    ColorTable {
                        size: (1u16 << (((d[10] & 0x07) + 1) as u16)) as u16,
                        sorted: d[10] & 0x08 > 0,
                    },
                ),
                color_resolution: (1u16 << ((((d[10] & 0x70) >> 4) + 1) as u16)) as u16,
                background_color_index: d[11],
                pixel_aspect_ratio: d[12],
                blocks: seq![gce_rec_at(d, t), app_rec_at(d, a), img_rec_at(d, b)],
            },
        ),
        spec_frames_count(seq![gce_rec_at(d, t), app_rec_at(d, a), img_rec_at(d, b)]) == 1,
{
    lemma_blocks_three(d, t, a, b, c);
    let bs = seq![gce_rec_at(d, t), app_rec_at(d, a), img_rec_at(d, b)];
    let bs2 = seq![gce_rec_at(d, t), app_rec_at(d, a)];
    let bs1 = seq![gce_rec_at(d, t)];
    assert(bs.drop_last() =~= bs2);
    assert(bs2.drop_last() =~= bs1);
    assert(bs1.drop_last() =~= Seq::<BlockRec>::empty());
    assert(bs.last() == img_rec_at(d, b));
    assert(bs2.last() == app_rec_at(d, a));
    assert(bs1.last() == gce_rec_at(d, t));
    assert(spec_frames_count(Seq::<BlockRec>::empty()) == 0);
    assert(spec_frames_count(bs1) == 0);
    assert(spec_frames_count(bs2) == 0);
    assert(spec_frames_count(bs) == 1);
}

} // verus!
