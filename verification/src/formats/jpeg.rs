//! Metadata of JPEG images: a single forward scan over 0xFF-prefixed
//! markers until the frame header (SOF) is found.
//!
//! A 0x00 after 0xFF is a stuffing byte inside entropy-coded data and is
//! skipped.  Markers 0xD0–0xD9 have no length field; every other marker is
//! followed by a big-endian 16-bit length that includes the two length
//! bytes themselves.  The scan stops at the first frame marker, whose
//! payload gives sample precision, height and width.

use vstd::prelude::*;

use crate::types::{Dimensions, Error, ErrorKind};
use crate::utils::{find_byte, spec_u16, spec_u16_at, ByteOrder, ByteReader};

verus! {

/// Coding process used in an image.
#[derive(Copy, Clone, PartialEq, Eq, Structural, Debug)]
pub enum CodingProcess {
    /// Sequential DCT (discrete cosine transform).
    DctSequential,
    /// Progressive DCT.
    DctProgressive,
    /// Lossless coding.
    Lossless,
}

/// The coding process encoded by a frame marker, or `None` when the byte
/// is not a frame marker.
pub open spec fn spec_coding_process(m: u8) -> Option<CodingProcess> {
    if m == 0xc0 || m == 0xc1 || m == 0xc5 || m == 0xc9 || m == 0xcd {
        Some(CodingProcess::DctSequential)
    } else if m == 0xc2 || m == 0xc6 || m == 0xca || m == 0xce {
        Some(CodingProcess::DctProgressive)
    } else if m == 0xc3 || m == 0xc7 || m == 0xcb || m == 0xcf {
        Some(CodingProcess::Lossless)
    } else {
        None
    }
}

impl CodingProcess {
    /// The coding process encoded by a frame marker byte.
    pub fn from_marker(marker: u8) -> (r: Option<CodingProcess>)
        ensures
            r == spec_coding_process(marker),
    {
        match marker {
            0xc0 | 0xc1 | 0xc5 | 0xc9 | 0xcd => Some(CodingProcess::DctSequential),
            0xc2 | 0xc6 | 0xca | 0xce => Some(CodingProcess::DctProgressive),
            0xc3 | 0xc7 | 0xcb | 0xcf => Some(CodingProcess::Lossless),
            _ => None,
        }
    }
}

/// Entropy coding method used in an image.
#[derive(Copy, Clone, PartialEq, Eq, Structural, Debug)]
pub enum EntropyCoding {
    /// Huffman coding.
    Huffman,
    /// Arithmetic coding.
    Arithmetic,
}

/// The entropy coding encoded by a frame marker, or `None` when the byte
/// is not a frame marker.
pub open spec fn spec_entropy_coding(m: u8) -> Option<EntropyCoding> {
    if m == 0xc0 || m == 0xc1 || m == 0xc2 || m == 0xc3 || m == 0xc5 || m == 0xc6 || m == 0xc7 {
        Some(EntropyCoding::Huffman)
    } else if m == 0xc9 || m == 0xca || m == 0xcb || m == 0xcd || m == 0xce || m == 0xcf {
        Some(EntropyCoding::Arithmetic)
    } else {
        None
    }
}

impl EntropyCoding {
    /// The entropy coding encoded by a frame marker byte.
    pub fn from_marker(marker: u8) -> (r: Option<EntropyCoding>)
        ensures
            r == spec_entropy_coding(marker),
    {
        match marker {
            0xc0 | 0xc1 | 0xc2 | 0xc3 | 0xc5 | 0xc6 | 0xc7 => Some(EntropyCoding::Huffman),
            0xc9 | 0xca | 0xcb | 0xcd | 0xce | 0xcf => Some(EntropyCoding::Arithmetic),
            _ => None,
        }
    }
}

/// Whether the byte is a frame-header (SOF) marker: 0xC0–0xCF without the
/// table-definition markers 0xC4, 0xC8 and 0xCC.
pub open spec fn spec_is_sof(m: u8) -> bool {
    spec_coding_process(m) is Some
}

/// Whether the byte is a frame-header (SOF) marker.
pub fn is_sof_marker(value: u8) -> (r: bool)
    ensures
        r == spec_is_sof(value),
{
    match value {
        0xc0 | 0xc1 | 0xc2 | 0xc3 | 0xc5 | 0xc6 | 0xc7 | 0xc9 | 0xca | 0xcb | 0xcd | 0xce
        | 0xcf => true,
        _ => false,
    }
}

/// Whether the frame marker encodes a differential frame.
pub open spec fn spec_differential(m: u8) -> bool
    recommends
        spec_is_sof(m),
{
    m == 0xc5 || m == 0xc6 || m == 0xc7 || m == 0xcd || m == 0xce || m == 0xcf
}

/// Whether a marker byte satisfies the search target: a specific marker,
/// or any marker.
pub open spec fn marker_matches(target: Option<u8>, m: u8) -> bool {
    match target {
        Some(t) => m == t,
        None => true,
    }
}

/// The marker-search model over bytes `d`: skip to the next 0xFF, read the
/// following byte, discard 0x00 stuffing bytes, and stop at the first
/// marker the target accepts.  Yields the marker byte and the number of
/// bytes consumed (ending just after the marker byte).
pub open spec fn spec_find_marker(d: Seq<u8>, target: Option<u8>) -> Result<(u8, int), ErrorKind>
    decreases d.len(),
{
    let fb = find_byte(d, 0xff);
    if fb + 1 >= d.len() {
        Err(ErrorKind::UnexpectedEndOfFile)
    } else {
        let m = d[fb as int + 1];
        if m == 0 || !marker_matches(target, m) {
            match spec_find_marker(d.skip(fb as int + 2), target) {
                Ok(mc) => Ok((mc.0, fb as int + 2 + mc.1)),
                Err(k) => Err(k),
            }
        } else {
            Ok((m, fb as int + 2))
        }
    }
}

/// Scans forward to the first marker the target accepts.
pub fn find_marker(r: &mut ByteReader, target: Option<u8>) -> (res: Result<u8, Error>)
    requires
        old(r).wf(),
    ensures
        final(r).data@ == old(r).data@,
        final(r).wf(),
        match spec_find_marker(old(r).rem(), target) {
            Ok(mc) => res matches Ok(m) && m == mc.0 && final(r).pos == old(r).pos + mc.1,
            Err(k) => res matches Err(e) && e.kind() == k,
        },
    decreases old(r).rem().len(),
{
    let ghost d = r.rem();
    let k = r.skip_until(0xff);
    if k == 0 {
        return Err(Error::UnexpectedEndOfFile(Some("when searching for a marker")));
    }
    let m = match r.read_u8() {
        Some(b) => b,
        None => {
            return Err(Error::UnexpectedEndOfFile(Some("when reading marker type")));
        },
    };
    proof {
        assert(m == d[find_byte(d, 0xff) as int + 1]);
        assert(r.rem() =~= d.skip(find_byte(d, 0xff) as int + 2));
    }
    if m == 0 {
        return find_marker(r, target);
    }
    let matched = match target {
        Some(t) => m == t,
        None => true,
    };
    if matched {
        Ok(m)
    } else {
        find_marker(r, target)
    }
}

/// Whether the marker byte carries no length field: the restart markers
/// and SOI/EOI, 0xD0 through 0xD9.
pub open spec fn spec_no_length(m: u8) -> bool {
    0xd0 <= m <= 0xd9
}

/// The model of the search for the frame header: a marker in 0xD0–0xD9
/// has no length field and is passed over as it stands; any other
/// non-frame marker is skipped by consuming its big-endian payload length
/// (a declared length under 2 consumes the whole rest); the scan ends
/// just after the first frame marker.
pub open spec fn spec_skip_extra(d: Seq<u8>) -> Result<(u8, int), ErrorKind>
    decreases d.len(),
    via spec_skip_extra_decreases
{
    match spec_find_marker(d, None) {
        Err(k) => Err(k),
        Ok(mc) => {
            let m = mc.0;
            let c = mc.1;
            if spec_is_sof(m) {
                Ok((m, c))
            } else if spec_no_length(m) {
                match spec_skip_extra(d.skip(c)) {
                    Ok(mc2) => Ok((mc2.0, c + mc2.1)),
                    Err(k) => Err(k),
                }
            } else if c + 2 > d.len() {
                Err(ErrorKind::UnexpectedEndOfFile)
            } else {
                let size = spec_u16_at(d, c, ByteOrder::Big);
                let np = if size >= 2 {
                    if c + size <= d.len() {
                        c + size
                    } else {
                        d.len() as int
                    }
                } else {
                    d.len() as int
                };
                match spec_skip_extra(d.skip(np)) {
                    Ok(mc2) => Ok((mc2.0, np + mc2.1)),
                    Err(k) => Err(k),
                }
            }
        },
    }
}

#[via_fn]
proof fn spec_skip_extra_decreases(d: Seq<u8>) {
    lemma_find_marker_consumed(d, None);
}

/// `spec_skip_extra` consumes at least one byte and never more than the
/// input holds, and stops only on a frame marker.
pub proof fn lemma_skip_extra_consumed(d: Seq<u8>)
    ensures
        spec_skip_extra(d) matches Ok(mc) ==> 1 <= mc.1 <= d.len() && spec_is_sof(mc.0),
    decreases d.len(),
{
    lemma_find_marker_consumed(d, None);
    match spec_find_marker(d, None) {
        Ok(mc) => {
            if !spec_is_sof(mc.0) {
                if spec_no_length(mc.0) {
                    lemma_skip_extra_consumed(d.skip(mc.1));
                } else if mc.1 + 2 <= d.len() {
                    let c = mc.1;
                    let size = spec_u16_at(d, c, ByteOrder::Big);
                    let np = if size >= 2 {
                        if c + size <= d.len() {
                            c + size
                        } else {
                            d.len() as int
                        }
                    } else {
                        d.len() as int
                    };
                    lemma_skip_extra_consumed(d.skip(np));
                }
            }
        },
        Err(_) => {},
    }
}

/// `spec_find_marker` consumes at least one byte and never more than the
/// input holds.
pub proof fn lemma_find_marker_consumed(d: Seq<u8>, target: Option<u8>)
    ensures
        spec_find_marker(d, target) matches Ok(mc) ==> 1 <= mc.1 <= d.len(),
    decreases d.len(),
{
    let fb = find_byte(d, 0xff);
    crate::utils::lemma_find_byte(d, 0xff);
    if fb + 1 >= d.len() {
    } else {
        let m = d[fb as int + 1];
        if m == 0 || !marker_matches(target, m) {
            lemma_find_marker_consumed(d.skip(fb as int + 2), target);
        }
    }
}

/// Scans forward past non-frame markers to the first frame marker.
pub fn skip_extra_makers(r: &mut ByteReader) -> (res: Result<u8, Error>)
    requires
        old(r).wf(),
    ensures
        final(r).data@ == old(r).data@,
        final(r).wf(),
        match spec_skip_extra(old(r).rem()) {
            Ok(mc) => res matches Ok(m) && m == mc.0 && final(r).pos == old(r).pos + mc.1,
            Err(k) => res matches Err(e) && e.kind() == k,
        },
    decreases old(r).rem().len(),
{
    let ghost d = r.rem();
    let marker = match find_marker(r, None) {
        Ok(m) => m,
        Err(e) => {
            return Err(e);
        },
    };
    proof {
        lemma_find_marker_consumed(d, None);
    }
    if is_sof_marker(marker) {
        return Ok(marker);
    }
    if 0xd0 <= marker && marker <= 0xd9 {
        proof {
            assert(r.rem() =~= d.skip(spec_find_marker(d, None)->Ok_0.1));
        }
        return skip_extra_makers(r);
    }
    let size = match r.read_u16(ByteOrder::Big) {
        Some(s) => s,
        None => {
            return Err(Error::UnexpectedEndOfFile(Some("when reading some marker payload size")));
        },
    };
    if size >= 2 {
        let _ = r.skip_exact((size - 2) as usize);
    } else {
        let rest = r.remaining();
        let _ = r.skip_exact(rest);
    }
    proof {
        let c = spec_find_marker(d, None)->Ok_0.1;
        let sz = spec_u16_at(d, c, ByteOrder::Big);
        let np = if sz >= 2 {
            if c + sz <= d.len() {
                c + sz
            } else {
                d.len() as int
            }
        } else {
            d.len() as int
        };
        assert(r.rem() =~= d.skip(np));
    }
    skip_extra_makers(r)
}

/// A run of markers with no frame header among them, laid out back to
/// back from `p` to `q`: each is 0xFF followed by a non-zero, non-frame
/// marker byte — either one of the length-free 0xD0–0xD9 or one followed
/// by a big-endian payload length of at least 2 that spans exactly to the
/// next marker.
pub open spec fn nonframe_run(d: Seq<u8>, p: int, q: int) -> bool
    decreases q - p,
{
    if p >= q {
        p == q
    } else {
        &&& p + 2 <= q
        &&& d[p] == 0xff
        &&& d[p + 1] != 0
        &&& !spec_is_sof(d[p + 1])
        &&& if spec_no_length(d[p + 1]) {
            nonframe_run(d, p + 2, q)
        } else {
            &&& p + 4 <= q
            &&& spec_u16_at(d, p + 2, ByteOrder::Big) >= 2
            &&& p + 2 + spec_u16_at(d, p + 2, ByteOrder::Big) <= q
            &&& nonframe_run(d, p + 2 + spec_u16_at(d, p + 2, ByteOrder::Big), q)
        }
    }
}

/// Over a non-frame marker run that ends at a frame marker, the scan
/// stops exactly at that marker, having consumed precisely the run and
/// the marker's two bytes.
proof fn lemma_skip_extra_on_run(d: Seq<u8>, p: int, q: int, m: u8)
    requires
        0 <= p,
        nonframe_run(d, p, q),
        q + 2 <= d.len(),
        d[q] == 0xff,
        d[q + 1] == m,
        spec_is_sof(m),
    ensures
        spec_skip_extra(d.skip(p)) == Ok::<(u8, int), ErrorKind>((m, q + 2 - p)),
    decreases q - p,
{
    let t = d.skip(p);
    assert(t[0] == d[p]);
    assert(t[1] == d[p + 1]);
    assert(t[0] == 0xff);
    assert(find_byte(t, 0xff) == 0);
    if p == q {
        assert(spec_find_marker(t, None) == Ok::<(u8, int), ErrorKind>((m, 2)));
    } else {
        let m1 = d[p + 1];
        assert(spec_find_marker(t, None) == Ok::<(u8, int), ErrorKind>((m1, 2)));
        if spec_no_length(m1) {
            lemma_skip_extra_on_run(d, p + 2, q, m);
            assert(t.skip(2) =~= d.skip(p + 2));
        } else {
            let size = spec_u16_at(d, p + 2, ByteOrder::Big);
            assert(t[2] == d[p + 2]);
            assert(t[3] == d[p + 3]);
            assert(spec_u16_at(t, 2, ByteOrder::Big) == size);
            assert(2 + size <= t.len());
            lemma_skip_extra_on_run(d, p + 2 + size, q, m);
            assert(t.skip(2 + size) =~= d.skip(p + 2 + size));
        }
    }
}

/// Frame-detection law: a buffer that opens with the SOI marker,
/// continues with any run of non-frame markers — restart markers bare,
/// other markers with their declared payloads — and then holds a frame
/// marker whose header size exceeds 8 parses to exactly that header's
/// fields: the big-endian height and width, the sample precision byte,
/// and the classification of the frame marker.
pub proof fn lemma_jpeg_frame_detection(d: Seq<u8>, q: int, m: u8)
    requires
        d.len() >= 2,
        d[0] == 0xff,
        d[1] == 0xd8,
        nonframe_run(d, 2, q),
        q + 9 <= d.len(),
        d[q] == 0xff,
        d[q + 1] == m,
        spec_is_sof(m),
        spec_u16_at(d, q + 2, ByteOrder::Big) > 8,
    ensures
        spec_load(d) == Ok::<Metadata, ErrorKind>(
            Metadata {
                dimensions: Dimensions {
                    width: spec_u16_at(d, q + 7, ByteOrder::Big) as u32,
                    height: spec_u16_at(d, q + 5, ByteOrder::Big) as u32,
                },
                sample_precision: d[q + 4],
                coding_process: spec_coding_process(m)->0,
                entropy_coding: spec_entropy_coding(m)->0,
                baseline: m == 0xc0,
                differential: spec_differential(m),
            },
        ),
{
    assert(find_byte(d, 0xff) == 0);
    assert(spec_find_marker(d, Some(0xd8)) == Ok::<(u8, int), ErrorKind>((0xd8, 2)));
    lemma_skip_extra_on_run(d, 2, q, m);
    let rem = d.skip(2).skip(q);
    assert(rem =~= d.skip(q + 2));
    assert(rem.len() >= 7);
    assert(rem[0] == d[q + 2]);
    assert(rem[1] == d[q + 3]);
    assert(rem[2] == d[q + 4]);
    assert(rem[3] == d[q + 5]);
    assert(rem[4] == d[q + 6]);
    assert(rem[5] == d[q + 7]);
    assert(rem[6] == d[q + 8]);
    assert(spec_u16(ByteOrder::Big, rem[0], rem[1]) == spec_u16_at(d, q + 2, ByteOrder::Big));
    assert(spec_u16(ByteOrder::Big, rem[3], rem[4]) == spec_u16_at(d, q + 5, ByteOrder::Big));
    assert(spec_u16(ByteOrder::Big, rem[5], rem[6]) == spec_u16_at(d, q + 7, ByteOrder::Big));
}

/// Metadata of a JPEG image: what the frame header holds.
#[derive(Copy, Clone, PartialEq, Eq, Structural, Debug)]
pub struct Metadata {
    /// Image size.
    pub dimensions: Dimensions,
    /// Sample precision (in bits).
    pub sample_precision: u8,
    /// Image coding process type.
    pub coding_process: CodingProcess,
    /// Image entropy coding type.
    pub entropy_coding: EntropyCoding,
    /// Whether this image uses a baseline DCT encoding.
    pub baseline: bool,
    /// Whether this image uses a differential encoding.
    pub differential: bool,
}

impl View for Metadata {
    type V = Metadata;

    open spec fn view(&self) -> Metadata {
        *self
    }
}

/// What loading JPEG metadata from the bytes `d` yields: the SOI marker
/// must be found, then the first frame marker; its payload length must
/// exceed 8, and precision, height and width follow.  Reaching the end of
/// the bytes first is `UnexpectedEndOfFile`.
pub open spec fn spec_load(d: Seq<u8>) -> Result<Metadata, ErrorKind> {
    match spec_find_marker(d, Some(0xd8)) {
        Err(k) => Err(k),
        Ok(soi) => {
            match spec_skip_extra(d.skip(soi.1)) {
                Err(k) => Err(k),
                Ok(mc) => {
                    let marker = mc.0;
                    let rem = d.skip(soi.1).skip(mc.1);
                    if rem.len() < 2 {
                        Err(ErrorKind::UnexpectedEndOfFile)
                    } else if spec_u16(ByteOrder::Big, rem[0], rem[1]) <= 8 {
                        Err(ErrorKind::InvalidFormat)
                    } else if rem.len() < 7 {
                        Err(ErrorKind::UnexpectedEndOfFile)
                    } else {
                        Ok(
                            Metadata {
                                dimensions: Dimensions {
                                    width: spec_u16(ByteOrder::Big, rem[5], rem[6]) as u32,
                                    height: spec_u16(ByteOrder::Big, rem[3], rem[4]) as u32,
                                },
                                sample_precision: rem[2],
                                coding_process: spec_coding_process(marker)->0,
                                entropy_coding: spec_entropy_coding(marker)->0,
                                baseline: marker == 0xc0,
                                differential: spec_differential(marker),
                            },
                        )
                    }
                },
            }
        },
    }
}

impl Metadata {
    /// Loads JPEG metadata from the reader's remaining bytes.
    pub fn load(r: &mut ByteReader) -> (res: Result<Metadata, Error>)
        requires
            old(r).wf(),
        ensures
            final(r).data@ == old(r).data@,
            final(r).wf(),
            match spec_load(old(r).rem()) {
                Ok(m) => res matches Ok(got) && got == m,
                Err(k) => res matches Err(e) && e.kind() == k,
            },
    {
        let ghost d = r.rem();
        match find_marker(r, Some(0xd8)) {
            Ok(_) => {},
            Err(e) => {
                return Err(e);
            },
        }
        let ghost d1 = r.rem();
        proof {
            lemma_find_marker_consumed(d, Some(0xd8));
            assert(d1 =~= d.skip(spec_find_marker(d, Some(0xd8))->Ok_0.1));
        }
        let marker = match skip_extra_makers(r) {
            Ok(m) => m,
            Err(e) => {
                return Err(e);
            },
        };
        let ghost rem = r.rem();
        proof {
            lemma_skip_extra_consumed(d1);
            assert(rem =~= d1.skip(spec_skip_extra(d1)->Ok_0.1));
        }
        let size = match r.read_u16(ByteOrder::Big) {
            Some(s) => s,
            None => {
                return Err(Error::UnexpectedEndOfFile(Some("when reading SOF marker payload size")));
            },
        };
        if size <= 8 {
            return Err(Error::InvalidFormat(Some("invalid JPEG frame header size")));
        }
        let sample_precision = match r.read_u8() {
            Some(b) => b,
            None => {
                return Err(
                    Error::UnexpectedEndOfFile(Some("when reading sample precision of the frame")),
                );
            },
        };
        let h = match r.read_u16(ByteOrder::Big) {
            Some(v) => v,
            None => {
                return Err(Error::UnexpectedEndOfFile(Some("when reading JPEG frame height")));
            },
        };
        let w = match r.read_u16(ByteOrder::Big) {
            Some(v) => v,
            None => {
                return Err(Error::UnexpectedEndOfFile(Some("when reading JPEG frame width")));
            },
        };
        proof {
            assert(sample_precision == rem[2]);
            assert(h == spec_u16(ByteOrder::Big, rem[3], rem[4]));
            assert(w == spec_u16(ByteOrder::Big, rem[5], rem[6]));
        }
        let baseline = marker == 0xc0;
        let differential = match marker {
            0xc0 | 0xc1 | 0xc2 | 0xc3 | 0xc9 | 0xca | 0xcb => false,
            _ => true,
        };
        let coding_process = match CodingProcess::from_marker(marker) {
            Some(c) => c,
            None => {
                return Err(Error::InvalidFormat(Some("invalid JPEG frame marker")));
            },
        };
        let entropy_coding = match EntropyCoding::from_marker(marker) {
            Some(c) => c,
            None => {
                return Err(Error::InvalidFormat(Some("invalid JPEG frame marker")));
            },
        };
        Ok(
            Metadata {
                dimensions: Dimensions { width: w as u32, height: h as u32 },
                sample_precision,
                coding_process,
                entropy_coding,
                baseline,
                differential,
            },
        )
    }

    /// Loads JPEG metadata from a byte buffer.
    pub fn load_from_buf(b: &[u8]) -> (res: Result<Metadata, Error>)
        ensures
            match spec_load(b@) {
                Ok(m) => res matches Ok(got) && got == m,
                Err(k) => res matches Err(e) && e.kind() == k,
            },
    {
        let mut r = ByteReader::new(vstd::slice::slice_to_vec(b));
        proof {
            assert(r.rem() =~= b@);
        }
        Metadata::load(&mut r)
    }
}

} // verus!
