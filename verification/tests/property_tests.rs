use immeta::common::tiff::{EntryType, LazyIfds, TiffReader, TiffValue};
use immeta::formats::{jpeg, webp};
use immeta::types::{Error, ErrorKind};
use immeta::Dimensions;

/// A little-endian TIFF document with the given entries and trailing data.
/// Each entry is `(tag, type code, count, 4-byte value field)`.
fn tiff_le(entries: &[(u16, u16, u32, [u8; 4])], tail: &[u8]) -> Vec<u8> {
    let mut d = Vec::new();
    d.extend_from_slice(b"II");
    d.extend_from_slice(&42u16.to_le_bytes());
    d.extend_from_slice(&8u32.to_le_bytes());
    d.extend_from_slice(&(entries.len() as u16).to_le_bytes());
    for (tag, tc, count, val) in entries {
        d.extend_from_slice(&tag.to_le_bytes());
        d.extend_from_slice(&tc.to_le_bytes());
        d.extend_from_slice(&count.to_le_bytes());
        d.extend_from_slice(val);
    }
    d.extend_from_slice(&0u32.to_le_bytes());
    d.extend_from_slice(tail);
    d
}

fn first_entry(doc: &LazyIfds) -> immeta::common::tiff::Entry {
    let mut it = doc.iter();
    let mut ifd = it.next(doc).unwrap().unwrap();
    ifd.next(doc).unwrap().unwrap()
}

#[test]
fn tiff_embedded_at_exactly_four_bytes() {
    // type size * count == 4: a Long with count 1 decodes via the embedded
    // path, straight from the value field, even though read as an offset
    // it would point far outside the document.
    let data = tiff_le(&[(7, 4, 1, 0xfffffff0u32.to_le_bytes())], &[]);
    let reader = TiffReader::new(data);
    let doc = reader.ifds().unwrap();
    let e = first_entry(&doc);
    assert_eq!(
        e.all_values(&doc, EntryType::Long).unwrap().unwrap(),
        vec![TiffValue::Long(0xfffffff0)]
    );
    let mut it = e.values(&doc, EntryType::Long).unwrap();
    assert_eq!(it.next(&doc).unwrap().unwrap(), TiffValue::Long(0xfffffff0));
    assert!(it.next(&doc).is_none());
}

#[test]
fn tiff_referenced_at_five_bytes() {
    // type size * count == 5, one byte more than the field holds: the
    // value field is an offset and the five bytes live behind it.
    // The header is 8 bytes, the directory 2 + 12 + 4 = 18: data at 26.
    let data = tiff_le(&[(7, 1, 5, 26u32.to_le_bytes())], b"vwxyz");
    let reader = TiffReader::new(data);
    let doc = reader.ifds().unwrap();
    let e = first_entry(&doc);
    assert_eq!(
        e.all_values(&doc, EntryType::Byte).unwrap().unwrap(),
        vec![
            TiffValue::Byte(b'v'),
            TiffValue::Byte(b'w'),
            TiffValue::Byte(b'x'),
            TiffValue::Byte(b'y'),
            TiffValue::Byte(b'z'),
        ]
    );
}

#[test]
fn tiff_ascii_packing_four_strings() {
    // Four NUL-terminated strings packed into the 4-byte embedded window:
    // each is recovered individually and as a flat list.
    let data = tiff_le(&[(3, 2, 4, *b"\0\0\0\0")], &[]);
    let reader = TiffReader::new(data);
    let doc = reader.ifds().unwrap();
    let e = first_entry(&doc);
    let empty = TiffValue::Ascii(String::new());
    assert_eq!(
        e.all_values(&doc, EntryType::Ascii).unwrap().unwrap(),
        vec![empty.clone(), empty.clone(), empty.clone(), empty.clone()]
    );
    let mut it = e.values(&doc, EntryType::Ascii).unwrap();
    for _ in 0..4 {
        assert_eq!(it.next(&doc).unwrap().unwrap(), TiffValue::Ascii(String::new()));
    }
    assert!(it.next(&doc).is_none());
}

#[test]
fn tiff_ascii_packing_two_strings() {
    // Two NUL-terminated strings in one embedded entry, byte for byte.
    let data = tiff_le(&[(3, 2, 4, *b"a\0b\0")], &[]);
    let reader = TiffReader::new(data);
    let doc = reader.ifds().unwrap();
    let e = first_entry(&doc);
    assert_eq!(
        e.all_values(&doc, EntryType::Ascii).unwrap().unwrap(),
        vec![
            TiffValue::Ascii("a".to_string()),
            TiffValue::Ascii("b".to_string()),
        ]
    );
    let mut it = e.values(&doc, EntryType::Ascii).unwrap();
    assert_eq!(it.next(&doc).unwrap().unwrap(), TiffValue::Ascii("a".to_string()));
    assert_eq!(it.next(&doc).unwrap().unwrap(), TiffValue::Ascii("b".to_string()));
    assert!(it.next(&doc).is_none());
}

#[test]
fn tiff_unknown_type_not_decodable() {
    // Type code 123 exposes tag and count, but no known representation
    // type decodes it.
    let data = tiff_le(&[(77, 123, 5, 0u32.to_le_bytes())], &[]);
    let reader = TiffReader::new(data);
    let doc = reader.ifds().unwrap();
    let e = first_entry(&doc);
    assert_eq!(e.tag(), 77);
    assert_eq!(e.entry_type(), EntryType::Unknown(123));
    assert_eq!(e.count(), 5);
    for t in [
        EntryType::Byte,
        EntryType::Ascii,
        EntryType::Short,
        EntryType::Long,
        EntryType::Rational,
        EntryType::SignedByte,
        EntryType::Undefined,
        EntryType::SignedShort,
        EntryType::SignedLong,
        EntryType::SignedRational,
        EntryType::Float,
        EntryType::Double,
        EntryType::Unknown(123),
    ] {
        assert!(e.values(&doc, t).is_none());
        assert!(e.all_values(&doc, t).is_none());
    }
}

#[test]
fn tiff_zero_entry_ifd_is_invalid() {
    let mut d = Vec::new();
    d.extend_from_slice(b"II");
    d.extend_from_slice(&42u16.to_le_bytes());
    d.extend_from_slice(&8u32.to_le_bytes());
    d.extend_from_slice(&0u16.to_le_bytes());
    d.extend_from_slice(&0u32.to_le_bytes());
    let reader = TiffReader::new(d);
    let doc = reader.ifds().unwrap();
    let mut it = doc.iter();
    let e = it.next(&doc).unwrap().err().unwrap();
    assert_eq!(e.kind_of(), ErrorKind::InvalidFormat);
}

#[test]
fn tiff_bad_magic() {
    let mut d = Vec::new();
    d.extend_from_slice(b"II");
    d.extend_from_slice(&41u16.to_le_bytes());
    d.extend_from_slice(&8u32.to_le_bytes());
    let e = TiffReader::new(d).ifds().err().unwrap();
    assert_eq!(e.kind_of(), ErrorKind::InvalidFormat);
}

#[test]
fn tiff_truncated_header() {
    let e = TiffReader::new(b"II".to_vec()).ifds().err().unwrap();
    assert_eq!(e.kind_of(), ErrorKind::UnexpectedEndOfFile);
    assert!(matches!(e, Error::UnexpectedEndOfFile(Some(_))));
}

#[test]
fn jpeg_progressive_frame_detection() {
    // SOI, some non-frame markers with arbitrary payloads (a Huffman
    // table definition among them), then a progressive frame marker.
    let mut d = Vec::new();
    d.extend_from_slice(&[0xff, 0xd8]);
    d.extend_from_slice(&[0xff, 0xe1, 0x00, 0x08, 9, 8, 7, 6, 5, 4]);
    d.extend_from_slice(&[0xff, 0xc4, 0x00, 0x05, 1, 2, 3]);
    d.extend_from_slice(&[0xff, 0xc2, 0x00, 0x0b, 8]);
    d.extend_from_slice(&857u16.to_be_bytes());
    d.extend_from_slice(&1280u16.to_be_bytes());
    d.extend_from_slice(&[1, 0x11, 0x00, 0x3f]);

    let md = jpeg::Metadata::load_from_buf(&d).unwrap();
    assert_eq!(md.dimensions, Dimensions { width: 1280, height: 857 });
    assert_eq!(md.sample_precision, 8);
    assert_eq!(md.coding_process, jpeg::CodingProcess::DctProgressive);
    assert_eq!(md.entropy_coding, jpeg::EntropyCoding::Huffman);
    assert_eq!(md.baseline, false);
    assert_eq!(md.differential, false);
}

#[test]
fn jpeg_stuffed_bytes_are_skipped() {
    // 0xFF 0x00 is entropy-coded data, not a marker.
    let mut d = Vec::new();
    d.extend_from_slice(&[0x10, 0xff, 0x00, 0x20, 0xff, 0xd8]);
    d.extend_from_slice(&[0xff, 0xc0, 0x00, 0x0b, 12]);
    d.extend_from_slice(&3u16.to_be_bytes());
    d.extend_from_slice(&5u16.to_be_bytes());
    d.extend_from_slice(&[1, 0x11, 0x00, 0x3f]);

    let md = jpeg::Metadata::load_from_buf(&d).unwrap();
    assert_eq!(md.dimensions, Dimensions { width: 5, height: 3 });
    assert_eq!(md.sample_precision, 12);
    assert_eq!(md.baseline, true);
    assert_eq!(md.coding_process, jpeg::CodingProcess::DctSequential);
}

#[test]
fn jpeg_missing_frame_is_eof() {
    let d = vec![0xff, 0xd8, 0xff, 0xe0, 0x00, 0x04, 1, 2];
    let e = jpeg::Metadata::load_from_buf(&d).err().unwrap();
    assert_eq!(e.kind_of(), ErrorKind::UnexpectedEndOfFile);
}

#[test]
fn jpeg_short_frame_header_is_invalid() {
    let d = vec![0xff, 0xd8, 0xff, 0xc0, 0x00, 0x08];
    let e = jpeg::Metadata::load_from_buf(&d).err().unwrap();
    assert_eq!(e.kind_of(), ErrorKind::InvalidFormat);
}

#[test]
fn sniffing_classifies_gif_after_failed_png_attempt() {
    // The buffer is not PNG; the PNG attempt consumes a prefix and fails,
    // and the GIF attempt still sees the buffer from the start.
    let mut d = Vec::new();
    d.extend_from_slice(b"GIF87a");
    d.extend_from_slice(&2u16.to_le_bytes());
    d.extend_from_slice(&3u16.to_le_bytes());
    d.push(0x00);
    d.push(0);
    d.push(0);
    d.push(0x3b);

    let md = immeta::load_from_buf(&d).unwrap();
    assert_eq!(md.mime_type(), "image/gif");
    assert_eq!(md.dimensions(), Dimensions { width: 2, height: 3 });
}

#[test]
fn sniffing_rejects_unknown_formats() {
    let e = immeta::load_from_buf(b"not an image at all").err().unwrap();
    assert_eq!(e.kind_of(), ErrorKind::InvalidFormat);
    assert_eq!(e.message(), Some("unknown or unsupported file type"));
}

#[test]
fn png_bad_signature_is_invalid_format() {
    let e = immeta::formats::png::Metadata::load_from_buf(b"XPNG\r\n\x1a\nXXXXXXXXXXXXXXXXXXXXXXXXX")
        .err()
        .unwrap();
    assert_eq!(e.kind_of(), ErrorKind::InvalidFormat);
}

#[test]
fn png_truncated_is_eof() {
    let e = immeta::formats::png::Metadata::load_from_buf(b"\x89PNG\r\n\x1a\n\x00\x00")
        .err()
        .unwrap();
    assert_eq!(e.kind_of(), ErrorKind::UnexpectedEndOfFile);
}

#[test]
fn png_bad_color_type_is_invalid() {
    let mut d = Vec::new();
    d.extend_from_slice(b"\x89PNG\r\n\x1a\n");
    d.extend_from_slice(&13u32.to_be_bytes());
    d.extend_from_slice(b"IHDR");
    d.extend_from_slice(&1u32.to_be_bytes());
    d.extend_from_slice(&1u32.to_be_bytes());
    d.extend_from_slice(&[8, 5, 0, 0, 0]);
    let e = immeta::formats::png::Metadata::load_from_buf(&d).err().unwrap();
    assert_eq!(e.kind_of(), ErrorKind::InvalidFormat);
}

#[test]
fn gif_unknown_block_is_invalid() {
    let mut d = Vec::new();
    d.extend_from_slice(b"GIF89a");
    d.extend_from_slice(&1u16.to_le_bytes());
    d.extend_from_slice(&1u16.to_le_bytes());
    d.push(0x00);
    d.push(0);
    d.push(0);
    d.push(0x77);
    let e = immeta::formats::gif::Metadata::load_from_buf(&d).err().unwrap();
    assert_eq!(e.kind_of(), ErrorKind::InvalidFormat);
    assert_eq!(e.message(), Some("unknown block type of a block"));
}

#[test]
fn gif_bad_graphic_control_size_is_invalid() {
    let mut d = Vec::new();
    d.extend_from_slice(b"GIF89a");
    d.extend_from_slice(&1u16.to_le_bytes());
    d.extend_from_slice(&1u16.to_le_bytes());
    d.push(0x00);
    d.push(0);
    d.push(0);
    d.extend_from_slice(&[0x21, 0xf9, 0x05, 0, 0, 0, 0, 0, 0x00]);
    let e = immeta::formats::gif::Metadata::load_from_buf(&d).err().unwrap();
    assert_eq!(e.kind_of(), ErrorKind::InvalidFormat);
}

#[test]
fn gif_delay_time_ms_formula() {
    let gce = immeta::formats::gif::GraphicControlExtension {
        disposal_method: immeta::formats::gif::DisposalMethod::NoDisposal,
        user_input: false,
        transparent_color_index: None,
        delay_time: 123,
    };
    assert_eq!(gce.delay_time_ms(), 1230);
}

#[test]
fn webp_vp8_keyframe() {
    // A RIFF container of type WEBP with one VP8 chunk: a keyframe with
    // version 1, shown, first partition of 5 bytes, 1280 x 857.
    let mut content = Vec::new();
    content.extend_from_slice(&[0xb2, 0x00, 0x00]);
    content.extend_from_slice(&[0x9d, 0x01, 0x2a]);
    content.extend_from_slice(&[0x00, 0x05, 0x59, 0x03]);
    let mut d = Vec::new();
    d.extend_from_slice(b"RIFF");
    d.extend_from_slice(&(4 + 8 + content.len() as u32).to_le_bytes());
    d.extend_from_slice(b"WEBP");
    d.extend_from_slice(b"VP8 ");
    d.extend_from_slice(&(content.len() as u32).to_le_bytes());
    d.extend_from_slice(&content);

    let md = webp::Metadata::load_from_buf(&d).unwrap();
    let expected = webp::Metadata::VP8(webp::VP8Metadata {
        version_number: 1,
        show_frame: true,
        first_partition_len: 5,
        frame: webp::VP8Frame::Key {
            dimensions: Dimensions { width: 1280, height: 857 },
            x_scale: 0,
            y_scale: 0,
        },
    });
    assert_eq!(md, expected);
    assert_eq!(md.dimensions(), Dimensions { width: 1280, height: 857 });
}

#[test]
fn webp_interframe() {
    let mut d = Vec::new();
    d.extend_from_slice(b"RIFF");
    d.extend_from_slice(&15u32.to_le_bytes());
    d.extend_from_slice(b"WEBP");
    d.extend_from_slice(b"VP8 ");
    d.extend_from_slice(&3u32.to_le_bytes());
    d.extend_from_slice(&[0xb3, 0x00, 0x00]);

    let md = webp::Metadata::load_from_buf(&d).unwrap();
    assert_eq!(
        md,
        webp::Metadata::VP8(webp::VP8Metadata {
            version_number: 1,
            show_frame: true,
            first_partition_len: 5,
            frame: webp::VP8Frame::Inter,
        })
    );
}

#[test]
fn webp_bad_signature_is_invalid() {
    let mut d = Vec::new();
    d.extend_from_slice(b"RIFF");
    d.extend_from_slice(&4u32.to_le_bytes());
    d.extend_from_slice(b"WAVE");
    let e = webp::Metadata::load_from_buf(&d).err().unwrap();
    assert_eq!(e.kind_of(), ErrorKind::InvalidFormat);
}

#[test]
fn empty_buffer_fails_every_format() {
    assert_eq!(
        immeta::formats::png::Metadata::load_from_buf(b"").err().unwrap().kind_of(),
        ErrorKind::UnexpectedEndOfFile
    );
    assert_eq!(
        immeta::formats::gif::Metadata::load_from_buf(b"").err().unwrap().kind_of(),
        ErrorKind::UnexpectedEndOfFile
    );
    assert_eq!(
        jpeg::Metadata::load_from_buf(b"").err().unwrap().kind_of(),
        ErrorKind::UnexpectedEndOfFile
    );
    assert_eq!(
        TiffReader::new(Vec::new()).ifds().err().unwrap().kind_of(),
        ErrorKind::UnexpectedEndOfFile
    );
    assert_eq!(
        immeta::common::riff::RiffReader::new(Vec::new()).root().err().unwrap().kind_of(),
        ErrorKind::UnexpectedEndOfFile
    );
    assert_eq!(
        immeta::load_from_buf(b"").err().unwrap().kind_of(),
        ErrorKind::InvalidFormat
    );
}

#[test]
fn gif_local_color_table_and_interlace() {
    let mut d = Vec::new();
    d.extend_from_slice(b"GIF89a");
    d.extend_from_slice(&9u16.to_le_bytes());
    d.extend_from_slice(&7u16.to_le_bytes());
    d.push(0x00);
    d.push(0);
    d.push(0);
    // image descriptor with a sorted 4-color local table, interlaced
    d.push(0x2c);
    d.extend_from_slice(&1u16.to_le_bytes());
    d.extend_from_slice(&2u16.to_le_bytes());
    d.extend_from_slice(&9u16.to_le_bytes());
    d.extend_from_slice(&7u16.to_le_bytes());
    d.push(0b1110_0001);
    d.extend_from_slice(&[0u8; 12]);
    d.push(0x03);
    d.push(0x00);
    d.push(0x3b);

    let md = immeta::formats::gif::Metadata::load_from_buf(&d).unwrap();
    assert_eq!(
        md.blocks,
        vec![immeta::formats::gif::Block::ImageDescriptor(
            immeta::formats::gif::ImageDescriptor {
                left: 1,
                top: 2,
                width: 9,
                height: 7,
                local_color_table: Some(immeta::formats::gif::ColorTable {
                    size: 4,
                    sorted: true,
                }),
                interlace: true,
            }
        )]
    );
    assert_eq!(md.frames_number(), 1);
}

#[test]
fn png_grayscale_interlaced() {
    let mut d = Vec::new();
    d.extend_from_slice(b"\x89PNG\r\n\x1a\n");
    d.extend_from_slice(&13u32.to_be_bytes());
    d.extend_from_slice(b"IHDR");
    d.extend_from_slice(&31u32.to_be_bytes());
    d.extend_from_slice(&15u32.to_be_bytes());
    d.extend_from_slice(&[16, 0, 0, 0, 1]);
    let md = immeta::formats::png::Metadata::load_from_buf(&d).unwrap();
    assert_eq!(md.color_type, immeta::formats::png::ColorType::Grayscale);
    assert_eq!(md.color_depth, 16);
    assert_eq!(
        md.interlace_method,
        immeta::formats::png::InterlaceMethod::Adam7
    );
    assert_eq!(md.dimensions, Dimensions { width: 31, height: 15 });
}

#[test]
fn tiff_referenced_ascii_without_terminator_is_eof() {
    // An Ascii entry of 8 referenced bytes whose data runs off the end of
    // the document without a NUL.
    let data = tiff_le(&[(9, 2, 8, 26u32.to_le_bytes())], b"abcde");
    let reader = TiffReader::new(data);
    let doc = reader.ifds().unwrap();
    let e = first_entry(&doc);
    let res = e.all_values(&doc, EntryType::Ascii).unwrap();
    assert_eq!(res.err().unwrap().kind_of(), ErrorKind::UnexpectedEndOfFile);
    let mut it = e.values(&doc, EntryType::Ascii).unwrap();
    assert_eq!(
        it.next(&doc).unwrap().err().unwrap().kind_of(),
        ErrorKind::UnexpectedEndOfFile
    );
}

#[test]
fn jpeg_restart_marker_has_no_length_field() {
    // A restart marker between SOI and the frame header carries no length
    // field: the bytes right after it are the next marker, not a payload
    // size.
    let mut d = Vec::new();
    d.extend_from_slice(&[0xff, 0xd8]);
    d.extend_from_slice(&[0xff, 0xd0]);
    d.extend_from_slice(&[0xff, 0xc0, 0x00, 0x0b, 8]);
    d.extend_from_slice(&4u16.to_be_bytes());
    d.extend_from_slice(&6u16.to_be_bytes());
    d.extend_from_slice(&[1, 0x11, 0x00, 0x3f]);

    let md = jpeg::Metadata::load_from_buf(&d).unwrap();
    assert_eq!(md.dimensions, Dimensions { width: 6, height: 4 });
    assert_eq!(md.baseline, true);
}
