use immeta::common::tiff::{EntryType, LazyIfds, TiffReader, TiffValue};

struct BeBuf {
    d: Vec<u8>,
}

impl BeBuf {
    fn new() -> BeBuf {
        BeBuf { d: Vec::new() }
    }

    fn bytes(mut self, b: &[u8]) -> BeBuf {
        self.d.extend_from_slice(b);
        self
    }

    fn u16(mut self, v: u16) -> BeBuf {
        self.d.extend_from_slice(&v.to_be_bytes());
        self
    }

    fn u32(mut self, v: u32) -> BeBuf {
        self.d.extend_from_slice(&v.to_be_bytes());
        self
    }

    fn i8v(mut self, v: i8) -> BeBuf {
        self.d.extend_from_slice(&v.to_be_bytes());
        self
    }

    fn i16v(mut self, v: i16) -> BeBuf {
        self.d.extend_from_slice(&v.to_be_bytes());
        self
    }

    fn i32v(mut self, v: i32) -> BeBuf {
        self.d.extend_from_slice(&v.to_be_bytes());
        self
    }

    fn f32v(mut self, v: f32) -> BeBuf {
        self.d.extend_from_slice(&v.to_be_bytes());
        self
    }

    fn f64v(mut self, v: f64) -> BeBuf {
        self.d.extend_from_slice(&v.to_be_bytes());
        self
    }
}

fn assert_values(doc: &LazyIfds, e: &immeta::common::tiff::Entry, t: EntryType, expected: &[TiffValue]) {
    let mut it = e.values(doc, t).unwrap();
    for want in expected {
        let got = it.next(doc).unwrap().unwrap();
        assert_eq!(&got, want);
    }
    assert!(it.next(doc).is_none());
}

#[test]
fn test_big_endian_empty() {
    let data = BeBuf::new().bytes(b"MM").u16(42).u32(0).d;

    let reader = TiffReader::new(data);
    let ifds = reader.ifds().unwrap();
    let mut ifds_iter = ifds.iter();
    assert!(ifds_iter.next(&ifds).is_none());
}

#[test]
fn test_little_endian_empty() {
    let mut data = Vec::new();
    data.extend_from_slice(b"II");
    data.extend_from_slice(&42u16.to_le_bytes());
    data.extend_from_slice(&0u32.to_le_bytes());

    let reader = TiffReader::new(data);
    let ifds = reader.ifds().unwrap();
    let mut ifds_iter = ifds.iter();
    assert!(ifds_iter.next(&ifds).is_none());
}

#[test]
fn test_one_ifd() {
    let data = BeBuf::new()
        .bytes(b"MM").u16(42).u32(8)  // 1st IFD starts from 8th offset
        // first IFD
        .u16(13)
        // first entry, Byte
        .u16(4).u16(1).u32(4).bytes(b"abcd")
        // second entry, Ascii
        .u16(8).u16(2).u32(12).u32(170)
        // third entry, Short
        .u16(15).u16(3).u32(2).u16(23).u16(34)
        // fourth entry, Long
        .u16(16).u16(4).u32(3).u32(182)
        // fifth entry, Rational
        .u16(23).u16(5).u32(2).u32(194)
        // sixth entry, SignedByte
        .u16(42).u16(6).u32(8).u32(210)
        // seventh entry, Undefined
        .u16(4).u16(7).u32(20).u32(218)
        // eighth entry, SignedShort
        .u16(8).u16(8).u32(3).u32(238)
        // ninth entry, SignedLong
        .u16(15).u16(9).u32(1).i32v(-3724)
        // tenth entry, SignedRational
        .u16(16).u16(10).u32(1).u32(244)
        // eleventh entry, Float
        .u16(23).u16(11).u32(1).f32v(0.123)
        // twelvth entry, Double
        .u16(42).u16(12).u32(1).u32(252)
        // thirteenth entry, Unknown
        .u16(4).u16(123).u32(0).u32(0)
        // next IFD offset, zero means no more IFDs
        .u32(0)
        // @170, Ascii, 12 bytes, zero-terminated
        .bytes(b"hello\x00world\x00")
        // @182, Long x3, 12 bytes
        .u32(123).u32(12).u32(5492957)
        // @194, Rational x2, 16 bytes
        .u32(22).u32(7).u32(355).u32(113)
        // @210, SignedByte x8, 8 bytes
        .i8v(-3).i8v(-2).i8v(-1).i8v(0).i8v(1).i8v(2).i8v(3).i8v(4)
        // @218, Undefined x20, 20 bytes
        .bytes("привет мир!".as_bytes())
        // @238, SignedShort x3, 6 bytes
        .i16v(-8).i16v(0).i16v(128)
        // @244, SignedRational x1, 8 bytes
        .i32v(-333).i32v(-106)
        // @252, Double x1, 8 bytes
        .f64v(3.14)
        .d;

    let reader = TiffReader::new(data);

    let doc = reader.ifds().unwrap();
    let mut ifds_iter = doc.iter();
    while let Some(ifd) = ifds_iter.next(&doc) {
        let mut ifd = ifd.unwrap();

        assert_eq!(ifd.len(), 13);
        let mut i = 0usize;
        while let Some(e) = ifd.next(&doc) {
            let e = e.unwrap();

            match i {
                0 => {
                    assert_eq!(e.tag(), 4);
                    assert_eq!(e.entry_type(), EntryType::Byte);
                    assert_eq!(e.count(), 4);
                    assert_eq!(
                        e.all_values(&doc, EntryType::Byte).unwrap().unwrap(),
                        vec![
                            TiffValue::Byte(b'a'),
                            TiffValue::Byte(b'b'),
                            TiffValue::Byte(b'c'),
                            TiffValue::Byte(b'd'),
                        ]
                    );
                    assert_values(
                        &doc,
                        &e,
                        EntryType::Byte,
                        &[
                            TiffValue::Byte(b'a'),
                            TiffValue::Byte(b'b'),
                            TiffValue::Byte(b'c'),
                            TiffValue::Byte(b'd'),
                        ],
                    );
                }
                1 => {
                    assert_eq!(e.tag(), 8);
                    assert_eq!(e.entry_type(), EntryType::Ascii);
                    assert_eq!(e.count(), 12);
                    assert_eq!(
                        e.all_values(&doc, EntryType::Ascii).unwrap().unwrap(),
                        vec![
                            TiffValue::Ascii("hello".to_string()),
                            TiffValue::Ascii("world".to_string()),
                        ]
                    );
                    assert_values(
                        &doc,
                        &e,
                        EntryType::Ascii,
                        &[
                            TiffValue::Ascii("hello".to_string()),
                            TiffValue::Ascii("world".to_string()),
                        ],
                    );
                }
                2 => {
                    assert_eq!(e.tag(), 15);
                    assert_eq!(e.entry_type(), EntryType::Short);
                    assert_eq!(e.count(), 2);
                    assert_eq!(
                        e.all_values(&doc, EntryType::Short).unwrap().unwrap(),
                        vec![TiffValue::Short(23), TiffValue::Short(34)]
                    );
                    assert_values(
                        &doc,
                        &e,
                        EntryType::Short,
                        &[TiffValue::Short(23), TiffValue::Short(34)],
                    );
                }
                3 => {
                    assert_eq!(e.tag(), 16);
                    assert_eq!(e.entry_type(), EntryType::Long);
                    assert_eq!(e.count(), 3);
                    assert_eq!(
                        e.all_values(&doc, EntryType::Long).unwrap().unwrap(),
                        vec![
                            TiffValue::Long(123),
                            TiffValue::Long(12),
                            TiffValue::Long(5492957),
                        ]
                    );
                    assert_values(
                        &doc,
                        &e,
                        EntryType::Long,
                        &[
                            TiffValue::Long(123),
                            TiffValue::Long(12),
                            TiffValue::Long(5492957),
                        ],
                    );
                }
                4 => {
                    assert_eq!(e.tag(), 23);
                    assert_eq!(e.entry_type(), EntryType::Rational);
                    assert_eq!(e.count(), 2);
                    assert_eq!(
                        e.all_values(&doc, EntryType::Rational).unwrap().unwrap(),
                        vec![TiffValue::Rational(22, 7), TiffValue::Rational(355, 113)]
                    );
                    assert_values(
                        &doc,
                        &e,
                        EntryType::Rational,
                        &[TiffValue::Rational(22, 7), TiffValue::Rational(355, 113)],
                    );
                }
                5 => {
                    assert_eq!(e.tag(), 42);
                    assert_eq!(e.entry_type(), EntryType::SignedByte);
                    assert_eq!(e.count(), 8);
                    assert_eq!(
                        e.all_values(&doc, EntryType::SignedByte).unwrap().unwrap(),
                        vec![
                            TiffValue::SignedByte(-3),
                            TiffValue::SignedByte(-2),
                            TiffValue::SignedByte(-1),
                            TiffValue::SignedByte(0),
                            TiffValue::SignedByte(1),
                            TiffValue::SignedByte(2),
                            TiffValue::SignedByte(3),
                            TiffValue::SignedByte(4),
                        ]
                    );
                    assert_values(
                        &doc,
                        &e,
                        EntryType::SignedByte,
                        &[
                            TiffValue::SignedByte(-3),
                            TiffValue::SignedByte(-2),
                            TiffValue::SignedByte(-1),
                            TiffValue::SignedByte(0),
                            TiffValue::SignedByte(1),
                            TiffValue::SignedByte(2),
                            TiffValue::SignedByte(3),
                            TiffValue::SignedByte(4),
                        ],
                    );
                }
                6 => {
                    assert_eq!(e.tag(), 4);
                    assert_eq!(e.entry_type(), EntryType::Undefined);
                    assert_eq!(e.count(), 20);
                    let expected: Vec<TiffValue> = "привет мир!"
                        .bytes()
                        .map(TiffValue::Undefined)
                        .collect();
                    assert_eq!(
                        e.all_values(&doc, EntryType::Undefined).unwrap().unwrap(),
                        expected
                    );
                    assert_values(&doc, &e, EntryType::Undefined, &expected);
                }
                7 => {
                    assert_eq!(e.tag(), 8);
                    assert_eq!(e.entry_type(), EntryType::SignedShort);
                    assert_eq!(e.count(), 3);
                    assert_eq!(
                        e.all_values(&doc, EntryType::SignedShort).unwrap().unwrap(),
                        vec![
                            TiffValue::SignedShort(-8),
                            TiffValue::SignedShort(0),
                            TiffValue::SignedShort(128),
                        ]
                    );
                    assert_values(
                        &doc,
                        &e,
                        EntryType::SignedShort,
                        &[
                            TiffValue::SignedShort(-8),
                            TiffValue::SignedShort(0),
                            TiffValue::SignedShort(128),
                        ],
                    );
                }
                8 => {
                    assert_eq!(e.tag(), 15);
                    assert_eq!(e.entry_type(), EntryType::SignedLong);
                    assert_eq!(e.count(), 1);
                    assert_eq!(
                        e.all_values(&doc, EntryType::SignedLong).unwrap().unwrap(),
                        vec![TiffValue::SignedLong(-3724)]
                    );
                    assert_values(&doc, &e, EntryType::SignedLong, &[TiffValue::SignedLong(-3724)]);
                }
                9 => {
                    assert_eq!(e.tag(), 16);
                    assert_eq!(e.entry_type(), EntryType::SignedRational);
                    assert_eq!(e.count(), 1);
                    assert_eq!(
                        e.all_values(&doc, EntryType::SignedRational).unwrap().unwrap(),
                        vec![TiffValue::SignedRational(-333, -106)]
                    );
                    assert_values(
                        &doc,
                        &e,
                        EntryType::SignedRational,
                        &[TiffValue::SignedRational(-333, -106)],
                    );
                }
                10 => {
                    assert_eq!(e.tag(), 23);
                    assert_eq!(e.entry_type(), EntryType::Float);
                    assert_eq!(e.count(), 1);
                    assert_eq!(
                        e.all_values(&doc, EntryType::Float).unwrap().unwrap(),
                        vec![TiffValue::Float(0.123f32.to_bits())]
                    );
                    assert_values(
                        &doc,
                        &e,
                        EntryType::Float,
                        &[TiffValue::Float(0.123f32.to_bits())],
                    );
                }
                11 => {
                    assert_eq!(e.tag(), 42);
                    assert_eq!(e.entry_type(), EntryType::Double);
                    assert_eq!(e.count(), 1);
                    assert_eq!(
                        e.all_values(&doc, EntryType::Double).unwrap().unwrap(),
                        vec![TiffValue::Double(3.14f64.to_bits())]
                    );
                    assert_values(
                        &doc,
                        &e,
                        EntryType::Double,
                        &[TiffValue::Double(3.14f64.to_bits())],
                    );
                }
                12 => {
                    assert_eq!(e.tag(), 4);
                    assert_eq!(e.entry_type(), EntryType::Unknown(123));
                    assert_eq!(e.count(), 0);
                }
                _ => {
                    panic!("Too many IFD entries");
                }
            }
            i += 1;
        }
    }
}
