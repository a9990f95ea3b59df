use immeta::formats::{gif, png};
use immeta::markers::{Gif, Jpeg, Png};
use immeta::Dimensions;

const OWLET_DIM: Dimensions = Dimensions { width: 1280, height: 857 };

const DROP_DIM: Dimensions = Dimensions { width: 238, height: 212 };

/// A minimal JPEG stream with the metadata of the owlet sample: SOI, one
/// application marker, then a baseline frame header for 1280 x 857.
fn owlet_jpeg() -> Vec<u8> {
    let mut d = Vec::new();
    d.extend_from_slice(&[0xff, 0xd8]);
    d.extend_from_slice(&[0xff, 0xe0, 0x00, 0x06, 1, 2, 3, 4]);
    d.extend_from_slice(&[0xff, 0xc0, 0x00, 0x0b, 8]);
    d.extend_from_slice(&857u16.to_be_bytes());
    d.extend_from_slice(&1280u16.to_be_bytes());
    d.extend_from_slice(&[1, 0x11, 0x00, 0x3f]);
    d
}

/// A minimal PNG stream with the metadata of the owlet sample: the
/// signature and an IHDR chunk for 1280 x 857, RGB, depth 8.
fn owlet_png() -> Vec<u8> {
    let mut d = Vec::new();
    d.extend_from_slice(b"\x89PNG\r\n\x1a\n");
    d.extend_from_slice(&13u32.to_be_bytes());
    d.extend_from_slice(b"IHDR");
    d.extend_from_slice(&1280u32.to_be_bytes());
    d.extend_from_slice(&857u32.to_be_bytes());
    d.extend_from_slice(&[8, 2, 0, 0, 0]);
    d
}

/// A minimal GIF89a stream with the metadata of the owlet sample: a
/// 256-color global color table, one graphic control extension, one
/// application extension and one image descriptor of 1280 x 857.
fn owlet_gif() -> Vec<u8> {
    let mut d = Vec::new();
    d.extend_from_slice(b"GIF89a");
    d.extend_from_slice(&1280u16.to_le_bytes());
    d.extend_from_slice(&857u16.to_le_bytes());
    d.push(0xf7);
    d.push(0);
    d.push(0);
    d.extend_from_slice(&[0u8; 768]);
    // graphic control extension, no delay, no transparency
    d.extend_from_slice(&[0x21, 0xf9, 0x04, 0x00, 0x00, 0x00, 0x00, 0x00]);
    // application extension
    d.extend_from_slice(&[0x21, 0xff, 0x0b]);
    d.extend_from_slice(b"ImageMag");
    d.extend_from_slice(b"ick");
    d.push(0x00);
    // image descriptor
    d.push(0x2c);
    d.extend_from_slice(&0u16.to_le_bytes());
    d.extend_from_slice(&0u16.to_le_bytes());
    d.extend_from_slice(&1280u16.to_le_bytes());
    d.extend_from_slice(&857u16.to_le_bytes());
    d.push(0x00);
    d.push(0x08);
    d.push(0x00);
    d.push(0x3b);
    d
}

/// A minimal animated GIF89a stream with the metadata of the drop sample:
/// a 256-color global color table, an application extension, a comment,
/// and 30 frames each led by a graphic control extension.
fn drop_gif() -> Vec<u8> {
    let mut d = Vec::new();
    d.extend_from_slice(b"GIF89a");
    d.extend_from_slice(&238u16.to_le_bytes());
    d.extend_from_slice(&212u16.to_le_bytes());
    d.push(0xe7);
    d.push(255);
    d.push(0);
    d.extend_from_slice(&[0u8; 768]);
    // application extension with a looping data sub-block
    d.extend_from_slice(&[0x21, 0xff, 0x0b]);
    d.extend_from_slice(b"NETSCAPE");
    d.extend_from_slice(b"2.0");
    d.extend_from_slice(&[0x03, 0x01, 0x00, 0x00]);
    d.push(0x00);
    // comment extension
    d.extend_from_slice(&[0x21, 0xfe, 0x05]);
    d.extend_from_slice(b"hello");
    d.push(0x00);
    for i in 0..30u8 {
        // graphic control extension: delay 7, transparent color 255
        let packed = if i == 29 { 0x01 } else { 0x05 };
        d.extend_from_slice(&[0x21, 0xf9, 0x04, packed]);
        d.extend_from_slice(&7u16.to_le_bytes());
        d.push(255);
        d.push(0x00);
        // image descriptor
        d.push(0x2c);
        d.extend_from_slice(&0u16.to_le_bytes());
        d.extend_from_slice(&0u16.to_le_bytes());
        d.extend_from_slice(&238u16.to_le_bytes());
        d.extend_from_slice(&212u16.to_le_bytes());
        d.push(0x00);
        d.push(0x02);
        d.push(0x00);
    }
    d.push(0x3b);
    d
}

#[test]
fn test_jpeg() {
    let md = immeta::load_from_buf(&owlet_jpeg()).unwrap();

    assert_eq!(md.mime_type(), "image/jpeg");
    assert_eq!(md.dimensions(), OWLET_DIM);

    let md = md.into::<Jpeg>().ok().expect("not JPEG metadata");
    assert_eq!(md.dimensions, OWLET_DIM);
}

#[test]
fn test_png() {
    let md = immeta::load_from_buf(&owlet_png()).unwrap();

    assert_eq!(md.mime_type(), "image/png");
    assert_eq!(md.dimensions(), OWLET_DIM);

    let md = md.into::<Png>().ok().expect("not PNG metadata");
    assert_eq!(md.dimensions, OWLET_DIM);
    assert_eq!(md.color_type, png::ColorType::Rgb);
    assert_eq!(md.color_depth, 24);
    assert_eq!(md.compression_method, png::CompressionMethod::DeflateInflate);
    assert_eq!(md.filter_method, png::FilterMethod::AdaptiveFiltering);
    assert_eq!(md.interlace_method, png::InterlaceMethod::Disabled);
}

#[test]
fn test_gif_plain() {
    let md = immeta::load_from_buf(&owlet_gif()).unwrap();

    assert_eq!(md.mime_type(), "image/gif");
    assert_eq!(md.dimensions(), OWLET_DIM);

    let md = md.into::<Gif>().ok().expect("not GIF metadata");
    assert_eq!(md.version, gif::Version::V89a);
    assert_eq!(md.dimensions, OWLET_DIM);
    assert_eq!(
        md.global_color_table,
        Some(gif::ColorTable { size: 256, sorted: false })
    );
    assert_eq!(md.color_resolution, 256);
    assert_eq!(md.background_color_index, 0);
    assert_eq!(md.pixel_aspect_ratio, 0);
    assert_eq!(md.frames_number(), 1);
    assert_eq!(md.is_animated(), false);
    assert_eq!(
        md.blocks,
        vec![
            gif::Block::GraphicControlExtension(gif::GraphicControlExtension {
                disposal_method: gif::DisposalMethod::NoDisposal,
                user_input: false,
                transparent_color_index: None,
                delay_time: 0,
            }),
            gif::Block::ApplicationExtension(gif::ApplicationExtension {
                application_identifier: *b"ImageMag",
                authentication_code: *b"ick",
            }),
            gif::Block::ImageDescriptor(gif::ImageDescriptor {
                left: 0,
                top: 0,
                width: 1280,
                height: 857,
                local_color_table: None,
                interlace: false,
            }),
        ]
    )
}

#[test]
fn test_gif_animated() {
    let md = immeta::load_from_buf(&drop_gif()).unwrap();

    assert_eq!(md.mime_type(), "image/gif");
    assert_eq!(md.dimensions(), DROP_DIM);

    let md = md.into::<Gif>().ok().expect("not GIF metadata");
    assert_eq!(md.version, gif::Version::V89a);
    assert_eq!(md.dimensions, DROP_DIM);
    assert_eq!(
        md.global_color_table,
        Some(gif::ColorTable { size: 256, sorted: false })
    );
    assert_eq!(md.color_resolution, 128);
    assert_eq!(md.background_color_index, 255);
    assert_eq!(md.pixel_aspect_ratio, 0);
    assert_eq!(md.frames_number(), 30);
    assert_eq!(md.is_animated(), true);

    let mut blocks = md.blocks.iter();

    assert_eq!(
        blocks.next().unwrap(),
        &gif::Block::ApplicationExtension(gif::ApplicationExtension {
            application_identifier: *b"NETSCAPE",
            authentication_code: *b"2.0",
        })
    );

    assert_eq!(
        blocks.next().unwrap(),
        &gif::Block::CommentExtension(gif::CommentExtension)
    );

    for i in 0..30 {
        match blocks.next() {
            Some(&gif::Block::GraphicControlExtension(ref gce)) => {
                assert_eq!(
                    gce,
                    &gif::GraphicControlExtension {
                        disposal_method: if i == 29 {
                            gif::DisposalMethod::NoDisposal
                        } else {
                            gif::DisposalMethod::DoNotDispose
                        },
                        user_input: false,
                        transparent_color_index: Some(255),
                        delay_time: 7,
                    }
                );
                assert_eq!(gce.delay_time_ms(), 70);
            }
            _ => panic!("Invalid block"),
        }

        assert_eq!(
            blocks.next().unwrap(),
            &gif::Block::ImageDescriptor(gif::ImageDescriptor {
                left: 0,
                top: 0,
                width: 238,
                height: 212,
                local_color_table: None,
                interlace: false,
            })
        );
    }

    assert!(blocks.next().is_none());
}
