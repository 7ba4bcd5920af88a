use weekend_tracer::{Format, Image, Resolution, SaveError};

#[test]
fn format_names_round_trip() {
    assert_eq!(Format::parse("png"), Some(Format::Png));
    assert_eq!(Format::parse("ppm"), Some(Format::Ppm));
    assert_eq!(Format::parse("PNG"), None);
    assert_eq!(Format::parse(""), None);
    assert_eq!(Format::parse("pngx"), None);
    assert_eq!(Format::Png.name(), "png");
    assert_eq!(Format::Ppm.name(), "ppm");
}

#[test]
fn resolution_names() {
    assert_eq!(Resolution::parse("480p"), Some(Resolution::P480));
    assert_eq!(Resolution::parse("480"), Some(Resolution::P480));
    assert_eq!(Resolution::parse("720p"), Some(Resolution::P720));
    assert_eq!(Resolution::parse("1080"), Some(Resolution::P1080));
    assert_eq!(Resolution::parse("2160p"), Some(Resolution::P2160));
    assert_eq!(Resolution::parse("4k"), None);
    assert_eq!(Resolution::parse("1080P"), None);
}

#[test]
fn resolution_dimensions() {
    assert_eq!(Resolution::P480.dimensions(), (720, 480));
    assert_eq!(Resolution::P720.dimensions(), (1280, 720));
    assert_eq!(Resolution::P1080.dimensions(), (1920, 1080));
    assert_eq!(Resolution::P2160.dimensions(), (3840, 2160));
}

#[test]
fn new_image_is_empty() {
    let image = Image::new(Resolution::P720, 16);
    assert_eq!(image.width(), 1280);
    assert_eq!(image.height(), 720);
    assert_eq!(image.sampling(), 16);
    assert!(image.buffer().is_empty());
}

#[test]
fn file_names() {
    let image = Image::new(Resolution::P480, 64);
    assert_eq!(image.file_name(Format::Png), "480p@64.png");
    assert_eq!(image.file_name(Format::Ppm), "480p@64.ppm");
    let image = Image::new(Resolution::P2160, 1024);
    assert_eq!(image.file_name(Format::Png), "2160p@1024.png");
    let image = Image::new(Resolution::P1080, 0);
    assert_eq!(image.file_name(Format::Ppm), "1080p@0.ppm");
}

#[test]
fn pixel_order_goes_from_top_row_down() {
    let image = Image::new(Resolution::P480, 1);
    let order = image.pixel_order();
    assert_eq!(order.len(), 720 * 480);
    assert_eq!(order[0], (0, 479));
    assert_eq!(order[1], (1, 479));
    assert_eq!(order[719], (719, 479));
    assert_eq!(order[720], (0, 478));
    assert_eq!(order[720 * 480 - 1], (719, 0));
}

#[test]
fn append_keeps_order() {
    let mut image = Image::new(Resolution::P480, 1);
    image.append_pixels(&vec![1, 2, 3]);
    image.append_pixels(&vec![4, 5, 6, 7, 8, 9]);
    assert_eq!(image.buffer(), &vec![1, 2, 3, 4, 5, 6, 7, 8, 9]);
}

#[test]
fn ppm_of_empty_frame_is_header_only() {
    let image = Image::new(Resolution::P480, 1);
    assert_eq!(image.ppm(), "P3\n720 480\n255\n");
}

#[test]
fn ppm_lists_one_pixel_per_line() {
    let mut image = Image::new(Resolution::P720, 1);
    image.append_pixels(&vec![0, 128, 255, 7, 10, 99]);
    assert_eq!(image.ppm(), "P3\n1280 720\n255\n0 128 255\n7 10 99\n");
}

#[test]
fn png_of_incomplete_frame_is_refused() {
    let mut image = Image::new(Resolution::P480, 1);
    image.append_pixels(&vec![1, 2, 3]);
    match image.png() {
        Err(SaveError::Incomplete { expected, actual }) => {
            assert_eq!(expected, 720 * 480 * 3);
            assert_eq!(actual, 3);
        }
        other => panic!("unexpected result {:?}", other.map(|b| b.len())),
    }
}

#[test]
fn png_of_complete_frame() {
    let mut image = Image::new(Resolution::P480, 1);
    let rgb: Vec<u8> = (0..720 * 480 * 3).map(|k| (k % 251) as u8).collect();
    image.append_pixels(&rgb);
    let bytes = image.png().expect("a complete frame encodes");
    assert_eq!(&bytes[..8], &[137, 80, 78, 71, 13, 10, 26, 10]);
    assert_ne!(bytes, rgb);
    // IHDR chunk: width and height, big-endian.
    assert_eq!(&bytes[12..16], b"IHDR");
    assert_eq!(&bytes[16..20], &720u32.to_be_bytes());
    assert_eq!(&bytes[20..24], &480u32.to_be_bytes());
    assert_eq!(bytes[24], 8);
    assert_eq!(bytes[25], 2);
    assert_eq!(&bytes[bytes.len() - 8..bytes.len() - 4], b"IEND");
}
