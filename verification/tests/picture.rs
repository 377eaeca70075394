use cloud_p2p_images::picture::{frame_of, frame_of_file, readable, FileView, Frame, Image};

fn two_by_one() -> Image {
    Image { dims: (2, 1), data: vec![1, 2, 3, 4, 5, 6, 7, 8] }
}

fn encoded_as(format: image::ImageOutputFormat, width: u32, height: u32, data: Vec<u8>) -> Vec<u8> {
    let mut file = std::io::Cursor::new(Vec::new());
    image::RgbaImage::from_raw(width, height, data)
        .unwrap()
        .write_to(&mut file, format)
        .unwrap();
    file.into_inner()
}

fn encoded(width: u32, height: u32, data: Vec<u8>) -> Vec<u8> {
    encoded_as(image::ImageOutputFormat::Png, width, height, data)
}

fn shown(file: &[u8]) -> Frame {
    match frame_of_file(file) {
        FileView::Shown(frame) => frame,
        other => panic!("{:?}", other),
    }
}

/// A JPEG file that holds no more than one frame header.
fn jpeg_header(marker: u8, precision: u8, height: u16, width: u16) -> Vec<u8> {
    let mut file = vec![0xff, 0xd8, 0xff, marker, 0, 11, precision];
    file.extend(height.to_be_bytes());
    file.extend(width.to_be_bytes());
    file.extend([1, 1, 0x11, 0]);
    file
}

fn chunk(tag: &[u8; 4], data: &[u8]) -> Vec<u8> {
    let mut body = tag.to_vec();
    body.extend_from_slice(data);
    let mut crc: u32 = 0xffff_ffff;
    for byte in &body {
        crc ^= u32::from(*byte);
        for _ in 0..8 {
            crc = if crc & 1 == 1 { (crc >> 1) ^ 0xedb8_8320 } else { crc >> 1 };
        }
    }
    let mut bytes = (data.len() as u32).to_be_bytes().to_vec();
    bytes.extend(body);
    bytes.extend((!crc).to_be_bytes());
    bytes
}

/// A PNG file of one pixel, which has the colour of this index in the palette.
fn indexed(index: u8, before_pixels: &[Vec<u8>]) -> Vec<u8> {
    let mut file = vec![0x89, 0x50, 0x4e, 0x47, 0x0d, 0x0a, 0x1a, 0x0a];
    file.extend(chunk(b"IHDR", &[0, 0, 0, 1, 0, 0, 0, 1, 8, 3, 0, 0, 0]));
    for part in before_pixels {
        file.extend(part);
    }
    let adler: u32 = ((2 + u32::from(index)) << 16) | (1 + u32::from(index));
    let mut stored = vec![0x78, 0x01, 1, 2, 0, 0xfd, 0xff, 0, index];
    stored.extend(adler.to_be_bytes());
    file.extend(chunk(b"IDAT", &stored));
    file.extend(chunk(b"IEND", &[]));
    file
}

#[test]
fn checked_needs_all_pixels() {
    assert_eq!(two_by_one().checked(), Some(two_by_one()));
    assert_eq!(Image { dims: (2, 1), data: vec![0; 7] }.checked(), None);
    assert_eq!(Image { dims: (u32::MAX, u32::MAX), data: vec![0; 16] }.checked(), None);
    let empty = Image { dims: (0, 0), data: vec![] };
    assert_eq!(empty.checked(), Some(Image { dims: (0, 0), data: vec![] }));
}

#[test]
fn checked_keeps_what_follows_the_pixels() {
    let longer = Image { dims: (1, 1), data: vec![1, 2, 3, 4, 5] };
    assert_eq!(longer.checked(), Some(Image { dims: (1, 1), data: vec![1, 2, 3, 4, 5] }));
}

#[test]
fn access_is_the_alpha_of_the_last_pixel() {
    assert_eq!(two_by_one().access(), 8);
    let longer = Image { dims: (1, 2), data: vec![0, 0, 0, 1, 0, 0, 0, 2, 9, 9] };
    assert_eq!(longer.access(), 2);
    let wide = Image { dims: (3, 2), data: (0..24).collect() };
    assert_eq!(wide.access(), 23);
}

#[test]
fn with_access_changes_one_byte() {
    let changed = two_by_one().with_access(200);
    assert_eq!(changed, Image { dims: (2, 1), data: vec![1, 2, 3, 4, 5, 6, 7, 200] });
    assert_eq!(changed.access(), 200);
    let wide = Image { dims: (2, 3), data: vec![7; 26] }.with_access(0);
    let mut expected = vec![7; 26];
    expected[23] = 0;
    assert_eq!(wide, Image { dims: (2, 3), data: expected });
}

#[test]
fn frames_hold_red_green_and_blue() {
    assert_eq!(
        frame_of(&two_by_one()),
        Frame { pixels: vec![0x010203, 0x050607], width: 2, height: 1 }
    );
    let white = Image { dims: (1, 1), data: vec![255, 255, 255, 0] };
    assert_eq!(frame_of(&white).pixels, vec![0x00ff_ffff]);
    let empty = Image { dims: (0, 5), data: vec![] };
    assert_eq!(frame_of(&empty), Frame { pixels: vec![], width: 0, height: 5 });
}

#[test]
fn encoded_pictures_are_shown() {
    let file = encoded(2, 2, vec![10, 20, 30, 255, 1, 1, 1, 255, 0, 0, 0, 255, 255, 254, 253, 255]);
    let frame = shown(&file);
    assert_eq!((frame.width, frame.height), (2, 2));
    assert_eq!(frame.pixels, vec![0x0a141e, 0x010101, 0x000000, 0xfffefd]);
}

#[test]
fn gif_and_bmp_pictures_are_shown() {
    let data = vec![10, 20, 30, 255, 200, 100, 0, 255];
    for format in [image::ImageOutputFormat::Gif, image::ImageOutputFormat::Bmp] {
        let file = encoded_as(format, 2, 1, data.clone());
        assert!(readable(&file));
        assert_eq!(
            shown(&file),
            Frame { pixels: vec![0x0a141e, 0xc86400], width: 2, height: 1 }
        );
    }
}

#[test]
fn jpeg_pictures_are_shown() {
    let data = [90, 90, 90].repeat(16 * 8);
    let mut file = std::io::Cursor::new(Vec::new());
    image::RgbImage::from_raw(16, 8, data)
        .unwrap()
        .write_to(&mut file, image::ImageOutputFormat::Jpeg(100))
        .unwrap();
    let file = file.into_inner();
    assert!(readable(&file));
    let frame = shown(&file);
    assert_eq!((frame.width, frame.height), (16, 8));
    assert_eq!(frame.pixels.len(), 128);
    assert!(frame.pixels.iter().all(|p| (p & 0xff).abs_diff(90) < 4));
    // A file that is cut off is still read, and refused.
    assert!(readable(&file[..file.len() / 4]));
    assert_eq!(frame_of_file(&file[..file.len() / 4]), FileView::NoPicture);
}

#[test]
fn lossless_jpeg_frames_need_eight_bits() {
    assert!(readable(&jpeg_header(0xc3, 8, 1, 1)));
    assert!(!readable(&jpeg_header(0xc3, 7, 1, 1)));
    assert!(!readable(&jpeg_header(0xc3, 12, 1, 1)));
    assert!(!readable(&jpeg_header(0xc3, 16, 1, 1)));
    assert!(readable(&jpeg_header(0xc3, 17, 1, 1)));
    assert!(readable(&jpeg_header(0xc0, 12, 1, 1)));
    assert_eq!(frame_of_file(&jpeg_header(0xc3, 12, 1, 1)), FileView::Unread);
    assert_eq!(frame_of_file(&jpeg_header(0xc3, 17, 1, 1)), FileView::NoPicture);
}

#[test]
fn huge_jpeg_frames_are_not_read() {
    assert!(readable(&jpeg_header(0xc0, 8, 65500, 65500)));
    assert!(!readable(&jpeg_header(0xc0, 8, 65501, 1)));
    assert!(!readable(&jpeg_header(0xc2, 8, 1, 65501)));
    assert!(readable(&jpeg_header(0xc4, 8, 65501, 65501)));
}

#[test]
fn palettes_need_three_bytes_for_each_colour() {
    let two_colours = chunk(b"PLTE", &[9, 9, 9, 1, 2, 3]);
    assert_eq!(
        shown(&indexed(1, &[two_colours])),
        Frame { pixels: vec![0x010203], width: 1, height: 1 }
    );
    let full = [7u8; 768];
    assert_eq!(shown(&indexed(255, &[chunk(b"PLTE", &full)])).pixels, vec![0x070707]);
    let cut = indexed(0, &[chunk(b"PLTE", &[1, 2, 3, 4])]);
    assert!(!readable(&cut));
    assert_eq!(frame_of_file(&cut), FileView::Unread);
    let long = [7u8; 771];
    assert_eq!(frame_of_file(&indexed(0, &[chunk(b"PLTE", &long)])), FileView::Unread);
    assert_eq!(frame_of_file(&indexed(0, &[])), FileView::NoPicture);
}

#[test]
fn wide_png_headers_are_not_read() {
    let header = |width: u32| {
        let mut data = width.to_be_bytes().to_vec();
        data.extend([0, 0, 0, 1, 16, 2, 0, 0, 0]);
        let mut file = vec![0x89, 0x50, 0x4e, 0x47, 0x0d, 0x0a, 0x1a, 0x0a];
        file.extend(chunk(b"IHDR", &data));
        file.extend(chunk(b"tRNS", &[0; 6]));
        file.extend(chunk(b"IDAT", &[0x78, 0x01, 3, 0, 0, 0, 0, 1]));
        file.extend(chunk(b"IEND", &[]));
        file
    };
    assert_eq!(frame_of_file(&header(0x2a00_0000)), FileView::Unread);
    assert_eq!(frame_of_file(&header(0x2000_0000)), FileView::Unread);
    assert_eq!(frame_of_file(&header(0x1fff_ffff)), FileView::NoPicture);
}

#[test]
fn animations_are_shown_by_their_first_picture() {
    let palette = chunk(b"PLTE", &[1, 2, 3]);
    let frames = chunk(b"acTL", &[0, 0, 0, 2, 0, 0, 0, 0]);
    assert_eq!(shown(&indexed(0, &[palette.clone(), frames])).pixels, vec![0x010203]);
    let too_many = chunk(b"acTL", &[0xff, 0xff, 0xff, 0xff, 0, 0, 0, 0]);
    assert_eq!(frame_of_file(&indexed(0, &[palette, too_many])), FileView::Unread);
}

#[test]
fn other_formats_are_not_read() {
    // A TIFF file of one pixel that keeps its three colours apart.
    let tiff: &[u8] = b"II*\x00\x08\x00\x00\x00";
    assert_eq!(frame_of_file(tiff), FileView::Unread);
    assert_eq!(frame_of_file(b"RIFF"), FileView::Unread);
    assert_eq!(frame_of_file(&[]), FileView::Unread);
    assert_eq!(frame_of_file(b"no picture at all"), FileView::Unread);
}

#[test]
fn broken_files_are_no_pictures() {
    let file = encoded(1, 1, vec![1, 2, 3, 4]);
    assert_eq!(file[..8], [0x89, 0x50, 0x4e, 0x47, 0x0d, 0x0a, 0x1a, 0x0a]);
    assert_eq!(frame_of_file(&file[..8]), FileView::NoPicture);
    assert_eq!(frame_of_file(&file[..file.len() / 2]), FileView::NoPicture);
    assert_eq!(shown(&file), Frame { pixels: vec![0x010203], width: 1, height: 1 });
    assert_eq!(frame_of_file(b"BM"), FileView::NoPicture);
    assert_eq!(frame_of_file(b"GIF87a"), FileView::NoPicture);
    assert_eq!(frame_of_file(b"GIF89a and more"), FileView::NoPicture);
    assert_eq!(frame_of_file(b"GIF88a"), FileView::Unread);
    assert_eq!(frame_of_file(&[0xff, 0xd8, 0xff]), FileView::NoPicture);
}
