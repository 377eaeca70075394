//! Pictures, and the number of views that a shared one still allows.

use vstd::prelude::*;

verus! {

/// A picture with four bytes for each pixel, red, green, blue and alpha, row
/// by row from the top left.
#[derive(Debug, PartialEq, Eq)]
pub struct Image {
    pub dims: (u32, u32),
    pub data: Vec<u8>,
}

impl Image {
    /// The number of bytes that the pixels take.
    pub open spec fn byte_count(dims: (u32, u32)) -> int {
        4 * dims.0 * dims.1
    }

    /// Whether the data holds all pixels. What follows them is ignored.
    pub open spec fn fits(&self) -> bool {
        4 * self.dims.0 <= usize::MAX && Image::byte_count(self.dims) <= self.data@.len()
    }

    /// Whether the data holds all pixels and there is at least one.
    pub open spec fn has_pixels(&self) -> bool {
        self.fits() && self.dims.0 > 0 && self.dims.1 > 0
    }

    /// Whether both have the same size and hold the same bytes.
    pub open spec fn same(&self, other: &Image) -> bool {
        self.dims == other.dims && self.data@ == other.data@
    }

    /// The number of views left: the alpha value of the last pixel.
    pub open spec fn access_spec(&self) -> u8 {
        self.data@[Image::byte_count(self.dims) - 1]
    }
}

/// The position of the first byte of the pixel at column `x` and row `y`.
pub open spec fn pixel_start(dims: (u32, u32), x: u32, y: u32) -> int {
    4 * (y * dims.0 + x)
}

/// `image::ImageBuffer::from_raw` for RGBA pixels of one byte per channel: it
/// gives the picture back, with its size and bytes as they were, exactly if
/// the bytes suffice for all pixels.
#[verifier::external_body]
fn from_raw(image: Image) -> (checked: Option<Image>)
    ensures
        checked is Some <==> image.fits(),
        checked matches Some(c) ==> c.same(&image),
{
    let buffer = image::RgbaImage::from_raw(image.dims.0, image.dims.1, image.data)?;
    Some(Image { dims: buffer.dimensions(), data: buffer.into_raw() })
}

/// `image::ImageBuffer::get_pixel`: the four bytes of one pixel.
#[verifier::external_body]
fn get_pixel(image: &Image, x: u32, y: u32) -> (pixel: [u8; 4])
    requires
        image.fits(),
        x < image.dims.0,
        y < image.dims.1,
    ensures
        pixel@ == image.data@.subrange(
            pixel_start(image.dims, x, y),
            pixel_start(image.dims, x, y) + 4,
        ),
{
    let (width, height) = image.dims;
    let buffer: image::ImageBuffer<image::Rgba<u8>, &[u8]> =
        image::ImageBuffer::from_raw(width, height, image.data.as_slice()).unwrap();
    buffer.get_pixel(x, y).0
}

/// `image::ImageBuffer::get_pixel_mut`: one byte of one pixel is overwritten,
/// and nothing else changes.
#[verifier::external_body]
fn set_channel(image: Image, x: u32, y: u32, channel: usize, value: u8) -> (changed: Image)
    requires
        image.fits(),
        x < image.dims.0,
        y < image.dims.1,
        channel < 4,
    ensures
        changed.dims == image.dims,
        changed.data@ == image.data@.update(pixel_start(image.dims, x, y) + channel, value),
{
    let (width, height) = image.dims;
    let mut buffer = image::RgbaImage::from_raw(width, height, image.data).unwrap();
    buffer.get_pixel_mut(x, y)[channel] = value;
    Image { dims: buffer.dimensions(), data: buffer.into_raw() }
}

// ---------------------------------------------------------------------------
// Encoded pictures
// ---------------------------------------------------------------------------

/// Whether a file begins with these bytes.
pub open spec fn starts_with(file: Seq<u8>, signature: Seq<u8>) -> bool {
    file.len() >= signature.len() && file.take(signature.len() as int) == signature
}

/// Whether a file begins as every PNG file does.
pub open spec fn is_png(file: Seq<u8>) -> bool {
    starts_with(file, seq![0x89u8, 0x50, 0x4e, 0x47, 0x0d, 0x0a, 0x1a, 0x0a])
}

/// Whether a file begins as every GIF file does: with `GIF87a` or `GIF89a`.
pub open spec fn is_gif(file: Seq<u8>) -> bool {
    starts_with(file, seq![0x47u8, 0x49, 0x46, 0x38, 0x37, 0x61]) || starts_with(
        file,
        seq![0x47u8, 0x49, 0x46, 0x38, 0x39, 0x61],
    )
}

/// Whether a file begins as every BMP file does: with `BM`.
pub open spec fn is_bmp(file: Seq<u8>) -> bool {
    starts_with(file, seq![0x42u8, 0x4d])
}

/// Whether a file begins as every JPEG file does.
pub open spec fn is_jpeg(file: Seq<u8>) -> bool {
    starts_with(file, seq![0xffu8, 0xd8, 0xff])
}

/// The largest side of a JPEG picture that is decoded here.
pub const MAX_SIDE: u16 = 65500;

/// Whether the bytes at position `i` are safe to read as a JPEG frame header,
/// if they look like one. A lossless frame, which has the marker 0xc3, must
/// have eight bits for each sample, or so many that it is refused. Neither side
/// may be over `MAX_SIDE`. A header that is cut off is refused in any case.
pub open spec fn safe_frame(file: Seq<u8>, i: int) -> bool {
    file[i] == 0xff && 0xc0 <= file[i + 1] <= 0xc3 && i + 8 < file.len() ==> {
        &&& file[i + 1] == 0xc3 ==> file[i + 4] == 8 || file[i + 4] > 16
        &&& 256 * file[i + 5] + file[i + 6] <= MAX_SIDE
        &&& 256 * file[i + 7] + file[i + 8] <= MAX_SIDE
    }
}

/// Whether everything in a file that looks like a JPEG frame header is safe to
/// read as one.
pub open spec fn safe_frames(file: Seq<u8>) -> bool {
    forall|i: int| 0 <= i < file.len() - 1 ==> #[trigger] safe_frame(file, i)
}

/// Whether the four bytes at position `i` are this tag.
pub open spec fn has_tag(file: Seq<u8>, i: int, tag: Seq<u8>) -> bool {
    i + 4 <= file.len() && file.subrange(i, i + 4) == tag
}

/// The tag `IHDR`, of a PNG header.
pub open spec fn header_tag() -> Seq<u8> {
    seq![0x49u8, 0x48, 0x44, 0x52]
}

/// The tag `PLTE`, of a PNG palette.
pub open spec fn palette_tag() -> Seq<u8> {
    seq![0x50u8, 0x4c, 0x54, 0x45]
}

/// The tag `acTL`, of the number of frames in a PNG animation.
pub open spec fn animation_tag() -> Seq<u8> {
    seq![0x61u8, 0x63, 0x54, 0x4c]
}

/// Whether the bytes at position `i` are safe to read as the tag of a PNG
/// chunk, if they look like one. The width of the picture, which stands behind
/// the tag of a header, must be below 2^29: then a row fits in 32 bits, however
/// many bytes a pixel has. A palette, whose length stands before its tag, must
/// have three bytes for each of at most 256 colours. A number of frames, which
/// stands behind its tag, must be below 2^31.
pub open spec fn safe_chunk(file: Seq<u8>, i: int) -> bool {
    &&& has_tag(file, i, header_tag()) && i + 4 < file.len() ==> file[i + 4] < 0x20
    &&& has_tag(file, i, palette_tag()) && i >= 4 ==> {
        &&& file[i - 4] == 0 && file[i - 3] == 0
        &&& 256 * file[i - 2] + file[i - 1] <= 768
        &&& (256 * file[i - 2] + file[i - 1]) % 3 == 0
    }
    &&& has_tag(file, i, animation_tag()) && i + 4 < file.len() ==> file[i + 4] < 0x80
}

/// Whether everything in a file that looks like the tag of a PNG chunk is safe
/// to read as one.
pub open spec fn safe_chunks(file: Seq<u8>) -> bool {
    forall|i: int| 0 <= i < file.len() ==> #[trigger] safe_chunk(file, i)
}

/// Whether the format of a file is one that is decoded with integers alone, so
/// that the file fixes every byte of its picture.
pub open spec fn is_exact(file: Seq<u8>) -> bool {
    is_png(file) || is_gif(file) || is_bmp(file)
}

/// Whether a file is handed to the decoder: a PNG file whose chunks are safe, a
/// GIF or BMP file, or a JPEG file whose frame headers are safe. The decoders
/// of other formats, that of PNG on other chunks and that of JPEG on other
/// frames can panic on files whose parts contradict each other.
pub open spec fn is_readable(file: Seq<u8>) -> bool {
    ||| is_png(file) && safe_chunks(file)
    ||| is_gif(file)
    ||| is_bmp(file)
    ||| is_jpeg(file) && safe_frames(file)
}

/// The size and the bytes of the picture that `image::load_from_memory` makes
/// of a file, as `to_rgba8` gives them, if it can be decoded. The decoder of
/// JPEG files picks one of several kinds of arithmetic by the processor it runs
/// on. They are numbered here; number 0 is the one that every processor has.
pub uninterp spec fn decoded_on(file: Seq<u8>, arithmetic: nat) -> Option<((u32, u32), Seq<u8>)>;

/// The size and the bytes of the picture that a file holds, if it can be
/// decoded, as every processor can decode it.
pub open spec fn decoded_file(file: Seq<u8>) -> Option<((u32, u32), Seq<u8>)> {
    decoded_on(file, 0)
}

/// The size and the bytes of a picture, if there is one.
pub open spec fn content(image: Option<Image>) -> Option<((u32, u32), Seq<u8>)> {
    match image {
        Some(i) => Some((i.dims, i.data@)),
        None => None,
    }
}

/// `image::load_from_memory` and `image::DynamicImage::to_rgba8`: the picture
/// that an encoded file holds, if it can be decoded, with as many bytes as its
/// pixels take. It is what one kind of arithmetic makes of the file. The file
/// alone says whether there is a picture and which size it has; for a PNG, GIF
/// or BMP file it also fixes the bytes. Which kind of arithmetic a JPEG file is
/// decoded with rests on the processor, and is left open.
#[verifier::external_body]
fn decode(file: &[u8]) -> (decoded: Option<Image>)
    requires
        is_readable(file@),
    ensures
        decoded matches Some(d) ==> d.fits() && d.data@.len() == Image::byte_count(d.dims),
        exists|arithmetic: nat| content(decoded) == #[trigger] decoded_on(file@, arithmetic),
        decoded is Some <==> decoded_file(file@) is Some,
        decoded matches Some(d) ==> d.dims == (decoded_file(file@)->0).0,
        is_exact(file@) ==> content(decoded) == decoded_file(file@),
{
    let buffer = image::load_from_memory(file).ok()?.to_rgba8();
    Some(Image { dims: buffer.dimensions(), data: buffer.into_raw() })
}

/// Whether a file begins with these bytes.
fn begins_with(file: &[u8], signature: &[u8]) -> (begins: bool)
    ensures
        begins == starts_with(file@, signature@),
{
    if file.len() < signature.len() {
        return false;
    }
    let mut i: usize = 0;
    while i < signature.len()
        invariant
            i <= signature@.len() <= file@.len(),
            forall|j: int| 0 <= j < i ==> file@[j] == signature@[j],
        decreases signature@.len() - i,
    {
        if file[i] != signature[i] {
            proof {
                assert(file@.take(signature@.len() as int)[i as int] != signature@[i as int]);
            }
            return false;
        }
        i = i + 1;
    }
    proof {
        assert(file@.take(signature@.len() as int) == signature@);
    }
    true
}

/// Whether everything in a file that looks like a JPEG frame header is safe to
/// read as one.
fn frames_are_safe(file: &[u8]) -> (safe: bool)
    ensures
        safe == safe_frames(file@),
{
    let len = file.len();
    if len < 9 {
        proof {
            assert forall|i: int| 0 <= i < file@.len() - 1 implies #[trigger] safe_frame(
                file@,
                i,
            ) by {}
        }
        return true;
    }
    let mut i: usize = 0;
    while i < len - 8
        invariant
            len == file@.len(),
            9 <= len,
            i <= len - 8,
            forall|j: int| 0 <= j < i ==> #[trigger] safe_frame(file@, j),
        decreases len - i,
    {
        let marker: u8 = file[i + 1];
        if file[i] == 0xff && 0xc0 <= marker && marker <= 0xc3 {
            let precision: u8 = file[i + 4];
            let height: u32 = 256 * file[i + 5] as u32 + file[i + 6] as u32;
            let width: u32 = 256 * file[i + 7] as u32 + file[i + 8] as u32;
            let wide_samples = marker == 0xc3 && precision != 8 && precision <= 16;
            if wide_samples || height > MAX_SIDE as u32 || width > MAX_SIDE as u32 {
                proof {
                    assert(!safe_frame(file@, i as int));
                }
                return false;
            }
        }
        proof {
            assert(safe_frame(file@, i as int));
        }
        i = i + 1;
    }
    true
}

/// Whether the four bytes at position `i` are this tag.
fn tag_at(file: &[u8], i: usize, tag: &[u8; 4]) -> (found: bool)
    requires
        i + 4 <= file@.len(),
    ensures
        found == has_tag(file@, i as int, tag@),
{
    let found = file[i] == tag[0] && file[i + 1] == tag[1] && file[i + 2] == tag[2] && file[i + 3]
        == tag[3];
    proof {
        let bytes = file@.subrange(i as int, i + 4);
        assert(bytes[0] == file@[i as int] && bytes[1] == file@[i + 1]);
        assert(bytes[2] == file@[i + 2] && bytes[3] == file@[i + 3]);
        if found {
            assert(bytes == tag@);
        }
    }
    found
}

/// Whether everything in a file that looks like the tag of a PNG chunk is safe
/// to read as one.
fn chunks_are_safe(file: &[u8]) -> (safe: bool)
    ensures
        safe == safe_chunks(file@),
{
    let header: [u8; 4] = [0x49, 0x48, 0x44, 0x52];
    let palette: [u8; 4] = [0x50, 0x4c, 0x54, 0x45];
    let animation: [u8; 4] = [0x61, 0x63, 0x54, 0x4c];
    proof {
        assert(header@ == header_tag());
        assert(palette@ == palette_tag());
        assert(animation@ == animation_tag());
    }
    let len = file.len();
    let mut i: usize = 0;
    while i < len
        invariant
            len == file@.len(),
            i <= len,
            header@ == header_tag(),
            palette@ == palette_tag(),
            animation@ == animation_tag(),
            forall|j: int| 0 <= j < i ==> #[trigger] safe_chunk(file@, j),
        decreases len - i,
    {
        let mut safe = true;
        if len - i >= 4 {
            if i >= 4 && tag_at(file, i, &palette) {
                let size: u32 = 256 * file[i - 2] as u32 + file[i - 1] as u32;
                safe = file[i - 4] == 0 && file[i - 3] == 0 && size <= 768 && size % 3 == 0;
            }
            if len - i > 4 {
                let next: u8 = file[i + 4];
                if (next >= 0x20 && tag_at(file, i, &header)) || (next >= 0x80 && tag_at(
                    file,
                    i,
                    &animation,
                )) {
                    safe = false;
                }
            }
        }
        proof {
            assert(safe == safe_chunk(file@, i as int));
        }
        if !safe {
            return false;
        }
        i = i + 1;
    }
    true
}

/// Whether a file can be handed to the decoder.
pub fn readable(file: &[u8]) -> (readable: bool)
    ensures
        readable == is_readable(file@),
{
    let png: [u8; 8] = [0x89, 0x50, 0x4e, 0x47, 0x0d, 0x0a, 0x1a, 0x0a];
    let gif87: [u8; 6] = [0x47, 0x49, 0x46, 0x38, 0x37, 0x61];
    let gif89: [u8; 6] = [0x47, 0x49, 0x46, 0x38, 0x39, 0x61];
    let bmp: [u8; 2] = [0x42, 0x4d];
    let jpeg: [u8; 3] = [0xff, 0xd8, 0xff];
    proof {
        assert(png@ == seq![0x89u8, 0x50, 0x4e, 0x47, 0x0d, 0x0a, 0x1a, 0x0a]);
        assert(gif87@ == seq![0x47u8, 0x49, 0x46, 0x38, 0x37, 0x61]);
        assert(gif89@ == seq![0x47u8, 0x49, 0x46, 0x38, 0x39, 0x61]);
        assert(bmp@ == seq![0x42u8, 0x4d]);
        assert(jpeg@ == seq![0xffu8, 0xd8, 0xff]);
    }
    let gif = begins_with(file, gif87.as_slice()) || begins_with(file, gif89.as_slice());
    (begins_with(file, png.as_slice()) && chunks_are_safe(file)) || gif || begins_with(
        file,
        bmp.as_slice(),
    ) || (begins_with(file, jpeg.as_slice()) && frames_are_safe(file))
}

/// The last pixel ends where the pixels end.
proof fn lemma_last_pixel(image: &Image)
    requires
        image.has_pixels(),
    ensures
        pixel_start(image.dims, (image.dims.0 - 1) as u32, (image.dims.1 - 1) as u32) + 4
            == Image::byte_count(image.dims),
        4 <= Image::byte_count(image.dims) <= image.data@.len(),
{
    let w = image.dims.0 as int;
    let h = image.dims.1 as int;
    assert(4 * ((h - 1) * w + (w - 1)) + 4 == 4 * w * h) by (nonlinear_arith);
    assert(4 * w * h >= 4) by (nonlinear_arith)
        requires
            w > 0,
            h > 0,
    ;
}

impl Image {
    /// The picture itself, if its data holds all pixels.
    pub fn checked(self) -> (checked: Option<Image>)
        ensures
            checked is Some <==> self.fits(),
            checked matches Some(c) ==> c.same(&self),
    {
        from_raw(self)
    }

    /// The number of views left.
    pub fn access(&self) -> (left: u8)
        requires
            self.has_pixels(),
        ensures
            left == self.access_spec(),
    {
        proof {
            lemma_last_pixel(self);
        }
        let pixel = get_pixel(self, self.dims.0 - 1, self.dims.1 - 1);
        proof {
            assert(pixel@[3] == self.access_spec());
        }
        pixel[3]
    }

    /// The picture with `left` views.
    pub fn with_access(self, left: u8) -> (changed: Image)
        requires
            self.has_pixels(),
        ensures
            changed.has_pixels(),
            changed.dims == self.dims,
            changed.data@ == self.data@.update(Image::byte_count(self.dims) - 1, left),
            changed.access_spec() == left,
    {
        proof {
            lemma_last_pixel(&self);
        }
        let (width, height) = self.dims;
        set_channel(self, width - 1, height - 1, 3, left)
    }
}

/// What the viewer shows: one number for each pixel, row by row.
#[derive(Debug, PartialEq, Eq)]
pub struct Frame {
    pub pixels: Vec<u32>,
    pub width: usize,
    pub height: usize,
}

impl Frame {
    /// Whether this shows the picture of this size with these bytes: each
    /// pixel is its red, green and blue, one byte each, from the highest.
    pub open spec fn shows_bytes(&self, dims: (u32, u32), data: Seq<u8>) -> bool {
        &&& self.width == dims.0
        &&& self.height == dims.1
        &&& self.pixels@.len() == dims.0 * dims.1
        &&& forall|k: int|
            0 <= k < self.pixels@.len() ==> #[trigger] self.pixels@[k] == 65536 * data[4 * k] + 256
                * data[4 * k + 1] + data[4 * k + 2]
    }

    /// Whether this shows the picture.
    pub open spec fn shows(&self, image: &Image) -> bool {
        self.shows_bytes(image.dims, image.data@)
    }

    /// Whether this shows what some kind of arithmetic makes of a file: a
    /// picture with as many bytes as its pixels take.
    pub open spec fn shows_file(&self, file: Seq<u8>) -> bool {
        exists|arithmetic: nat| #[trigger]
            decoded_on(file, arithmetic) matches Some(n) && self.shows_bytes(n.0, n.1)
                && n.1.len() == Image::byte_count(n.0)
    }
}

/// One pixel as a number.
fn pack(r: u8, g: u8, b: u8) -> (n: u32)
    ensures
        n == 65536 * r + 256 * g + b,
{
    let red = r as u32;
    let green = g as u32;
    let blue = b as u32;
    assert((red << 16) | (green << 8) | blue == 65536 * red + 256 * green + blue) by (bit_vector)
        requires
            red <= 255,
            green <= 255,
            blue <= 255,
    ;
    (red << 16) | (green << 8) | blue
}

/// The frame that shows a picture.
pub fn frame_of(image: &Image) -> (frame: Frame)
    requires
        image.fits(),
    ensures
        frame.shows(image),
{
    let mut pixels: Vec<u32> = Vec::new();
    let available = image.data.len();
    let ghost count = image.dims.0 * image.dims.1;
    proof {
        assert(4 * image.dims.0 * image.dims.1 == 4 * count) by (nonlinear_arith)
            requires
                count == image.dims.0 * image.dims.1,
        ;
        assert(0 <= count) by (nonlinear_arith)
            requires
                count == image.dims.0 * image.dims.1,
        ;
        assert(count <= 0xffff_ffff * 0xffff_ffff) by (nonlinear_arith)
            requires
                count == image.dims.0 * image.dims.1,
                image.dims.0 <= 0xffff_ffff,
                image.dims.1 <= 0xffff_ffff,
        ;
    }
    let total: u64 = image.dims.0 as u64 * image.dims.1 as u64;
    let total = total as usize;
    let mut k: usize = 0;
    while k < total
        invariant
            k <= total,
            total == count,
            available == image.data@.len(),
            4 * count <= available,
            pixels@.len() == k,
            forall|j: int|
                0 <= j < k ==> #[trigger] pixels@[j] == 65536 * image.data@[4 * j] + 256
                    * image.data@[4 * j + 1] + image.data@[4 * j + 2],
        decreases total - k,
    {
        pixels.push(pack(image.data[4 * k], image.data[4 * k + 1], image.data[4 * k + 2]));
        k = k + 1;
    }
    Frame { pixels, width: image.dims.0 as usize, height: image.dims.1 as usize }
}

/// What an encoded file shows.
#[derive(Debug, PartialEq, Eq)]
pub enum FileView {
    Shown(Frame),
    /// The file cannot be decoded.
    NoPicture,
    /// The file is not one that is decoded here.
    Unread,
}

/// What an encoded file shows. A readable file is shown exactly if it can be
/// decoded, in the size that the file gives. For a PNG, GIF or BMP file the
/// frame shows what the file holds; for a JPEG file, what the arithmetic of the
/// processor makes of it.
pub fn frame_of_file(file: &[u8]) -> (view: FileView)
    ensures
        view is Unread <==> !is_readable(file@),
        is_readable(file@) ==> match decoded_file(file@) {
            Some(n) => view matches FileView::Shown(f) && f.shows_file(file@) && f.width == n.0.0
                && f.height == n.0.1,
            None => view is NoPicture,
        },
        is_readable(file@) && is_exact(file@) ==> (decoded_file(file@) matches Some(n) ==> view
            matches FileView::Shown(f) && f.shows_bytes(n.0, n.1)),
{
    if !readable(file) {
        return FileView::Unread;
    }
    let decoded = decode(file);
    let ghost arithmetic = choose|a: nat| content(decoded) == #[trigger] decoded_on(file@, a);
    match decoded {
        None => FileView::NoPicture,
        Some(image) => {
            let frame = frame_of(&image);
            proof {
                assert(decoded_on(file@, arithmetic) == Some((image.dims, image.data@)));
                assert(frame.shows_file(file@));
            }
            FileView::Shown(frame)
        },
    }
}

} // verus!
