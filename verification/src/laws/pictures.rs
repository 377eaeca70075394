//! What holds of pictures and of the files that hold them.

use crate::client::{has_left, takes_update, takes_view};
use crate::laws::lemma_room_for_views;
use crate::message::Action;
use crate::picture::{
    animation_tag,
    content,
    decoded_file,
    decoded_on,
    has_tag,
    header_tag,
    is_exact,
    is_readable,
    palette_tag,
    pixel_start,
    safe_chunk,
    safe_chunks,
    safe_frame,
    safe_frames,
    Frame,
    Image,
};
use vstd::prelude::*;
use vstd::string::*;

verus! {

// ---------------------------------------------------------------------------
// Pixels
// ---------------------------------------------------------------------------

/// A picture without rows has no bytes, and each row adds four bytes for each
/// column.
pub proof fn law_each_row_takes_four_bytes_a_column(width: u32, height: u32)
    requires
        height < u32::MAX,
    ensures
        Image::byte_count((width, 0)) == 0,
        Image::byte_count((width, (height + 1) as u32)) == Image::byte_count((width, height)) + 4
            * width,
{
    let w = width as int;
    let h = height as int;
    assert(4 * w * (h + 1) == 4 * w * h + 4 * w) by (nonlinear_arith);
    assert(4 * w * 0 == 0) by (nonlinear_arith);
}

/// The first pixel begins at the first byte. One column further is four bytes
/// further, and one row further is a whole row of bytes further; the last pixel
/// ends where the bytes of the picture end.
pub proof fn law_pixels_stand_row_by_row(width: u32, height: u32, x: u32, y: u32)
    requires
        x < u32::MAX,
        y < u32::MAX,
        width > 0,
        height > 0,
    ensures
        pixel_start((width, height), 0, 0) == 0,
        pixel_start((width, height), (x + 1) as u32, y) == pixel_start((width, height), x, y) + 4,
        pixel_start((width, height), x, (y + 1) as u32) == pixel_start((width, height), x, y) + 4
            * width,
        pixel_start((width, height), (width - 1) as u32, (height - 1) as u32) + 4
            == Image::byte_count((width, height)),
{
    let w = width as int;
    let h = height as int;
    let row = y as int;
    assert((row + 1) * w == row * w + w) by (nonlinear_arith);
    assert(0 * w == 0) by (nonlinear_arith);
    assert(4 * ((h - 1) * w + (w - 1)) + 4 == 4 * w * h) by (nonlinear_arith);
}

/// What fits, what has pixels and what is the same, in numbers and bytes.
pub proof fn law_pictures_hold_all_their_pixels(image: &Image, other: &Image)
    ensures
        image.fits() <==> 4 * image.dims.0 <= usize::MAX && 4 * image.dims.0 * image.dims.1
            <= image.data@.len(),
        image.has_pixels() <==> image.fits() && image.dims.0 > 0 && image.dims.1 > 0,
        image.same(other) <==> image.dims.0 == other.dims.0 && image.dims.1 == other.dims.1
            && image.data@ == other.data@,
{
}

/// The position of the byte in which a picture keeps its number of views: the
/// fourth byte of its last pixel.
pub open spec fn views_at(image: Image) -> int {
    4 * image.dims.0 * image.dims.1 - 1
}

/// The number of views left is the last byte of the last pixel.
pub proof fn law_views_stand_in_the_last_pixel(image: &Image)
    ensures
        image.access_spec() == image.data@[views_at(*image)],
{
}

/// A picture whose number of views was set differs in that byte alone, which
/// holds the number.
pub proof fn law_setting_views_changes_one_byte(before: Image, after: Image, left: u8, k: int)
    requires
        before.has_pixels(),
        has_left(before, after, left),
        0 <= k < before.data@.len(),
    ensures
        after.dims == before.dims,
        after.data@.len() == before.data@.len(),
        k != views_at(before) ==> after.data@[k] == before.data@[k],
        after.data@[views_at(before)] == left,
        after.has_pixels(),
{
    lemma_room_for_views(before);
}

/// A view takes one from the number of views, and nothing else, and is refused
/// exactly where none is left.
pub proof fn law_a_view_takes_one(image: Image, viewed: Option<Image>, k: int)
    requires
        image.has_pixels(),
        takes_view(image, viewed),
        0 <= k < image.data@.len(),
    ensures
        viewed is None <==> image.data@[views_at(image)] == 0,
        viewed matches Some(v) ==> {
            &&& v.dims == image.dims
            &&& v.data@.len() == image.data@.len()
            &&& v.data@[views_at(image)] + 1 == image.data@[views_at(image)]
            &&& k != views_at(image) ==> v.data@[k] == image.data@[k]
        },
{
    lemma_room_for_views(image);
}

/// An update adds the views that it grants, if the picture has room for all of
/// them, takes away those that it withdraws, as far as there are any, or takes
/// all; and it changes nothing else. There is no result where the picture has
/// no room.
pub proof fn law_an_update_changes_the_views(
    image: Image,
    action: Action,
    updated: Option<Image>,
    k: int,
)
    requires
        image.has_pixels(),
        takes_update(image, action, updated),
        0 <= k < image.data@.len(),
    ensures
        ({
            let views = image.data@[views_at(image)];
            &&& updated is None <==> (action matches Action::Increment(n) && views + n > 255)
            &&& updated matches Some(u) ==> {
                let left = u.data@[views_at(image)];
                &&& action matches Action::Increment(n) ==> left == views + n
                &&& action matches Action::Decrement(n) ==> left == if n >= views {
                    0
                } else {
                    views - n
                }
                &&& action is Revoke ==> left == 0
                &&& u.dims == image.dims
                &&& u.data@.len() == image.data@.len()
                &&& k != views_at(image) ==> u.data@[k] == image.data@[k]
            }
        }),
{
    lemma_room_for_views(image);
}

// ---------------------------------------------------------------------------
// What is shown
// ---------------------------------------------------------------------------

/// The pixel that is shown at a column and a row has the red, green and blue of
/// the picture there, from its highest byte but one to its lowest.
pub proof fn law_shown_pixels_have_the_colours_of_the_picture(
    frame: Frame,
    dims: (u32, u32),
    data: Seq<u8>,
    x: int,
    y: int,
)
    requires
        frame.shows_bytes(dims, data),
        0 <= x < dims.0,
        0 <= y < dims.1,
    ensures
        frame.width == dims.0,
        frame.height == dims.1,
        frame.pixels@.len() == dims.0 * dims.1,
        0 <= y * dims.0 + x < frame.pixels@.len(),
        ({
            let pixel = frame.pixels@[y * dims.0 + x];
            let start = 4 * (y * dims.0 + x);
            &&& pixel < 0x100_0000
            &&& pixel / 0x1_0000 == data[start]
            &&& pixel / 0x100 % 0x100 == data[start + 1]
            &&& pixel % 0x100 == data[start + 2]
        }),
{
    let w = dims.0 as int;
    let h = dims.1 as int;
    assert(0 <= y * w + x < w * h) by (nonlinear_arith)
        requires
            0 <= x < w,
            0 <= y < h,
    ;
    let k = y * w + x;
    assert(frame.pixels@[k] == 65536 * data[4 * k] + 256 * data[4 * k + 1] + data[4 * k + 2]);
}

/// A frame that shows a picture shows its size and bytes; one that shows a file
/// shows what the file was decoded to, all of whose pixels are there.
pub proof fn law_frames_show_what_was_decoded(frame: Frame, image: &Image, file: Seq<u8>)
    ensures
        frame.shows(image) ==> frame.shows_bytes(image.dims, image.data@),
        frame.shows_file(file) ==> exists|a: nat|
            (#[trigger] decoded_on(file, a)) is Some && frame.shows_bytes(
                (decoded_on(file, a)->0).0,
                (decoded_on(file, a)->0).1,
            ) && (decoded_on(file, a)->0).1.len() == 4 * (decoded_on(file, a)->0).0.0 * (
            decoded_on(file, a)->0).0.1,
        decoded_file(file) == decoded_on(file, 0),
        content(None) is None,
        content(Some(*image)) == Some((image.dims, image.data@)),
{
    if frame.shows_file(file) {
        let a = choose|a: nat| #[trigger]
            decoded_on(file, a) matches Some(n) && frame.shows_bytes(n.0, n.1) && n.1.len()
                == Image::byte_count(n.0);
        assert(decoded_on(file, a) is Some);
    }
}

// ---------------------------------------------------------------------------
// Which files are read
// ---------------------------------------------------------------------------

/// Whether these bytes stand in a file from position `i` on.
pub open spec fn stands_at(file: Seq<u8>, i: int, bytes: Seq<u8>) -> bool {
    0 <= i && i + bytes.len() <= file.len() && forall|k: int|
        0 <= k < bytes.len() ==> file[i + k] == #[trigger] bytes[k]
}

/// Whether a file begins with the signature of PNG files.
pub open spec fn begins_as_png(file: Seq<u8>) -> bool {
    stands_at(file, 0, seq![137u8, 80, 78, 71, 13, 10, 26, 10])
}

/// Whether a file begins with one of the signatures of GIF files.
pub open spec fn begins_as_gif(file: Seq<u8>) -> bool {
    stands_at(file, 0, seq![71u8, 73, 70, 56, 55, 97]) || stands_at(
        file,
        0,
        seq![71u8, 73, 70, 56, 57, 97],
    )
}

/// Whether a file begins with the signature of BMP files.
pub open spec fn begins_as_bmp(file: Seq<u8>) -> bool {
    stands_at(file, 0, seq![66u8, 77])
}

/// Whether a file begins with the signature of JPEG files.
pub open spec fn begins_as_jpeg(file: Seq<u8>) -> bool {
    stands_at(file, 0, seq![255u8, 216, 255])
}

proof fn lemma_starts(file: Seq<u8>, bytes: Seq<u8>)
    ensures
        crate::picture::starts_with(file, bytes) <==> stands_at(file, 0, bytes),
{
    if stands_at(file, 0, bytes) {
        assert forall|k: int| 0 <= k < bytes.len() implies file.take(bytes.len() as int)[k]
            == bytes[k] by {
            assert(file[0 + k] == bytes[k]);
        }
        assert(file.take(bytes.len() as int) == bytes);
    }
    if crate::picture::starts_with(file, bytes) {
        assert forall|k: int| 0 <= k < bytes.len() implies file[0 + k] == #[trigger] bytes[k] by {
            assert(file.take(bytes.len() as int)[k] == bytes[k]);
        }
    }
}

proof fn lemma_signatures(file: Seq<u8>)
    ensures
        crate::picture::is_png(file) <==> begins_as_png(file),
        crate::picture::is_gif(file) <==> begins_as_gif(file),
        crate::picture::is_bmp(file) <==> begins_as_bmp(file),
        crate::picture::is_jpeg(file) <==> begins_as_jpeg(file),
{
    lemma_starts(file, seq![137u8, 80, 78, 71, 13, 10, 26, 10]);
    lemma_starts(file, seq![71u8, 73, 70, 56, 55, 97]);
    lemma_starts(file, seq![71u8, 73, 70, 56, 57, 97]);
    lemma_starts(file, seq![66u8, 77]);
    lemma_starts(file, seq![255u8, 216, 255]);
}

/// Every GIF and BMP file is read, and every file that is read begins as a PNG,
/// GIF, BMP or JPEG file does. Of those, all but JPEG files fix their bytes.
pub proof fn law_files_are_read_by_their_signatures(file: Seq<u8>)
    ensures
        begins_as_gif(file) || begins_as_bmp(file) ==> is_readable(file),
        is_readable(file) ==> begins_as_png(file) || begins_as_gif(file) || begins_as_bmp(file)
            || begins_as_jpeg(file),
        is_exact(file) <==> begins_as_png(file) || begins_as_gif(file) || begins_as_bmp(file),
{
    lemma_signatures(file);
}

/// The number that two bytes stand for, the higher one first.
pub open spec fn two_bytes(file: Seq<u8>, i: int) -> int {
    256 * file[i] + file[i + 1]
}

/// A JPEG file is read whatever the kinds of its frames and their bits for each
/// sample are, progressive ones included, as long as no side is over 65500 and
/// no frame is lossless.
pub proof fn law_jpeg_files_are_read(file: Seq<u8>)
    requires
        begins_as_jpeg(file),
        forall|i: int|
            0 <= i && i + 8 < file.len() && #[trigger] file[i] == 255 && 192 <= file[i + 1] <= 195
                ==> file[i + 1] != 195 && two_bytes(file, i + 5) <= 65500 && two_bytes(file, i + 7)
                <= 65500,
    ensures
        is_readable(file),
{
    lemma_signatures(file);
    assert forall|i: int| 0 <= i < file.len() - 1 implies #[trigger] safe_frame(file, i) by {
        assert(file[i] == file[i]);
    }
    assert(safe_frames(file));
}

/// A lossless frame hinders nothing where it has eight bits for each sample, or
/// more than sixteen.
pub proof fn law_lossless_jpeg_files_are_read(file: Seq<u8>)
    requires
        begins_as_jpeg(file),
        forall|i: int|
            0 <= i && i + 8 < file.len() && #[trigger] file[i] == 255 && 192 <= file[i + 1] <= 195
                ==> two_bytes(file, i + 5) <= 65500 && two_bytes(file, i + 7) <= 65500 && (file[i
                + 1] == 195 ==> file[i + 4] == 8 || file[i + 4] > 16),
    ensures
        is_readable(file),
{
    lemma_signatures(file);
    assert forall|i: int| 0 <= i < file.len() - 1 implies #[trigger] safe_frame(file, i) by {
        assert(file[i] == file[i]);
    }
    assert(safe_frames(file));
}

/// A JPEG file that is read has no frame with a side over 65500, and no
/// lossless one with up to sixteen bits for each sample other than eight.
pub proof fn law_jpeg_frames_that_are_read_are_safe(file: Seq<u8>, i: int)
    requires
        begins_as_jpeg(file),
        is_readable(file),
        0 <= i,
        i + 8 < file.len(),
        file[i] == 255,
        192 <= file[i + 1] <= 195,
    ensures
        two_bytes(file, i + 5) <= 65500,
        two_bytes(file, i + 7) <= 65500,
        file[i + 1] == 195 ==> file[i + 4] == 8 || file[i + 4] > 16,
{
    lemma_signatures(file);
    assert(seq![137u8, 80, 78, 71, 13, 10, 26, 10][0] == 137);
    assert(seq![71u8, 73, 70, 56, 55, 97][0] == 71);
    assert(seq![71u8, 73, 70, 56, 57, 97][0] == 71);
    assert(seq![66u8, 77][0] == 66);
    assert(seq![255u8, 216, 255][0] == 255);
    assert(safe_frame(file, i));
}

/// Whether these characters, one byte each, stand in a file from `i` on.
pub open spec fn word_stands_at(file: Seq<u8>, i: int, word: Seq<char>) -> bool {
    0 <= i && i + 4 <= file.len() && forall|k: int|
        0 <= k < 4 ==> file[i + k] as int == #[trigger] word[k] as int
}

proof fn lemma_words(file: Seq<u8>, i: int)
    requires
        0 <= i,
    ensures
        has_tag(file, i, header_tag()) <==> word_stands_at(file, i, "IHDR"@),
        has_tag(file, i, palette_tag()) <==> word_stands_at(file, i, "PLTE"@),
        has_tag(file, i, animation_tag()) <==> word_stands_at(file, i, "acTL"@),
{
    reveal_strlit("IHDR");
    reveal_strlit("PLTE");
    reveal_strlit("acTL");
    lemma_word(file, i, header_tag(), "IHDR"@);
    lemma_word(file, i, palette_tag(), "PLTE"@);
    lemma_word(file, i, animation_tag(), "acTL"@);
}

proof fn lemma_word(file: Seq<u8>, i: int, tag: Seq<u8>, word: Seq<char>)
    requires
        0 <= i,
        tag.len() == 4,
        forall|k: int| 0 <= k < 4 ==> tag[k] as int == #[trigger] word[k] as int,
    ensures
        has_tag(file, i, tag) <==> word_stands_at(file, i, word),
{
    if i + 4 <= file.len() {
        let bytes = file.subrange(i, i + 4);
        if word_stands_at(file, i, word) {
            assert forall|k: int| 0 <= k < 4 implies bytes[k] == tag[k] by {
                assert(file[i + k] as int == word[k] as int);
            }
            assert(bytes == tag);
        }
        if has_tag(file, i, tag) {
            assert forall|k: int| 0 <= k < 4 implies file[i + k] as int == #[trigger] word[k] as int by {
                assert(bytes[k] == tag[k]);
            }
        }
    }
}

/// Whether the words in a PNG file are as they should be: behind `IHDR` stands
/// a width below 2^29, before `PLTE` a length of up to 768 that three divides,
/// and behind `acTL` a number below 2^31.
pub open spec fn words_are_sound(file: Seq<u8>, i: int) -> bool {
    &&& word_stands_at(file, i, "IHDR"@) && i + 4 < file.len() ==> file[i + 4] <= 31
    &&& word_stands_at(file, i, "PLTE"@) && i >= 4 ==> two_bytes(file, i - 4) == 0 && two_bytes(
        file,
        i - 2,
    ) <= 768 && two_bytes(file, i - 2) % 3 == 0
    &&& word_stands_at(file, i, "acTL"@) && i + 4 < file.len() ==> file[i + 4] <= 127
}

/// A PNG file is read exactly if its words are as they should be.
pub proof fn law_png_files_are_read(file: Seq<u8>)
    requires
        begins_as_png(file),
    ensures
        is_readable(file) <==> forall|i: int| 0 <= i < file.len() ==> #[trigger] words_are_sound(
            file,
            i,
        ),
{
    lemma_signatures(file);
    assert(seq![137u8, 80, 78, 71, 13, 10, 26, 10][0] == 137);
    assert(seq![71u8, 73, 70, 56, 55, 97][0] == 71);
    assert(seq![71u8, 73, 70, 56, 57, 97][0] == 71);
    assert(seq![66u8, 77][0] == 66);
    assert(seq![255u8, 216, 255][0] == 255);
    assert forall|i: int| 0 <= i < file.len() implies #[trigger] safe_chunk(file, i)
        == words_are_sound(file, i) by {
        lemma_words(file, i);
    }
    if is_readable(file) {
        assert forall|i: int| 0 <= i < file.len() implies #[trigger] words_are_sound(file, i) by {
            assert(safe_chunk(file, i));
        }
    } else if forall|i: int| 0 <= i < file.len() ==> #[trigger] words_are_sound(file, i) {
        assert forall|i: int| 0 <= i < file.len() implies #[trigger] safe_chunk(file, i) by {
            assert(words_are_sound(file, i));
        }
        assert(safe_chunks(file));
    }
}

} // verus!
