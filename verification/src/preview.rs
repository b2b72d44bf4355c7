//! Turns the bytes of one decoded image into a grayscale picture that can be
//! saved or shown.

use image::{ImageBuffer, Luma};
use vstd::prelude::*;

verus! {

/// A grayscale picture with one byte per pixel, held in the buffer type of
/// the `image` crate.
#[verifier::external_body]
pub struct GrayPicture {
    buffer: ImageBuffer<Luma<u8>, Vec<u8>>,
}

/// The gray levels of a picture, row after row from the top, each row from
/// left to right.
pub uninterp spec fn gray_samples(picture: GrayPicture) -> Seq<u8>;

/// The number of pixels in each row of a picture.
pub uninterp spec fn picture_width(picture: GrayPicture) -> int;

/// The number of rows of a picture.
pub uninterp spec fn picture_height(picture: GrayPicture) -> int;

/// Position in the image bytes from which the pixel in column `x` of row `y`
/// is taken. Rows are taken to be as long as the picture is high.
pub open spec fn source_index(rows: u32, x: int, y: int) -> int {
    y * rows as int + x
}

/// Every pixel of a picture of `rows` by `cols` has a source byte in `img`,
/// at a position that fits in 32 bits, and the picture fits in memory.
pub open spec fn drawable(img: Seq<u8>, rows: u32, cols: u32) -> bool {
    &&& rows as int * cols as int <= usize::MAX
    &&& forall|x: int, y: int|
        0 <= x < cols && 0 <= y < rows ==> #[trigger] source_index(rows, x, y) < img.len()
            && source_index(rows, x, y) <= u32::MAX
}

/// The samples of the picture that `to_img_buf` draws: the pixel in column
/// `x` of row `y` stands at `y * cols + x`.
pub open spec fn picture_of(img: Seq<u8>, rows: u32, cols: u32) -> Seq<u8> {
    Seq::new(
        (rows as int * cols as int) as nat,
        |i: int| img[source_index(rows, i % cols as int, i / cols as int)],
    )
}

/// The gray level of the pixel in column `x` of row `y`.
pub fn pixel_at(img: &[u8], rows: u32, x: u32, y: u32) -> (v: u8)
    requires
        source_index(rows, x as int, y as int) < img@.len(),
        source_index(rows, x as int, y as int) <= u32::MAX,
    ensures
        v == img@[source_index(rows, x as int, y as int)],
{
    assert(0 <= y as int * rows as int) by (nonlinear_arith);
    let i: u32 = y * rows + x;
    img[i as usize]
}

/// `image::ImageBuffer::from_fn` for a picture `cols` wide and `rows` high:
/// it allocates one sample per pixel and sets the pixel in each column `x` of
/// each row `y` to what the closure returns for them, here the gray level
/// `pixel_at`. The call panics where the picture does not fit in memory, which
/// the precondition rules out together with the inputs on which `pixel_at` is
/// not defined.
#[verifier::external_body]
fn gray_picture(img: &[u8], rows: u32, cols: u32) -> (r: GrayPicture)
    requires
        drawable(img@, rows, cols),
    ensures
        picture_width(r) == cols,
        picture_height(r) == rows,
        gray_samples(r) == picture_of(img@, rows, cols),
{
    GrayPicture { buffer: ImageBuffer::from_fn(cols, rows, |x, y| Luma([pixel_at(img, rows, x, y)])) }
}

/// `image::ImageBuffer::into_raw`: hands out the samples that the picture
/// holds.
#[verifier::external_body]
fn picture_into_raw(picture: GrayPicture) -> (r: Vec<u8>)
    ensures
        r@ == gray_samples(picture),
{
    picture.buffer.into_raw()
}

/// `image::ImageBuffer::width`: the width that the picture was made with.
#[verifier::external_body]
fn picture_width_of(picture: &GrayPicture) -> (r: u32)
    ensures
        r == picture_width(*picture),
{
    picture.buffer.width()
}

/// `image::ImageBuffer::height`: the height that the picture was made with.
#[verifier::external_body]
fn picture_height_of(picture: &GrayPicture) -> (r: u32)
    ensures
        r == picture_height(*picture),
{
    picture.buffer.height()
}

impl GrayPicture {
    /// The number of pixels in each row.
    pub fn width(&self) -> (r: u32)
        ensures
            r == picture_width(*self),
    {
        picture_width_of(self)
    }

    /// The number of rows.
    pub fn height(&self) -> (r: u32)
        ensures
            r == picture_height(*self),
    {
        picture_height_of(self)
    }

    /// The gray levels, row after row from the top, each row from left to
    /// right.
    pub fn into_raw(self) -> (r: Vec<u8>)
        ensures
            r@ == gray_samples(self),
    {
        picture_into_raw(self)
    }
}

/// Tells whether `to_img_buf` accepts these arguments.
pub fn can_draw(img: &[u8], rows: u32, cols: u32) -> (ok: bool)
    ensures
        ok == drawable(img@, rows, cols),
{
    if rows == 0 || cols == 0 {
        assert(rows as int * cols as int == 0) by (nonlinear_arith)
            requires
                rows == 0 || cols == 0,
        ;
        return true;
    }
    assert(rows as int * cols as int <= 0xffff_ffff * 0xffff_ffff && (rows - 1) * rows
        <= 0xffff_ffff * 0xffff_ffff && 0 <= (rows - 1) * rows) by (nonlinear_arith)
        requires
            1 <= rows <= 0xffff_ffff,
            1 <= cols <= 0xffff_ffff,
    ;
    let area: u64 = rows as u64 * cols as u64;
    let last: u64 = (rows - 1) as u64 * rows as u64 + (cols - 1) as u64;
    let ok: bool = area <= usize::MAX as u64 && last <= 0xffff_ffff && last < img.len() as u64;
    proof {
        assert(last as int == source_index(rows, cols as int - 1, rows as int - 1));
        if ok {
            assert forall|x: int, y: int| 0 <= x < cols && 0 <= y < rows implies #[trigger] source_index(
                rows,
                x,
                y,
            ) <= last by {
                assert(y * rows <= (rows - 1) * rows) by (nonlinear_arith)
                    requires
                        0 <= y <= rows - 1,
                        0 <= rows,
                ;
            }
        }
    }
    ok
}

/// Draws one image as a grayscale picture `cols` wide and `rows` high.
pub fn to_img_buf(img: &[u8], rows: u32, cols: u32) -> (r: GrayPicture)
    requires
        drawable(img@, rows, cols),
    ensures
        picture_width(r) == cols,
        picture_height(r) == rows,
        gray_samples(r) == picture_of(img@, rows, cols),
{
    gray_picture(img, rows, cols)
}

} // verus!
