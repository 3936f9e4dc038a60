//! Sampling the 8x8 grid of intensities around an image point.

use vstd::prelude::*;

verus! {

/// A grayscale image with one byte per pixel, held in the `image` crate's
/// `GrayImage` buffer. What it holds is known to contracts only through
/// [`image_width`] and [`luma_rows`].
#[verifier::external_body]
pub struct GrayPixels {
    buffer: image::GrayImage,
}

/// The number of pixels in each row of the image.
pub uninterp spec fn image_width(img: GrayPixels) -> nat;

/// The intensities of the image, one inner sequence per row of pixels, top
/// row first, each row from left to right.
pub uninterp spec fn luma_rows(img: GrayPixels) -> Seq<Seq<u8>>;

/// The rows of a `width` x `height` image whose pixels are stored row after
/// row in `pixels`.
pub open spec fn rows_of(pixels: Seq<u8>, width: nat, height: nat) -> Seq<Seq<u8>> {
    Seq::new(height, |y: int| Seq::new(width, |x: int| pixels[y * width + x]))
}

/// `ImageBuffer::from_raw` on a byte vector: the buffer is accepted exactly
/// when it holds at least `width * height` bytes, and pixel `(x, y)` of the
/// image is then the byte at `y * width + x`.
#[verifier::external_body]
fn buffer_from_raw(width: u32, height: u32, pixels: Vec<u8>) -> (made: Option<GrayPixels>)
    ensures
        made.is_some() <==> width * height <= pixels@.len(),
        made matches Some(img) ==> image_width(img) == width && luma_rows(img) == rows_of(
            pixels@,
            width as nat,
            height as nat,
        ),
{
    match image::GrayImage::from_raw(width, height, pixels) {
        Some(buffer) => Some(GrayPixels { buffer }),
        None => None,
    }
}

/// `ImageBuffer::dimensions`: the image's width and height. The height is
/// the number of pixel rows, and every row is as long as the width.
#[verifier::external_body]
fn buffer_dimensions(img: &GrayPixels) -> (size: (u32, u32))
    ensures
        size.0 == image_width(*img),
        size.1 == luma_rows(*img).len(),
        forall|y: int| 0 <= y < size.1 ==> (#[trigger] luma_rows(*img)[y]).len() == size.0,
{
    img.buffer.dimensions()
}

/// `ImageBuffer::get_pixel`, reduced to the pixel's single channel: the
/// intensity in column `x` of row `y`. The outside function panics on a
/// position outside the image, which the precondition leaves out.
#[verifier::external_body]
fn buffer_intensity(img: &GrayPixels, x: u32, y: u32) -> (value: u8)
    requires
        x < image_width(*img),
        y < luma_rows(*img).len(),
    ensures
        value == luma_rows(*img)[y as int][x as int],
{
    img.buffer.get_pixel(x, y).0[0]
}

impl GrayPixels {
    /// Makes an image of `width` x `height` pixels from intensities stored
    /// row after row. `None` when `pixels` is too short for that size.
    pub fn from_raw(width: u32, height: u32, pixels: Vec<u8>) -> (made: Option<GrayPixels>)
        ensures
            made.is_some() <==> width * height <= pixels@.len(),
            made matches Some(img) ==> image_width(img) == width && luma_rows(img) == rows_of(
                pixels@,
                width as nat,
                height as nat,
            ),
    {
        buffer_from_raw(width, height, pixels)
    }
}

/// Distance from the centre of the `step`-th sampled column or row:
/// -7, -5, -3, -1, 1, 3, 5, 7 for steps 0 to 7.
pub open spec fn grid_offset(step: int) -> int {
    2 * step - 7
}

/// Whether the 15x15 window centred on `(x, y)` lies inside an image of the
/// given size.
pub open spec fn window_fits(width: nat, height: nat, x: int, y: int) -> bool {
    x >= 7 && y >= 7 && x + 7 < width && y + 7 < height
}

/// The intensity that belongs at index `k` of the patch around `(x, y)`:
/// patch rows run top to bottom, and within a row from left to right.
pub open spec fn sample_at(rows: Seq<Seq<u8>>, x: int, y: int, k: int) -> u8 {
    rows[y + grid_offset(k / 8)][x + grid_offset(k % 8)]
}

/// Samples every other pixel of the 15x15 window centred on `(x, y)`.
///
/// Returns `None` when the window does not lie wholly inside the image;
/// nothing is clamped and no partial patch is made.
pub fn sample_patch(image: &GrayPixels, x: u32, y: u32) -> (patch: Option<[u8; 64]>)
    ensures
        patch.is_some() <==> window_fits(
            image_width(*image),
            luma_rows(*image).len(),
            x as int,
            y as int,
        ),
        patch matches Some(p) ==> forall|k: int|
            0 <= k < 64 ==> #[trigger] p[k] == sample_at(luma_rows(*image), x as int, y as int, k),
{
    let (width, height) = buffer_dimensions(image);
    if x < 7 || y < 7 || x as u64 + 7 >= width as u64 || y as u64 + 7 >= height as u64 {
        return None;
    }
    let ghost rows = luma_rows(*image);
    let mut sample = [0u8; 64];
    let mut row: u32 = 0;
    while row < 8
        invariant
            row <= 8,
            rows == luma_rows(*image),
            window_fits(image_width(*image), rows.len(), x as int, y as int),
            width == image_width(*image),
            height == rows.len(),
            forall|k: int| 0 <= k < 8 * row ==> #[trigger] sample[k] == sample_at(rows, x as int, y as int, k),
        decreases 8 - row,
    {
        let mut col: u32 = 0;
        while col < 8
            invariant
                row < 8,
                col <= 8,
                rows == luma_rows(*image),
                window_fits(image_width(*image), rows.len(), x as int, y as int),
                width == image_width(*image),
                height == rows.len(),
                forall|k: int|
                    0 <= k < 8 * row + col ==> #[trigger] sample[k] == sample_at(
                        rows,
                        x as int,
                        y as int,
                        k,
                    ),
            decreases 8 - col,
        {
            let px: u32 = x - 7 + 2 * col;
            let py: u32 = y - 7 + 2 * row;
            let index: usize = (8 * row + col) as usize;
            sample[index] = buffer_intensity(image, px, py);
            col += 1;
        }
        row += 1;
    }
    Some(sample)
}

} // verus!
