//! Grayscale images. The pixels live in a buffer of the `image` crate; the
//! contracts speak of them as a map from cells to intensities.

use vstd::prelude::*;

verus! {

/// A decoded image of any pixel format, as the `image` crate holds it.
#[verifier::external_type_specification]
#[verifier::external_body]
pub struct ExDynamicImage(image::DynamicImage);

/// An image with one intensity per pixel, held in a `GrayImage` of the
/// `image` crate.
#[verifier::external_body]
pub struct GrayscaleImage {
    inner: image::GrayImage,
}

/// What an image holds: the intensity at each cell `(column, row)` that lies
/// within its width and height.
pub uninterp spec fn gray_cells(img: GrayscaleImage) -> Map<(int, int), u8>;

/// The grayscale rendering of an image: one luma value for each of its cells.
pub uninterp spec fn luma_of(img: image::DynamicImage) -> Map<(int, int), u8>;

impl View for GrayscaleImage {
    type V = Map<(int, int), u8>;

    open spec fn view(&self) -> Map<(int, int), u8> {
        gray_cells(*self)
    }
}

/// The cells of an image of the given size.
pub open spec fn block(width: int, height: int) -> Set<(int, int)> {
    Set::new(|c: (int, int)| 0 <= c.0 < width && 0 <= c.1 < height)
}

/// A black image of the given size.
pub open spec fn blank(width: int, height: int) -> Map<(int, int), u8> {
    Map::new(|c: (int, int)| 0 <= c.0 < width && 0 <= c.1 < height, |c: (int, int)| 0u8)
}

/// Whether `cells` has a pixel at column `x`, row `y` that can be addressed.
pub open spec fn has_pixel(cells: Map<(int, int), u8>, x: int, y: int) -> bool {
    0 <= x <= u32::MAX && 0 <= y <= u32::MAX && cells.dom().contains((x, y))
}

/// The intensity at column `x`, row `y`, and black where there is no such
/// pixel.
pub open spec fn at_or_black(cells: Map<(int, int), u8>, x: int, y: int) -> u8 {
    if has_pixel(cells, x, y) {
        cells[(x, y)]
    } else {
        0u8
    }
}

/// Calls `ImageBuffer::new`.
///
/// Believed, not proved: the new image has the given size and is black all
/// over. The call panics when the buffer would be too large to allocate,
/// which the bound on the size leaves out.
#[verifier::external_body]
pub(crate) fn new_image(width: u32, height: u32) -> (img: GrayscaleImage)
    requires
        width as int * height as int <= 0x7FFF_FFFF,
    ensures
        gray_cells(img) == blank(width as int, height as int),
{
    GrayscaleImage { inner: image::ImageBuffer::new(width, height) }
}

/// Calls `GenericImageView::in_bounds`.
///
/// Believed, not proved: it tells whether the image has the cell.
#[verifier::external_body]
pub(crate) fn in_bounds(img: &GrayscaleImage, x: u32, y: u32) -> (b: bool)
    ensures
        b == gray_cells(*img).dom().contains((x as int, y as int)),
{
    image::GenericImageView::in_bounds(&img.inner, x, y)
}

/// Calls `ImageBuffer::get_pixel`, which panics outside the image.
///
/// Believed, not proved: it gives the intensity that the image holds at the
/// cell.
#[verifier::external_body]
pub(crate) fn get_pixel(img: &GrayscaleImage, x: u32, y: u32) -> (p: u8)
    requires
        gray_cells(*img).dom().contains((x as int, y as int)),
    ensures
        p == gray_cells(*img)[(x as int, y as int)],
{
    img.inner.get_pixel(x, y).0[0]
}

/// Calls `ImageBuffer::put_pixel`, which panics outside the image.
///
/// Believed, not proved: it changes the intensity at the cell and nothing
/// else.
#[verifier::external_body]
pub(crate) fn put_pixel(img: &mut GrayscaleImage, x: u32, y: u32, p: u8)
    requires
        gray_cells(*old(img)).dom().contains((x as int, y as int)),
    ensures
        gray_cells(*final(img)) == gray_cells(*old(img)).insert((x as int, y as int), p),
{
    img.inner.put_pixel(x, y, image::Luma([p]));
}

/// Calls `DynamicImage::to_luma8`.
///
/// Believed, not proved: the rendering depends on the image alone.
#[verifier::external_body]
pub(crate) fn to_luma(img: &image::DynamicImage) -> (gray: GrayscaleImage)
    ensures
        gray_cells(gray) == luma_of(*img),
{
    GrayscaleImage { inner: img.to_luma8() }
}

impl GrayscaleImage {
    /// The intensity at column `x`, row `y`, and black where the image has no
    /// such pixel.
    pub fn pixel_or_black(&self, x: u64, y: u32) -> (p: u8)
        ensures
            p == at_or_black(self@, x as int, y as int),
    {
        if x > 0xFFFF_FFFF {
            return 0;
        }
        let column: u32 = x as u32;
        if in_bounds(self, column, y) {
            get_pixel(self, column, y)
        } else {
            0
        }
    }
}

/// The grayscale rendering of an image.
pub fn grayscale(img: &image::DynamicImage) -> (gray: GrayscaleImage)
    ensures
        gray@ == luma_of(*img),
{
    to_luma(img)
}

} // verus!
