//! Cutting an image into its character regions, and reading one region.

use vstd::prelude::*;
use crate::classify::{classify_count, classify_spec, white_count, WHITE_THRESHOLD};
use crate::grid::{
    at_or_black, block, get_pixel, has_pixel, in_bounds, new_image, put_pixel, GrayscaleImage,
};

verus! {

/// The width of the image that the offsets were chosen for.
pub const CAPTCHA_WIDTH: u32 = 55;

/// The height of the image, and of every character region.
pub const CAPTCHA_HEIGHT: u32 = 24;

/// The width of a character region.
pub const CHAR_WIDTH: u32 = 11;

/// The column at which the first character region starts.
pub const LEFT_MARGIN: u32 = 5;

/// The number of characters in a code.
pub const CHAR_COUNT: u32 = 5;

/// The column at which the region of character `i` starts.
pub open spec fn region_start(i: int) -> int {
    LEFT_MARGIN + i * CHAR_WIDTH
}

/// Whether `cells` are those of a character region: `CHAR_WIDTH` columns by
/// `CAPTCHA_HEIGHT` rows.
pub open spec fn is_region(cells: Map<(int, int), u8>) -> bool {
    cells.dom() =~= block(CHAR_WIDTH as int, CAPTCHA_HEIGHT as int)
}

/// The region that starts at column `x_start` of an image: the image's own
/// pixels where it has them, black elsewhere.
pub open spec fn region_of(cells: Map<(int, int), u8>, x_start: int) -> Map<(int, int), u8> {
    Map::new(
        |c: (int, int)| 0 <= c.0 < CHAR_WIDTH && 0 <= c.1 < CAPTCHA_HEIGHT,
        |c: (int, int)| at_or_black(cells, x_start + c.0, c.1),
    )
}

/// The pixels of a region, row by row.
pub open spec fn region_pixels(cells: Map<(int, int), u8>) -> Seq<u8> {
    Seq::new(
        (CHAR_WIDTH * CAPTCHA_HEIGHT) as nat,
        |i: int| cells[(i % (CHAR_WIDTH as int), i / (CHAR_WIDTH as int))],
    )
}

/// Whether cell `(cx, cy)` comes before `(x, y)` when a region is walked row
/// by row.
pub open spec fn walked(cx: int, cy: int, x: int, y: int) -> bool {
    cy < y || (cy == y && cx < x)
}

/// Copies out the character region that starts at column `x_start`.
pub fn extract_char_region(img: &GrayscaleImage, x_start: u32) -> (region: GrayscaleImage)
    ensures
        is_region(region@),
        region@ == region_of(img@, x_start as int),
{
    let mut region = new_image(CHAR_WIDTH, CAPTCHA_HEIGHT);
    let mut y: u32 = 0;
    while y < CAPTCHA_HEIGHT
        invariant
            y <= CAPTCHA_HEIGHT,
            is_region(region@),
            forall|cx: int, cy: int|
                0 <= cx < CHAR_WIDTH && 0 <= cy < CAPTCHA_HEIGHT ==> #[trigger] region@[(cx, cy)]
                    == if walked(cx, cy, 0, y as int) {
                    at_or_black(img@, x_start + cx, cy)
                } else {
                    0u8
                },
        decreases CAPTCHA_HEIGHT - y,
    {
        let mut x: u32 = 0;
        while x < CHAR_WIDTH
            invariant
                y < CAPTCHA_HEIGHT,
                x <= CHAR_WIDTH,
                is_region(region@),
                forall|cx: int, cy: int|
                    0 <= cx < CHAR_WIDTH && 0 <= cy < CAPTCHA_HEIGHT ==> #[trigger] region@[(
                        cx,
                        cy,
                    )] == if walked(cx, cy, x as int, y as int) {
                        at_or_black(img@, x_start + cx, cy)
                    } else {
                        0u8
                    },
            decreases CHAR_WIDTH - x,
        {
            let column: u64 = x_start as u64 + x as u64;
            if column <= 0xFFFF_FFFF && in_bounds(img, column as u32, y) {
                let p = get_pixel(img, column as u32, y);
                assert(region@.dom().contains((x as int, y as int)));
                put_pixel(&mut region, x, y, p);
            }
            x += 1;
        }
        y += 1;
    }
    assert(region@ =~= region_of(img@, x_start as int));
    region
}

/// Counts the white pixels of a region.
pub fn count_white(region: &GrayscaleImage) -> (n: u32)
    requires
        is_region(region@),
    ensures
        n == white_count(region_pixels(region@)),
        n <= CHAR_WIDTH * CAPTCHA_HEIGHT,
{
    let ghost pixels = region_pixels(region@);
    let mut n: u32 = 0;
    let mut y: u32 = 0;
    while y < CAPTCHA_HEIGHT
        invariant
            y <= CAPTCHA_HEIGHT,
            is_region(region@),
            pixels == region_pixels(region@),
            n == white_count(pixels.take(y * CHAR_WIDTH)),
            n <= y * CHAR_WIDTH,
        decreases CAPTCHA_HEIGHT - y,
    {
        let mut x: u32 = 0;
        while x < CHAR_WIDTH
            invariant
                y < CAPTCHA_HEIGHT,
                x <= CHAR_WIDTH,
                is_region(region@),
                pixels == region_pixels(region@),
                n == white_count(pixels.take(y * CHAR_WIDTH + x)),
                n <= y * CHAR_WIDTH + x,
            decreases CHAR_WIDTH - x,
        {
            assert(region@.dom().contains((x as int, y as int)));
            let p = get_pixel(region, x, y);
            proof {
                let i = y * CHAR_WIDTH + x;
                assert(i % (CHAR_WIDTH as int) == x as int);
                assert(i / (CHAR_WIDTH as int) == y as int);
                assert(pixels[i] == p);
                assert(pixels.take(i + 1).drop_last() =~= pixels.take(i));
                assert(pixels.take(i + 1).last() == p);
            }
            if p > WHITE_THRESHOLD {
                n += 1;
            }
            x += 1;
        }
        y += 1;
    }
    assert(pixels.take((CAPTCHA_HEIGHT * CHAR_WIDTH) as int) =~= pixels);
    n
}

/// Counts the white pixels of a region and maps the count to its digit.
pub fn recognize_char(region: &GrayscaleImage) -> (r: Option<char>)
    requires
        is_region(region@),
    ensures
        r == classify_spec(white_count(region_pixels(region@)) as int),
{
    let n = count_white(region);
    classify_count(n)
}

/// In an image of the nominal size the first four character regions lie
/// within the image: each of their cells is a pixel of the image.
pub proof fn lemma_nominal_regions_within(cells: Map<(int, int), u8>, i: int, x: int, y: int)
    requires
        cells.dom() =~= block(CAPTCHA_WIDTH as int, CAPTCHA_HEIGHT as int),
        0 <= i < CHAR_COUNT - 1,
        0 <= x < CHAR_WIDTH,
        0 <= y < CAPTCHA_HEIGHT,
    ensures
        region_start(i) + CHAR_WIDTH - 1 < CAPTCHA_WIDTH,
        has_pixel(cells, region_start(i) + x, y),
        is_region(region_of(cells, region_start(i))),
        region_of(cells, region_start(i))[(x, y)] == cells[(region_start(i) + x, y)],
{
    assert(i * CHAR_WIDTH <= 3 * CHAR_WIDTH) by (nonlinear_arith)
        requires
            0 <= i <= 3,
    ;
    assert(0 <= i * CHAR_WIDTH) by (nonlinear_arith)
        requires
            0 <= i,
    ;
}

/// In an image of the nominal size the last character region reaches past
/// the right edge: its first six columns are pixels of the image, its last
/// five are black.
pub proof fn lemma_nominal_last_region(cells: Map<(int, int), u8>, x: int, y: int)
    requires
        cells.dom() =~= block(CAPTCHA_WIDTH as int, CAPTCHA_HEIGHT as int),
        0 <= x < CHAR_WIDTH,
        0 <= y < CAPTCHA_HEIGHT,
    ensures
        region_start(CHAR_COUNT - 1) + CHAR_WIDTH - 1 >= CAPTCHA_WIDTH,
        has_pixel(cells, region_start(CHAR_COUNT - 1) + x, y) <==> x < 6,
        is_region(region_of(cells, region_start(CHAR_COUNT - 1))),
        x < 6 ==> region_of(cells, region_start(CHAR_COUNT - 1))[(x, y)] == cells[(
            region_start(CHAR_COUNT - 1) + x,
            y,
        )],
        x >= 6 ==> region_of(cells, region_start(CHAR_COUNT - 1))[(x, y)] == 0,
{
}

} // verus!
