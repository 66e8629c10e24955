//! The whole pipeline: regions, digits, code.

use vstd::prelude::*;
use vstd::string::*;
use crate::classify::{classify_spec, lemma_ranges_partition, white_count};
use crate::codec::{
    base64_decoded, decode, decode_spec, has_prefix, is_base64_symbol, payload_of,
};
use crate::grid::{grayscale, luma_of, GrayscaleImage};
use crate::segment::{
    extract_char_region, recognize_char, region_of, region_pixels, region_start, CHAR_COUNT,
    CHAR_WIDTH, LEFT_MARGIN,
};

verus! {

/// The digit read from character `i` of the image, if one is recognized.
pub open spec fn slot_digit(g: Map<(int, int), u8>, i: int) -> Option<char> {
    classify_spec(white_count(region_pixels(region_of(g, region_start(i)))) as int)
}

/// Whether every character of the image is recognized.
pub open spec fn all_recognized(g: Map<(int, int), u8>) -> bool {
    forall|i: int| 0 <= i < CHAR_COUNT ==> (#[trigger] slot_digit(g, i)) is Some
}

/// The digits of the image's characters, left to right.
pub open spec fn code_of(g: Map<(int, int), u8>) -> Seq<char> {
    Seq::new(CHAR_COUNT as nat, |i: int| slot_digit(g, i).unwrap())
}

/// The code of an image: all its digits, or nothing.
pub open spec fn solve_spec(g: Map<(int, int), u8>) -> Option<Seq<char>> {
    if all_recognized(g) {
        Some(code_of(g))
    } else {
        None
    }
}

/// The code that a data URL encodes, if it decodes to an image whose
/// characters are all recognized.
pub open spec fn solve_b64_spec(text: Seq<char>) -> Option<Seq<char>> {
    match decode_spec(text) {
        Ok(img) => solve_spec(luma_of(img)),
        Err(_) => None,
    }
}

/// Whether `code` is made of one digit for each character of an image.
pub open spec fn is_code(code: Seq<char>) -> bool {
    code.len() == CHAR_COUNT && forall|i: int| 0 <= i < code.len() ==> is_digit(#[trigger] code[i])
}

/// What a result says in terms of characters.
pub open spec fn code_view(r: Option<String>) -> Option<Seq<char>> {
    match r {
        Some(s) => Some(s@),
        None => None,
    }
}

/// Whether `c` is one of the ten digits.
pub open spec fn is_digit(c: char) -> bool {
    '0' <= c <= '9'
}

/// The one-character text of a digit.
fn digit_str(c: char) -> (s: &'static str)
    requires
        is_digit(c),
    ensures
        s@ == seq![c],
{
    proof {
        reveal_strlit("0");
        reveal_strlit("1");
        reveal_strlit("2");
        reveal_strlit("3");
        reveal_strlit("4");
        reveal_strlit("5");
        reveal_strlit("6");
        reveal_strlit("7");
        reveal_strlit("8");
        reveal_strlit("9");
    }
    let s = if c == '0' {
        "0"
    } else if c == '1' {
        "1"
    } else if c == '2' {
        "2"
    } else if c == '3' {
        "3"
    } else if c == '4' {
        "4"
    } else if c == '5' {
        "5"
    } else if c == '6' {
        "6"
    } else if c == '7' {
        "7"
    } else if c == '8' {
        "8"
    } else {
        "9"
    };
    assert(s@ =~= seq![c]);
    s
}

/// Reads the code of a grayscale image: the digits of its five character
/// regions, left to right, or nothing if one of them is not recognized.
pub fn solve_gray(img: &GrayscaleImage) -> (r: Option<String>)
    ensures
        code_view(r) == solve_spec(img@),
        r is Some ==> is_code(r.unwrap()@),
{
    proof {
        lemma_all_or_nothing(img@);
    }
    let mut code = String::new();
    let mut i: u32 = 0;
    while i < CHAR_COUNT
        invariant
            i <= CHAR_COUNT,
            code@.len() == i,
            forall|j: int| 0 <= j < i ==> #[trigger] slot_digit(img@, j) == Some(code@[j]),
        decreases CHAR_COUNT - i,
    {
        let x_start: u32 = LEFT_MARGIN + i * CHAR_WIDTH;
        let region = extract_char_region(img, x_start);
        match recognize_char(&region) {
            Some(c) => {
                proof {
                    lemma_ranges_partition(white_count(region_pixels(region@)) as int);
                }
                let ghost before = code@;
                code.append(digit_str(c));
                assert(code@ =~= before.push(c));
            },
            None => {
                assert(slot_digit(img@, i as int) is None);
                return None;
            },
        }
        i += 1;
    }
    assert(code@ =~= code_of(img@));
    Some(code)
}

/// Reads the code of an image of any pixel format, by its grayscale
/// rendering.
pub fn solve_captcha(img: &image::DynamicImage) -> (r: Option<String>)
    ensures
        code_view(r) == solve_spec(luma_of(*img)),
        r is Some ==> is_code(r.unwrap()@),
{
    let gray = grayscale(img);
    solve_gray(&gray)
}

/// Reads the code of an image given as a base64 data URL. Every failure on
/// the way gives `None`.
pub fn solve_b64(b64_str: &str) -> (r: Option<String>)
    ensures
        code_view(r) == solve_b64_spec(b64_str@),
        !has_prefix(b64_str@) ==> r is None,
        has_prefix(b64_str@) && base64_decoded(payload_of(b64_str@)) is None ==> r is None,
        has_prefix(b64_str@) && (exists|i: int|
            0 <= i < payload_of(b64_str@).len() && !is_base64_symbol(payload_of(b64_str@)[i]))
            ==> r is None,
        r is Some ==> is_code(r.unwrap()@),
{
    match decode(b64_str) {
        Ok(img) => solve_captcha(&img),
        Err(_) => None,
    }
}

/// Reading an image is all or nothing. If one character is not recognized
/// there is no code; and a code has one digit for each character, in order,
/// each of them the digit of its own region.
pub proof fn lemma_all_or_nothing(g: Map<(int, int), u8>)
    ensures
        solve_spec(g) is Some <==> all_recognized(g),
        (exists|i: int| 0 <= i < CHAR_COUNT && slot_digit(g, i) is None) ==> solve_spec(g) is None,
        solve_spec(g) is Some ==> is_code(solve_spec(g).unwrap()),
        solve_spec(g) is Some ==> forall|i: int|
            0 <= i < CHAR_COUNT ==> slot_digit(g, i) == Some(#[trigger] solve_spec(g).unwrap()[i])
                && is_digit(solve_spec(g).unwrap()[i]),
{
    if solve_spec(g) is Some {
        assert forall|i: int| 0 <= i < CHAR_COUNT implies slot_digit(g, i) == Some(
            #[trigger] solve_spec(g).unwrap()[i],
        ) && is_digit(solve_spec(g).unwrap()[i]) by {
            assert(slot_digit(g, i) is Some);
            lemma_ranges_partition(
                white_count(region_pixels(region_of(g, region_start(i)))) as int,
            );
        }
    }
}

/// Reading an image is a function of its pixels: two results for the same
/// pixels are the same.
pub proof fn lemma_solve_deterministic(
    g1: Map<(int, int), u8>,
    g2: Map<(int, int), u8>,
    r1: Option<String>,
    r2: Option<String>,
)
    requires
        g1 == g2,
        code_view(r1) == solve_spec(g1),
        code_view(r2) == solve_spec(g2),
    ensures
        code_view(r1) == code_view(r2),
{
}

/// Reading a data URL is a function of its text: two results for the same
/// text are the same.
pub proof fn lemma_solve_b64_deterministic(
    t1: Seq<char>,
    t2: Seq<char>,
    r1: Option<String>,
    r2: Option<String>,
)
    requires
        t1 == t2,
        code_view(r1) == solve_b64_spec(t1),
        code_view(r2) == solve_b64_spec(t2),
    ensures
        code_view(r1) == code_view(r2),
{
}

} // verus!
