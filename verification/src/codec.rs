//! From a data URL to an image: the prefix, the base64 payload, the image
//! container. The last two are the work of the `base64` and `image` crates.

use vstd::prelude::*;
use vstd::string::*;

verus! {

/// Why the `image` crate could not decode a buffer.
#[verifier::external_type_specification]
#[verifier::external_body]
pub struct ExImageError(image::ImageError);

/// The bytes that the standard padded base64 alphabet decodes `text` to, or
/// `None` where `text` is not valid base64.
pub uninterp spec fn base64_decoded(text: Seq<char>) -> Option<Seq<u8>>;

/// A container format that the `image` crate knows by name.
#[verifier::external_type_specification]
#[verifier::external_body]
pub struct ExImageFormat(image::ImageFormat);

/// The container format that the first bytes of `bytes` are the signature
/// of, or `None` where they are the signature of none.
pub uninterp spec fn guessed_format(bytes: Seq<u8>) -> Option<image::ImageFormat>;

/// The image that `bytes` hold when read as a container of the given
/// format, or `None` where they cannot be read as one.
pub uninterp spec fn decoded_as(bytes: Seq<u8>, format: image::ImageFormat) -> Option<
    image::DynamicImage,
>;

/// The image that `bytes` hold in the container format that their
/// signature names, or `None` where they hold none.
pub open spec fn decoded_image(bytes: Seq<u8>) -> Option<image::DynamicImage> {
    match guessed_format(bytes) {
        Some(format) => decoded_as(bytes, format),
        None => None,
    }
}

/// Whether `c` may occur in padded base64 text of the standard alphabet.
pub open spec fn is_base64_symbol(c: char) -> bool {
    ||| 'A' <= c <= 'Z'
    ||| 'a' <= c <= 'z'
    ||| '0' <= c <= '9'
    ||| c == '+'
    ||| c == '/'
    ||| c == '='
}

/// Calls `Engine::decode` of `base64::engine::general_purpose::STANDARD`.
///
/// Believed, not proved: the outcome depends on the text alone, and a text
/// that decodes holds only ASCII letters, digits, `+`, `/` and `=`. The crate's
/// error is dropped here: every failure is the same to the callers.
#[verifier::external_body]
pub(crate) fn base64_decode(text: &str) -> (r: Option<Vec<u8>>)
    ensures
        match r {
            Some(bytes) => base64_decoded(text@) == Some(bytes@),
            None => base64_decoded(text@) is None,
        },
        r is Some ==> forall|i: int| 0 <= i < text@.len() ==> is_base64_symbol(#[trigger] text@[i]),
{
    base64::Engine::decode(&base64::engine::general_purpose::STANDARD, text).ok()
}

/// Calls `image::guess_format`, which holds the bytes against the crate's
/// fixed table of signatures.
///
/// Believed, not proved: the outcome depends on the bytes alone.
#[verifier::external_body]
pub(crate) fn guess_image_format(bytes: &[u8]) -> (r: Result<
    image::ImageFormat,
    image::ImageError,
>)
    ensures
        match r {
            Ok(format) => guessed_format(bytes@) == Some(format),
            Err(_) => guessed_format(bytes@) is None,
        },
{
    image::guess_format(bytes)
}

/// Calls `image::load_from_memory_with_format`, which reads the bytes with
/// the crate's own decoder for the format.
///
/// Believed, not proved: the outcome depends on the bytes and the format
/// alone.
#[verifier::external_body]
pub(crate) fn load_image_as(bytes: &[u8], format: image::ImageFormat) -> (r: Result<
    image::DynamicImage,
    image::ImageError,
>)
    ensures
        match r {
            Ok(img) => decoded_as(bytes@, format) == Some(img),
            Err(_) => decoded_as(bytes@, format) is None,
        },
{
    image::load_from_memory_with_format(bytes, format)
}

/// Why a text could not be turned into an image.
#[derive(Clone, Copy, Debug, PartialEq, Eq)]
pub enum DecodeError {
    /// The text does not start with the data-URL prefix.
    PrefixMismatch,
    /// What follows the prefix is not valid base64.
    Base64Error,
    /// The decoded bytes are not an image in a supported format.
    ImageDecodeError,
}

/// The prefix that marks a base64-encoded GIF data URL.
pub open spec fn prefix_spec() -> Seq<char> {
    "data:image/gif;base64,"@
}

/// Whether `text` starts with the data-URL prefix.
pub open spec fn has_prefix(text: Seq<char>) -> bool {
    prefix_spec().len() <= text.len() && text.take(prefix_spec().len() as int) == prefix_spec()
}

/// What follows the data-URL prefix in `text`.
pub open spec fn payload_of(text: Seq<char>) -> Seq<char> {
    text.skip(prefix_spec().len() as int)
}

/// The image that `text` encodes, or the first step at which decoding fails.
pub open spec fn decode_spec(text: Seq<char>) -> Result<image::DynamicImage, DecodeError> {
    if !has_prefix(text) {
        Err(DecodeError::PrefixMismatch)
    } else {
        match base64_decoded(payload_of(text)) {
            None => Err(DecodeError::Base64Error),
            Some(bytes) => match decoded_image(bytes) {
                None => Err(DecodeError::ImageDecodeError),
                Some(img) => Ok(img),
            },
        }
    }
}

/// The data-URL prefix.
pub fn data_url_prefix() -> (p: &'static str)
    ensures
        p@ == prefix_spec(),
        p@.len() == 22,
{
    proof {
        reveal_strlit("data:image/gif;base64,");
    }
    "data:image/gif;base64,"
}

/// Takes the data-URL prefix off `text`, if it starts with it.
pub fn strip_data_url_prefix(text: &str) -> (r: Option<&str>)
    ensures
        r is Some <==> has_prefix(text@),
        r is Some ==> r.unwrap()@ == payload_of(text@),
{
    let prefix = data_url_prefix();
    let m: usize = prefix.unicode_len();
    let n: usize = text.unicode_len();
    if n < m {
        return None;
    }
    let mut i: usize = 0;
    while i < m
        invariant
            i <= m <= n,
            m == prefix@.len(),
            n == text@.len(),
            prefix@ == prefix_spec(),
            forall|j: int| 0 <= j < i ==> text@[j] == prefix@[j],
        decreases m - i,
    {
        if text.get_char(i) != prefix.get_char(i) {
            assert(text@.take(m as int)[i as int] != prefix@[i as int]);
            return None;
        }
        i += 1;
    }
    assert(text@.take(m as int) =~= prefix@);
    let rest = text.substring_char(m, n);
    assert(rest@ =~= payload_of(text@));
    Some(rest)
}

/// Decodes the bytes of an image container of the given format.
pub fn decode_image_as(bytes: &[u8], format: image::ImageFormat) -> (r: Result<
    image::DynamicImage,
    DecodeError,
>)
    ensures
        match decoded_as(bytes@, format) {
            Some(img) => r == Ok::<image::DynamicImage, DecodeError>(img),
            None => r == Err::<image::DynamicImage, DecodeError>(DecodeError::ImageDecodeError),
        },
{
    match load_image_as(bytes, format) {
        Ok(img) => Ok(img),
        Err(_) => Err(DecodeError::ImageDecodeError),
    }
}

/// Decodes the bytes of an image container, in the format that their
/// signature names.
pub fn decode_image_bytes(bytes: &[u8]) -> (r: Result<image::DynamicImage, DecodeError>)
    ensures
        match decoded_image(bytes@) {
            Some(img) => r == Ok::<image::DynamicImage, DecodeError>(img),
            None => r == Err::<image::DynamicImage, DecodeError>(DecodeError::ImageDecodeError),
        },
        guessed_format(bytes@) is None ==> r == Err::<image::DynamicImage, DecodeError>(
            DecodeError::ImageDecodeError,
        ),
{
    match guess_image_format(bytes) {
        Ok(format) => decode_image_as(bytes, format),
        Err(_) => Err(DecodeError::ImageDecodeError),
    }
}

/// Decodes the base64 text that follows the prefix of a data URL.
pub fn decode_payload(payload: &str) -> (r: Result<Vec<u8>, DecodeError>)
    ensures
        match r {
            Ok(bytes) => base64_decoded(payload@) == Some(bytes@),
            Err(e) => base64_decoded(payload@) is None && e == DecodeError::Base64Error,
        },
        r is Ok ==> forall|i: int|
            0 <= i < payload@.len() ==> is_base64_symbol(#[trigger] payload@[i]),
{
    match base64_decode(payload) {
        Some(bytes) => Ok(bytes),
        None => Err(DecodeError::Base64Error),
    }
}

/// Turns a base64 data URL into the image that it encodes.
pub fn decode(input: &str) -> (r: Result<image::DynamicImage, DecodeError>)
    ensures
        r == decode_spec(input@),
        !has_prefix(input@) ==> r == Err::<image::DynamicImage, DecodeError>(
            DecodeError::PrefixMismatch,
        ),
        has_prefix(input@) && (exists|i: int|
            0 <= i < payload_of(input@).len() && !is_base64_symbol(payload_of(input@)[i])) ==> r
            == Err::<image::DynamicImage, DecodeError>(DecodeError::Base64Error),
{
    match strip_data_url_prefix(input) {
        None => Err(DecodeError::PrefixMismatch),
        Some(payload) => match decode_payload(payload) {
            Err(e) => Err(e),
            Ok(bytes) => decode_image_bytes(bytes.as_slice()),
        },
    }
}

} // verus!
