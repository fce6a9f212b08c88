//! The boundary to the image and base64 decoders.
//!
//! Nothing in this module is proved: the contracts below are taken on trust
//! from the `image` and `base64` crates. Each decoder's result is a
//! function of its input alone, so it is given a name that the rest of the
//! library reasons with. The image decoder is built with the formats BMP,
//! GIF, JPEG and PNG, none of which has floating-point samples, and with a
//! JPEG decoder that computes alike on every platform.

use crate::format::spec_is_unsupported_jpeg;
use crate::pixel::Rgb8;
use vstd::prelude::*;

verus! {

/// The error type of the `image` crate, carried through unread.
#[verifier::external_type_specification]
#[verifier::external_body]
pub struct ExImageError(image::ImageError);

/// The error type of the `base64` crate, carried through unread.
#[verifier::external_type_specification]
#[verifier::external_body]
pub struct ExDecodeError(base64::DecodeError);

/// The pixels that the `image` crate decodes from `bytes`, row by row and
/// flattened to 8-bit RGB, or `None` where it rejects the bytes.
pub uninterp spec fn decoded_pixels(bytes: Seq<u8>) -> Option<Seq<Rgb8>>;

/// The bytes that the `base64` crate decodes from `text` with its standard
/// alphabet, or `None` where it rejects the text.
pub uninterp spec fn base64_decoded(text: Seq<char>) -> Option<Seq<u8>>;

/// Whether a character is one of the 64 symbols of the standard base64
/// alphabet or the padding character `=`.
pub open spec fn is_base64_char(c: char) -> bool {
    let code = c as u32;
    (0x41 <= code <= 0x5A) || (0x61 <= code <= 0x7A) || (0x30 <= code <= 0x39) || code == 0x2B
        || code == 0x2F || code == 0x3D
}

/// Whether a text holds a character that base64 has no use for.
pub open spec fn has_foreign_char(text: Seq<char>) -> bool {
    exists|i: int| 0 <= i < text.len() && !is_base64_char(#[trigger] text[i])
}

/// Calls `image::load_from_memory`, which guesses the format from the
/// leading bytes and decodes the image, then `DynamicImage::to_rgb8`, which
/// converts it to 8-bit RGB, and hands out the pixels of `ImageBuffer::pixels`
/// in its order: left to right, then top to bottom.
///
/// A lossless JPEG whose samples overfill the buffer is left out: the
/// decoder's adapter copies the samples into a buffer sized for one byte
/// each and panics where they come two bytes each. On all other input the
/// contract claims that the outcome is `decoded_pixels` of the input: an
/// error exactly where that is `None`.
#[verifier::external_body]
pub(crate) fn decode_rgb8(bytes: &[u8]) -> (res: Result<Vec<Rgb8>, image::ImageError>)
    requires
        !spec_is_unsupported_jpeg(bytes@),
    ensures
        match res {
            Ok(pixels) => decoded_pixels(bytes@) == Some(pixels@),
            Err(_) => decoded_pixels(bytes@) is None,
        },
{
    let decoded = image::load_from_memory(bytes)?.to_rgb8();
    Ok(decoded.pixels().map(|p| Rgb8 { red: p.0[0], green: p.0[1], blue: p.0[2] }).collect())
}

/// Calls `base64::decode`, which decodes text in the standard alphabet.
///
/// The contract claims that the outcome is `base64_decoded` of the input,
/// an error exactly where that is `None`, and that a text with a character
/// outside the alphabet and the padding is rejected: the decoder looks
/// every byte up and fails on the first that has no value.
#[verifier::external_body]
pub(crate) fn decode_base64(text: &str) -> (res: Result<Vec<u8>, base64::DecodeError>)
    ensures
        match res {
            Ok(bytes) => base64_decoded(text@) == Some(bytes@),
            Err(_) => base64_decoded(text@) is None,
        },
        has_foreign_char(text@) ==> res is Err,
{
    base64::decode(text)
}

} // verus!
