//! Averaging a pixel grid, and the entry points that decode one first.

use crate::codec::{
    base64_decoded, decode_base64, decode_rgb8, decoded_pixels, has_foreign_char,
};
use crate::color::AverageColor;
use crate::error::{Error, ErrorKind};
use crate::format::{is_unsupported_jpeg, spec_is_unsupported_jpeg};
use crate::pixel::{
    channel_max, channel_mean, channel_min, channel_total, lemma_mean_of_solid,
    lemma_mean_within_observed_range, lemma_total_push, Channel, Rgb8,
};
use vstd::prelude::*;

verus! {

/// The colour whose channels are the channel means of a grid.
/// Meaningful for a grid with at least one pixel.
pub open spec fn mean_color(pixels: Seq<Rgb8>) -> AverageColor
    recommends
        pixels.len() > 0,
{
    AverageColor(
        channel_mean(pixels, Channel::Red) as u64,
        channel_mean(pixels, Channel::Green) as u64,
        channel_mean(pixels, Channel::Blue) as u64,
    )
}

/// What averaging a grid yields: its mean colour, or `EmptyImage` for a
/// grid without pixels.
pub open spec fn average_of_pixels(pixels: Seq<Rgb8>) -> Result<AverageColor, ErrorKind> {
    if pixels.len() == 0 {
        Err(ErrorKind::EmptyImage)
    } else {
        Ok(mean_color(pixels))
    }
}

/// What averaging encoded image bytes yields: `Image` for a JPEG that is
/// not decoded and where the decoder rejects the bytes, else the average of
/// the decoded grid.
pub open spec fn average_of_bytes(bytes: Seq<u8>) -> Result<AverageColor, ErrorKind> {
    if spec_is_unsupported_jpeg(bytes) {
        Err(ErrorKind::Image)
    } else {
        match decoded_pixels(bytes) {
            Some(pixels) => average_of_pixels(pixels),
            None => Err(ErrorKind::Image),
        }
    }
}

/// What averaging a base64 text yields: `Base64` where the text is not
/// valid base64, else the average of the bytes it stands for.
pub open spec fn average_of_base64(text: Seq<char>) -> Result<AverageColor, ErrorKind> {
    match base64_decoded(text) {
        Some(bytes) => average_of_bytes(bytes),
        None => Err(ErrorKind::Base64),
    }
}

/// A result with its error reduced to the stage that failed.
pub open spec fn outcome(res: Result<AverageColor, Error>) -> Result<AverageColor, ErrorKind> {
    match res {
        Ok(color) => Ok(color),
        Err(e) => Err(e@),
    }
}

/// What holds of the result of averaging encoded image bytes: it is
/// `average_of_bytes` with the error that belongs to it, which is
/// `UnsupportedJpeg` for exactly the JPEGs that are not decoded.
pub open spec fn is_average_of_bytes(bytes: Seq<u8>, res: Result<AverageColor, Error>) -> bool {
    &&& outcome(res) == average_of_bytes(bytes)
    &&& res == Err::<AverageColor, Error>(Error::UnsupportedJpeg) <==> spec_is_unsupported_jpeg(
        bytes,
    )
    &&& res matches Ok(color) ==> color.is_8bit()
}

/// What holds of the result of averaging a base64 text: it is
/// `average_of_base64`, with a `Base64` error exactly where the text is no
/// base64, and else what holds of averaging the bytes it stands for.
pub open spec fn is_average_of_base64(text: Seq<char>, res: Result<AverageColor, Error>) -> bool {
    &&& outcome(res) == average_of_base64(text)
    &&& match base64_decoded(text) {
        Some(bytes) => is_average_of_bytes(bytes, res),
        None => res matches Err(Error::Base64(_)),
    }
}

impl AverageColor {
    /// Averages each channel over all pixels of a grid, rounding towards
    /// zero. A grid without pixels has no average: it gives `EmptyImage`.
    pub fn get_average_color(pixels: &[Rgb8]) -> (res: Result<AverageColor, Error>)
        ensures
            outcome(res) == average_of_pixels(pixels@),
            res is Err <==> pixels@.len() == 0,
            res matches Ok(color) ==> color.is_8bit(),
    {
        let n: usize = pixels.len();
        if n == 0 {
            return Err(Error::EmptyImage);
        }
        let mut red: u128 = 0;
        let mut green: u128 = 0;
        let mut blue: u128 = 0;
        for i in 0..n
            invariant
                n == pixels@.len(),
                red == channel_total(pixels@.take(i as int), Channel::Red),
                green == channel_total(pixels@.take(i as int), Channel::Green),
                blue == channel_total(pixels@.take(i as int), Channel::Blue),
                red <= 255 * i,
                green <= 255 * i,
                blue <= 255 * i,
        {
            let p = pixels[i];
            proof {
                assert(pixels@.take(i + 1) =~= pixels@.take(i as int).push(p));
                lemma_total_push(pixels@.take(i as int), p, Channel::Red);
                lemma_total_push(pixels@.take(i as int), p, Channel::Green);
                lemma_total_push(pixels@.take(i as int), p, Channel::Blue);
            }
            red = red + p.red as u128;
            green = green + p.green as u128;
            blue = blue + p.blue as u128;
        }
        proof {
            assert(pixels@.take(n as int) =~= pixels@);
            lemma_mean_within_observed_range(pixels@, Channel::Red);
            lemma_mean_within_observed_range(pixels@, Channel::Green);
            lemma_mean_within_observed_range(pixels@, Channel::Blue);
        }
        let count: u128 = n as u128;
        Ok(AverageColor((red / count) as u64, (green / count) as u64, (blue / count) as u64))
    }

    /// Finishes the work on what the image decoder returned: hands its
    /// error on unchanged, or averages the pixels it decoded.
    pub fn from_decoded_pixels(decoded: Result<Vec<Rgb8>, image::ImageError>) -> (res: Result<
        AverageColor,
        Error,
    >)
        ensures
            decoded matches Err(e) ==> res == Err::<AverageColor, Error>(Error::Image(e)),
            decoded matches Ok(pixels) ==> outcome(res) == average_of_pixels(pixels@),
            res matches Ok(color) ==> color.is_8bit(),
    {
        match decoded {
            Ok(pixels) => Self::get_average_color(pixels.as_slice()),
            Err(e) => Err(Error::Image(e)),
        }
    }

    /// Decodes the image held in `image_bytes`, whatever its format, and
    /// averages its pixels. A lossless JPEG whose samples the decoder cannot
    /// hold is refused.
    pub fn from_bytes(image_bytes: &[u8]) -> (res: Result<AverageColor, Error>)
        ensures
            is_average_of_bytes(image_bytes@, res),
    {
        if is_unsupported_jpeg(image_bytes) {
            return Err(Error::UnsupportedJpeg);
        }
        Self::from_decoded_pixels(decode_rgb8(image_bytes))
    }

    /// Finishes the work on what the base64 decoder returned: hands its
    /// error on unchanged, or averages the image in the bytes it decoded.
    pub fn from_decoded_base64(decoded: Result<Vec<u8>, base64::DecodeError>) -> (res: Result<
        AverageColor,
        Error,
    >)
        ensures
            decoded matches Err(e) ==> res == Err::<AverageColor, Error>(Error::Base64(e)),
            decoded matches Ok(image_bytes) ==> is_average_of_bytes(image_bytes@, res),
    {
        match decoded {
            Ok(image_bytes) => Self::from_bytes(image_bytes.as_slice()),
            Err(e) => Err(Error::Base64(e)),
        }
    }

    /// Decodes `base64` to bytes, decodes those as an image and averages
    /// its pixels.
    pub fn from_base64(base64: &str) -> (res: Result<AverageColor, Error>)
        ensures
            is_average_of_base64(base64@, res),
            has_foreign_char(base64@) ==> res matches Err(Error::Base64(_)),
    {
        Self::from_decoded_base64(decode_base64(base64))
    }
}

/// The average of a grid made of one pixel repeated, however many times, is
/// exactly that pixel's colour.
pub proof fn lemma_average_of_solid(pixels: Seq<Rgb8>, p: Rgb8)
    requires
        pixels.len() > 0,
        forall|i: int| 0 <= i < pixels.len() ==> #[trigger] pixels[i] == p,
    ensures
        average_of_pixels(pixels) == Ok::<AverageColor, ErrorKind>(
            AverageColor(p.red as u64, p.green as u64, p.blue as u64),
        ),
{
    lemma_mean_of_solid(pixels, p, Channel::Red);
    lemma_mean_of_solid(pixels, p, Channel::Green);
    lemma_mean_of_solid(pixels, p, Channel::Blue);
}

/// Each channel of the average of a grid lies between the smallest and the
/// largest value of that channel among the grid's pixels.
pub proof fn lemma_average_within_observed_range(pixels: Seq<Rgb8>)
    requires
        pixels.len() > 0,
    ensures
        average_of_pixels(pixels) == Ok::<AverageColor, ErrorKind>(mean_color(pixels)),
        channel_min(pixels, Channel::Red) <= mean_color(pixels).0 <= channel_max(
            pixels,
            Channel::Red,
        ),
        channel_min(pixels, Channel::Green) <= mean_color(pixels).1 <= channel_max(
            pixels,
            Channel::Green,
        ),
        channel_min(pixels, Channel::Blue) <= mean_color(pixels).2 <= channel_max(
            pixels,
            Channel::Blue,
        ),
        mean_color(pixels).is_8bit(),
{
    lemma_mean_within_observed_range(pixels, Channel::Red);
    lemma_mean_within_observed_range(pixels, Channel::Green);
    lemma_mean_within_observed_range(pixels, Channel::Blue);
}

/// Averaging never succeeds on a grid without pixels and never fails on
/// one with pixels.
pub proof fn lemma_average_fails_iff_empty(pixels: Seq<Rgb8>)
    ensures
        average_of_pixels(pixels) is Err <==> pixels.len() == 0,
        pixels.len() == 0 ==> average_of_pixels(pixels) == Err::<AverageColor, ErrorKind>(
            ErrorKind::EmptyImage,
        ),
{
}

/// A base64 text and the bytes it decodes to give the same average, and
/// fail in the same way where they fail.
pub proof fn lemma_base64_agrees_with_bytes(text: Seq<char>, bytes: Seq<u8>)
    requires
        base64_decoded(text) == Some(bytes),
    ensures
        average_of_base64(text) == average_of_bytes(bytes),
{
}

} // verus!
