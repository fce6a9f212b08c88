//! What the leading bytes and the JPEG segment structure of an input say
//! about it, read before the bytes are handed to the image decoder.

use vstd::prelude::*;

verus! {

/// Marker byte of a lossless, Huffman-coded JPEG frame header.
pub const LOSSLESS_FRAME: u8 = 0xC3;

/// Whether the bytes begin with the JPEG signature `FF D8 FF`.
pub open spec fn has_jpeg_signature(bytes: Seq<u8>) -> bool {
    bytes.len() >= 3 && bytes[0] == 0xFF && bytes[1] == 0xD8 && bytes[2] == 0xFF
}

/// Whether a marker byte opens a JPEG frame header (SOF0 to SOF15).
pub open spec fn is_frame_marker(marker: u8) -> bool {
    0xC0 <= marker <= 0xCF && marker != 0xC4 && marker != 0xC8 && marker != 0xCC
}

/// Whether a marker byte opens a segment that may stand before the frame
/// header and is passed over by its length: a Huffman or quantisation
/// table, a restart interval, application data or a comment.
pub open spec fn is_leading_segment(marker: u8) -> bool {
    marker == 0xC4 || marker == 0xDB || marker == 0xDD || marker == 0xFE || 0xE0 <= marker <= 0xEF
}

/// The next marker at or after `pos` and the position behind it. A marker
/// is a byte other than `00` and `FF` that follows an `FF`; bytes before the
/// `FF`, further `FF` bytes and the stuffed pair `FF 00` are passed over.
pub open spec fn next_marker(bytes: Seq<u8>, pos: int) -> Option<(u8, int)>
    decreases bytes.len() - pos,
{
    if pos < 0 || pos + 1 >= bytes.len() {
        None
    } else if bytes[pos] != 0xFF {
        next_marker(bytes, pos + 1)
    } else if bytes[pos + 1] == 0xFF {
        next_marker(bytes, pos + 1)
    } else if bytes[pos + 1] == 0x00 {
        next_marker(bytes, pos + 2)
    } else {
        Some((bytes[pos + 1], pos + 2))
    }
}

/// The big-endian 16-bit length that a segment states of itself at `pos`.
pub open spec fn segment_length(bytes: Seq<u8>, pos: int) -> int {
    bytes[pos] * 256 + bytes[pos + 1]
}

/// The marker of the first frame header met when walking the segments from
/// `pos`, with the position behind it, or `None` where the walk ends
/// without one: at the end of the input, at a segment shorter than its own
/// length field or longer than the rest of the input, or at a marker that
/// may not stand before the frame header.
pub open spec fn first_frame(bytes: Seq<u8>, pos: int) -> Option<(u8, int)>
    decreases bytes.len() - pos,
{
    if pos < 0 || pos + 1 >= bytes.len() {
        None
    } else {
        match next_marker(bytes, pos) {
            Some((marker, behind)) => {
                if is_frame_marker(marker) {
                    Some((marker, behind))
                } else if is_leading_segment(marker) && pos < behind && behind + 1 < bytes.len()
                    && 2 <= segment_length(bytes, behind) <= bytes.len() - behind {
                    first_frame(bytes, behind + segment_length(bytes, behind))
                } else {
                    None
                }
            },
            None => None,
        }
    }
}

/// Whether lossless samples of this precision, in a frame of this many
/// components, come out of the decoder two bytes each where a buffer of
/// one byte each awaits them: any precision but 8 in a frame of three or
/// four components, and a precision below 8 in a frame of one.
pub open spec fn overfills_sample_buffer(precision: u8, components: u8) -> bool {
    2 <= precision <= 16 && precision != 8 && (components == 3 || components == 4 || (components
        == 1 && precision < 8))
}

/// Whether the input is a JPEG that is not decoded: its first frame header
/// is lossless and Huffman-coded, and states a sample precision and a
/// component count for which `overfills_sample_buffer` holds. The header
/// holds the precision two bytes behind the marker, after its length, and
/// the component count seven bytes behind the marker, after the height and
/// the width.
pub open spec fn spec_is_unsupported_jpeg(bytes: Seq<u8>) -> bool {
    has_jpeg_signature(bytes) && match first_frame(bytes, 2) {
        Some((marker, behind)) => marker == LOSSLESS_FRAME && behind + 8 <= bytes.len()
            && overfills_sample_buffer(bytes[behind + 2], bytes[behind + 7]),
        None => false,
    }
}

/// Finds the next marker at or after `pos`.
fn find_marker(bytes: &[u8], pos: usize) -> (found: Option<(u8, usize)>)
    requires
        pos <= bytes@.len(),
    ensures
        match found {
            Some((marker, behind)) => next_marker(bytes@, pos as int) == Some(
                (marker, behind as int),
            ) && pos + 2 <= behind <= bytes@.len(),
            None => next_marker(bytes@, pos as int) is None,
        },
{
    let n: usize = bytes.len();
    let mut i: usize = pos;
    while i < n && n - i >= 2
        invariant
            n == bytes@.len(),
            pos <= i <= n,
            next_marker(bytes@, pos as int) == next_marker(bytes@, i as int),
        decreases n - i,
    {
        if bytes[i] != 0xFF {
            i = i + 1;
        } else if bytes[i + 1] == 0xFF {
            i = i + 1;
        } else if bytes[i + 1] == 0x00 {
            i = i + 2;
        } else {
            return Some((bytes[i + 1], i + 2));
        }
    }
    None
}

/// Tells whether the input is a JPEG that is not decoded.
pub fn is_unsupported_jpeg(bytes: &[u8]) -> (unsupported: bool)
    ensures
        unsupported == spec_is_unsupported_jpeg(bytes@),
{
    let n: usize = bytes.len();
    if n < 3 || bytes[0] != 0xFF || bytes[1] != 0xD8 || bytes[2] != 0xFF {
        return false;
    }
    let mut pos: usize = 2;
    loop
        invariant
            n == bytes@.len(),
            has_jpeg_signature(bytes@),
            2 <= pos <= n,
            first_frame(bytes@, 2) == first_frame(bytes@, pos as int),
        decreases n - pos,
    {
        match find_marker(bytes, pos) {
            None => {
                return false;
            },
            Some((marker, behind)) => {
                if 0xC0 <= marker && marker <= 0xCF && marker != 0xC4 && marker != 0xC8 && marker
                    != 0xCC {
                    if marker != LOSSLESS_FRAME || n - behind < 8 {
                        return false;
                    }
                    let precision: u8 = bytes[behind + 2];
                    let components: u8 = bytes[behind + 7];
                    return 2 <= precision && precision <= 16 && precision != 8 && (components == 3
                        || components == 4 || (components == 1 && precision < 8));
                }
                let leading = marker == 0xC4 || marker == 0xDB || marker == 0xDD || marker == 0xFE
                    || (0xE0 <= marker && marker <= 0xEF);
                if !leading || n - behind < 2 {
                    return false;
                }
                let length: usize = (bytes[behind] as usize) * 256 + (bytes[behind + 1] as usize);
                if length < 2 {
                    return false;
                }
                if length > n - behind {
                    return false;
                }
                pos = behind + length;
            },
        }
    }
}

} // verus!
