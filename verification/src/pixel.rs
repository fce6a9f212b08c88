//! Pixels of a decoded image and the arithmetic of their channel means.

use vstd::prelude::*;

verus! {

/// One of the three colour components of a pixel.
#[derive(Debug, Clone, Copy, PartialEq, Eq, Structural)]
pub enum Channel {
    Red,
    Green,
    Blue,
}

/// One pixel of a decoded image: three 8-bit channel values.
#[derive(Debug, Clone, Copy, PartialEq, Eq, Structural)]
pub struct Rgb8 {
    pub red: u8,
    pub green: u8,
    pub blue: u8,
}

impl Rgb8 {
    /// The value of one channel of the pixel.
    pub open spec fn channel(self, c: Channel) -> int {
        match c {
            Channel::Red => self.red as int,
            Channel::Green => self.green as int,
            Channel::Blue => self.blue as int,
        }
    }
}

/// The sum of one channel over all pixels of a grid.
pub open spec fn channel_total(pixels: Seq<Rgb8>, c: Channel) -> int
    decreases pixels.len(),
{
    if pixels.len() == 0 {
        0
    } else {
        channel_total(pixels.drop_last(), c) + pixels.last().channel(c)
    }
}

/// The mean of one channel over a grid, rounded towards zero.
/// Meaningful for a grid with at least one pixel.
pub open spec fn channel_mean(pixels: Seq<Rgb8>, c: Channel) -> int
    recommends
        pixels.len() > 0,
{
    channel_total(pixels, c) / (pixels.len() as int)
}

/// The smallest value of one channel in a grid (255 for the empty grid).
pub open spec fn channel_min(pixels: Seq<Rgb8>, c: Channel) -> int
    decreases pixels.len(),
{
    if pixels.len() == 0 {
        255
    } else {
        let rest = channel_min(pixels.drop_last(), c);
        let here = pixels.last().channel(c);
        if here < rest {
            here
        } else {
            rest
        }
    }
}

/// The largest value of one channel in a grid (0 for the empty grid).
pub open spec fn channel_max(pixels: Seq<Rgb8>, c: Channel) -> int
    decreases pixels.len(),
{
    if pixels.len() == 0 {
        0
    } else {
        let rest = channel_max(pixels.drop_last(), c);
        let here = pixels.last().channel(c);
        if here > rest {
            here
        } else {
            rest
        }
    }
}

/// Appending a pixel adds its channel value to the total.
pub proof fn lemma_total_push(pixels: Seq<Rgb8>, p: Rgb8, c: Channel)
    ensures
        channel_total(pixels.push(p), c) == channel_total(pixels, c) + p.channel(c),
{
    assert(pixels.push(p).drop_last() =~= pixels);
}

/// If every value of a channel lies between `lo` and `hi`, the total lies
/// between `lo` and `hi` times the pixel count.
pub proof fn lemma_total_bounds(pixels: Seq<Rgb8>, c: Channel, lo: int, hi: int)
    requires
        forall|i: int| 0 <= i < pixels.len() ==> lo <= (#[trigger] pixels[i]).channel(c) <= hi,
    ensures
        lo * pixels.len() <= channel_total(pixels, c) <= hi * pixels.len(),
    decreases pixels.len(),
{
    if pixels.len() > 0 {
        let rest = pixels.drop_last();
        assert forall|i: int| 0 <= i < rest.len() implies lo <= (#[trigger] rest[i]).channel(c)
            <= hi by {
            assert(rest[i] == pixels[i]);
        }
        lemma_total_bounds(rest, c, lo, hi);
        assert(lo <= pixels[pixels.len() - 1].channel(c) <= hi);
        assert(lo * pixels.len() == lo * rest.len() + lo) by (nonlinear_arith)
            requires
                pixels.len() == rest.len() + 1,
        ;
        assert(hi * pixels.len() == hi * rest.len() + hi) by (nonlinear_arith)
            requires
                pixels.len() == rest.len() + 1,
        ;
    } else {
        assert(lo * pixels.len() == 0 && hi * pixels.len() == 0) by (nonlinear_arith)
            requires
                pixels.len() == 0,
        ;
    }
}

/// If every value of a channel lies between `lo` and `hi`, so does the mean.
pub proof fn lemma_mean_bounds(pixels: Seq<Rgb8>, c: Channel, lo: int, hi: int)
    requires
        pixels.len() > 0,
        forall|i: int| 0 <= i < pixels.len() ==> lo <= (#[trigger] pixels[i]).channel(c) <= hi,
    ensures
        lo <= channel_mean(pixels, c) <= hi,
{
    lemma_total_bounds(pixels, c, lo, hi);
    let n = pixels.len() as int;
    let total = channel_total(pixels, c);
    assert(lo <= total / n <= hi) by (nonlinear_arith)
        requires
            n > 0,
            lo * n <= total <= hi * n,
    ;
}

/// The minimum and the maximum of a channel are values of pixels of the
/// grid, and every pixel of the grid lies between them.
pub proof fn lemma_min_max_attained(pixels: Seq<Rgb8>, c: Channel)
    requires
        pixels.len() > 0,
    ensures
        forall|i: int|
            0 <= i < pixels.len() ==> channel_min(pixels, c) <= (#[trigger] pixels[i]).channel(c)
                <= channel_max(pixels, c),
        exists|i: int| 0 <= i < pixels.len() && (#[trigger] pixels[i]).channel(c) == channel_min(
            pixels,
            c,
        ),
        exists|i: int| 0 <= i < pixels.len() && (#[trigger] pixels[i]).channel(c) == channel_max(
            pixels,
            c,
        ),
    decreases pixels.len(),
{
    let rest = pixels.drop_last();
    let last = pixels.len() - 1;
    if rest.len() == 0 {
        assert(channel_min(rest, c) == 255);
        assert(channel_max(rest, c) == 0);
        assert(pixels[last].channel(c) == channel_min(pixels, c));
        assert(pixels[last].channel(c) == channel_max(pixels, c));
    } else {
        lemma_min_max_attained(rest, c);
        assert forall|i: int| 0 <= i < pixels.len() implies channel_min(pixels, c) <= (
        #[trigger] pixels[i]).channel(c) <= channel_max(pixels, c) by {
            if i < last {
                assert(rest[i] == pixels[i]);
            }
        }
        let lo = choose|i: int|
            0 <= i < rest.len() && (#[trigger] rest[i]).channel(c) == channel_min(rest, c);
        let hi = choose|i: int|
            0 <= i < rest.len() && (#[trigger] rest[i]).channel(c) == channel_max(rest, c);
        assert(rest[lo] == pixels[lo]);
        assert(rest[hi] == pixels[hi]);
        if pixels[last].channel(c) < channel_min(rest, c) {
            assert(pixels[last].channel(c) == channel_min(pixels, c));
        } else {
            assert(pixels[lo].channel(c) == channel_min(pixels, c));
        }
        if pixels[last].channel(c) > channel_max(rest, c) {
            assert(pixels[last].channel(c) == channel_max(pixels, c));
        } else {
            assert(pixels[hi].channel(c) == channel_max(pixels, c));
        }
    }
}

/// Averaging never leaves the observed range: the mean of a channel lies
/// between the smallest and the largest value of that channel in the grid.
pub proof fn lemma_mean_within_observed_range(pixels: Seq<Rgb8>, c: Channel)
    requires
        pixels.len() > 0,
    ensures
        channel_min(pixels, c) <= channel_mean(pixels, c) <= channel_max(pixels, c),
        0 <= channel_mean(pixels, c) <= 255,
{
    lemma_min_max_attained(pixels, c);
    lemma_mean_bounds(pixels, c, channel_min(pixels, c), channel_max(pixels, c));
    lemma_mean_bounds(pixels, c, 0, 255);
}

/// The mean of a channel over a grid of one repeated pixel is that pixel's
/// channel value.
pub proof fn lemma_mean_of_solid(pixels: Seq<Rgb8>, p: Rgb8, c: Channel)
    requires
        pixels.len() > 0,
        forall|i: int| 0 <= i < pixels.len() ==> #[trigger] pixels[i] == p,
    ensures
        channel_mean(pixels, c) == p.channel(c),
{
    lemma_mean_bounds(pixels, c, p.channel(c), p.channel(c));
}

} // verus!
