use vstd::prelude::*;

use crate::geometry::ImageGeometry;
use crate::geometry::Viewport;

verus! {

/// Classification of one complex point `c` by the escape-time iteration
/// `z = z*z + c`, started at `z = 0` and capped at a configured number of
/// steps.
#[derive(Clone, Copy, Debug, PartialEq, Eq, Structural)]
pub enum EscapeResult {
    /// The squared magnitude of `z` first exceeded 4 right after the update
    /// with this 0-based iteration index.
    Escaped(u32),
    /// The iteration cap was reached without the squared magnitude of `z`
    /// exceeding 4; the point is presumed to lie in the Mandelbrot set.
    Bounded,
}

/// The intensity byte a classification is drawn with: bounded points are
/// black, and an escape at iteration `i` gives `255 - i`, taken modulo 256
/// as the wrapping cast of `i` to a byte would — so the fastest escapes are
/// near white.
pub open spec fn shade_spec(e: EscapeResult) -> u8 {
    match e {
        EscapeResult::Bounded => 0u8,
        EscapeResult::Escaped(i) => (255 - i % 256) as u8,
    }
}

/// Maps one escape classification to its intensity byte.
pub fn shade(e: EscapeResult) -> (b: u8)
    ensures
        b == shade_spec(e),
{
    match e {
        EscapeResult::Bounded => 0u8,
        EscapeResult::Escaped(i) => {
            let low: u32 = i % 256;
            (255 - low) as u8
        },
    }
}

/// The buffer `pixels` is a finished rendering of the classifications
/// `escapes`: same length, and every byte is the shade of its pixel's
/// classification.
pub open spec fn rendered(escapes: Seq<EscapeResult>, pixels: Seq<u8>) -> bool {
    &&& pixels.len() == escapes.len()
    &&& forall|i: int| 0 <= i < pixels.len() ==> pixels[i] == shade_spec(escapes[i])
}

/// The rendered buffer is a function of the escape classifications alone:
/// any two buffers that satisfy the renderer's postcondition for the same
/// classifications are byte-identical. Hence repeated renders of one
/// configuration agree, and so do renders that split the image into bands
/// differently or process bands in a different order.
pub proof fn lemma_output_determined(escapes: Seq<EscapeResult>, p1: Seq<u8>, p2: Seq<u8>)
    requires
        rendered(escapes, p1),
        rendered(escapes, p2),
    ensures
        p1 == p2,
{
    assert(p1 =~= p2);
}

/// Shades one band of `len` consecutive classifications, starting at
/// `start`, into a fresh byte vector.
pub fn shade_band(escapes: &Vec<EscapeResult>, start: usize, len: usize) -> (band: Vec<u8>)
    requires
        start + len <= escapes@.len(),
    ensures
        band@.len() == len,
        forall|i: int| 0 <= i < len ==> band@[i] == shade_spec(escapes@[start + i]),
{
    let mut band: Vec<u8> = Vec::new();
    let total: usize = escapes.len();
    for k in 0..len
        invariant
            start + len <= total,
            total == escapes@.len(),
            band@.len() == k,
            forall|i: int| 0 <= i < k ==> band@[i] == shade_spec(escapes@[start + i]),
    {
        band.push(shade(escapes[start + k]));
    }
    band
}

/// The buffer `p` with the range `[offset, offset + band.len())` replaced
/// by `band` and every other byte kept.
pub open spec fn overwrite(p: Seq<u8>, offset: int, band: Seq<u8>) -> Seq<u8> {
    Seq::new(
        p.len(),
        |i: int|
            if offset <= i < offset + band.len() {
                band[i - offset]
            } else {
                p[i]
            },
    )
}

/// Writes to disjoint bands commute: when two bands do not overlap, the
/// buffer that results from writing both does not depend on which write
/// lands first. Band processing therefore needs no ordering between
/// workers — only the final join — for the output to be well defined.
pub proof fn lemma_disjoint_band_writes_commute(
    p: Seq<u8>,
    o1: int,
    b1: Seq<u8>,
    o2: int,
    b2: Seq<u8>,
)
    requires
        0 <= o1,
        o1 + b1.len() <= p.len(),
        0 <= o2,
        o2 + b2.len() <= p.len(),
        o1 + b1.len() <= o2 || o2 + b2.len() <= o1,
    ensures
        overwrite(overwrite(p, o1, b1), o2, b2) == overwrite(overwrite(p, o2, b2), o1, b1),
{
    assert(overwrite(overwrite(p, o1, b1), o2, b2) =~= overwrite(overwrite(p, o2, b2), o1, b1));
}

/// Copies a shaded band into the pixel buffer at `offset`, leaving every
/// byte outside `[offset, offset + band.len())` untouched. Bands written at
/// disjoint offsets therefore never disturb one another.
pub fn write_band(pixels: &mut Vec<u8>, offset: usize, band: &Vec<u8>)
    requires
        offset + band@.len() <= old(pixels)@.len(),
    ensures
        final(pixels)@ == overwrite(old(pixels)@, offset as int, band@),
        final(pixels)@.len() == old(pixels)@.len(),
        forall|i: int| 0 <= i < band@.len() ==> final(pixels)@[offset + i] == band@[i],
        forall|i: int|
            0 <= i < old(pixels)@.len() && !(offset <= i < offset + band@.len())
                ==> final(pixels)@[i] == old(pixels)@[i],
{
    let len: usize = band.len();
    let buf_len: usize = pixels.len();
    for j in 0..len
        invariant
            len == band@.len(),
            offset + len <= buf_len,
            buf_len == old(pixels)@.len(),
            pixels@.len() == old(pixels)@.len(),
            forall|i: int| 0 <= i < j ==> pixels@[offset + i] == band@[i],
            forall|i: int|
                0 <= i < old(pixels)@.len() && !(offset <= i < offset + j)
                    ==> pixels@[i] == old(pixels)@[i],
    {
        pixels[offset + j] = band[j];
    }
    proof {
        assert(pixels@ =~= overwrite(old(pixels)@, offset as int, band@));
    }
}

/// Everything one render call depends on: the image geometry, the viewport
/// of the complex plane, the iteration cap, and the desired worker count.
/// The worker count is a hint to the caller's scheduler; by
/// [`lemma_output_determined`] it cannot influence the rendered bytes.
#[derive(Clone, Copy, Debug)]
pub struct RenderConfig {
    pub geometry: ImageGeometry,
    pub viewport: Viewport,
    pub max_iterations: u32,
    pub workers: usize,
}

impl RenderConfig {
    pub open spec fn wf(self) -> bool {
        &&& self.geometry.wf()
        &&& 0 < self.max_iterations
        &&& 0 < self.workers
    }

    /// Runtime check for the configuration contract: positive geometry that
    /// fits a flat buffer, a positive iteration cap, and a positive worker
    /// hint. A render must be refused when this fails.
    pub fn validate(&self) -> (r: bool)
        ensures
            r == self.wf(),
    {
        self.geometry.is_well_formed() && self.max_iterations > 0 && self.workers > 0
    }

    /// Rasterizes the escape classifications into the caller's pixel
    /// buffer, in place: band by band — one band per image row, each row
    /// written at its row-major offset — until every byte of the buffer
    /// holds the shade of its pixel's classification.
    ///
    /// `escapes` holds one classification per pixel, row-major, as produced
    /// by the caller's escape iteration over this configuration's viewport.
    /// A buffer whose length differs from the pixel count is refused by the
    /// precondition; the caller must check before calling.
    pub fn render(&self, escapes: &Vec<EscapeResult>, pixels: &mut Vec<u8>)
        requires
            self.wf(),
            escapes@.len() == self.geometry.area(),
            old(pixels)@.len() == self.geometry.area(),
        ensures
            final(pixels)@.len() == old(pixels)@.len(),
            rendered(escapes@, final(pixels)@),
    {
        let width: usize = self.geometry.width;
        let height: usize = self.geometry.height;
        proof {
            assert(0int * (width as int) == 0) by (nonlinear_arith);
        }
        for row in 0..height
            invariant
                width == self.geometry.width,
                height == self.geometry.height,
                self.geometry.wf(),
                escapes@.len() == self.geometry.area(),
                pixels@.len() == self.geometry.area(),
                forall|i: int| 0 <= i < row * width ==> pixels@[i] == shade_spec(escapes@[i]),
        {
            proof {
                lemma_row_offsets(width as int, height as int, row as int);
            }
            let offset: usize = row * width;
            let ghost prev: Seq<u8> = pixels@;
            let band: Vec<u8> = shade_band(escapes, offset, width);
            write_band(pixels, offset, &band);
            proof {
                assert forall|i: int| 0 <= i < (row + 1) * width implies pixels@[i]
                    == shade_spec(escapes@[i]) by {
                    if i < row * width {
                        assert(pixels@[i] == prev[i]);
                    } else {
                        assert(pixels@[i] == band@[i - row * width]);
                        assert(band@[i - row * width]
                            == shade_spec(escapes@[row * width + (i - row * width)]));
                    }
                }
            }
        }
        proof {
            assert(height * width == self.geometry.area()) by (nonlinear_arith)
                requires
                    width == self.geometry.width,
                    height == self.geometry.height,
                    self.geometry.area() == self.geometry.width * self.geometry.height,
            ;
        }
    }
}

/// Row `row` of a `width` by `height` image occupies the row-major index
/// range `[row * width, (row + 1) * width)`, which lies inside the buffer.
proof fn lemma_row_offsets(width: int, height: int, row: int)
    requires
        0 < width,
        0 <= row < height,
    ensures
        0 <= row * width,
        (row + 1) * width == row * width + width,
        row * width + width <= width * height,
{
    assert(0 <= row * width && (row + 1) * width == row * width + width && row * width + width
        <= width * height) by (nonlinear_arith)
        requires
            0 < width,
            0 <= row < height,
    ;
}

} // verus!
