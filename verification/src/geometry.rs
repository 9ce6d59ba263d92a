use vstd::prelude::*;

verus! {

/// Width and height of the output image, in pixels.
///
/// A geometry is well formed when both sides are positive and the total
/// pixel count fits in `usize`, so that a flat row-major buffer holding one
/// byte per pixel can be indexed.
#[derive(Clone, Copy, Debug, PartialEq, Eq, Structural)]
pub struct ImageGeometry {
    pub width: usize,
    pub height: usize,
}

impl ImageGeometry {
    /// Total number of pixels, as a mathematical integer.
    pub open spec fn area(self) -> int {
        self.width * self.height
    }

    pub open spec fn wf(self) -> bool {
        &&& 0 < self.width
        &&& 0 < self.height
        &&& self.area() <= usize::MAX
    }

    /// Runtime check for well-formedness, for callers that assemble a
    /// geometry from unchecked input.
    pub fn is_well_formed(&self) -> (r: bool)
        ensures
            r == self.wf(),
    {
        self.width > 0 && self.height > 0 && self.width.checked_mul(self.height).is_some()
    }

    /// Total number of pixels.
    pub fn pixel_count(&self) -> (n: usize)
        requires
            self.wf(),
        ensures
            n == self.area(),
    {
        self.width * self.height
    }

    /// Flat index of pixel `(x, y)` in a row-major buffer: row `y` occupies
    /// indices `[y * width, (y + 1) * width)`, and `x` selects the column.
    pub fn pixel_index(&self, x: usize, y: usize) -> (i: usize)
        requires
            self.wf(),
            x < self.width,
            y < self.height,
        ensures
            i == y * self.width + x,
            i < self.area(),
    {
        proof {
            lemma_row_major_in_bounds(self.width as int, self.height as int, x as int, y as int);
        }
        y * self.width + x
    }
}

/// In a `width` by `height` grid, the row-major index of `(x, y)` lies in
/// `[0, width * height)`.
proof fn lemma_row_major_in_bounds(width: int, height: int, x: int, y: int)
    requires
        0 <= x < width,
        0 <= y < height,
    ensures
        0 <= y * width + x < width * height,
{
    assert(0 <= y * width + x < width * height) by (nonlinear_arith)
        requires
            0 <= x < width,
            0 <= y < height,
    ;
}

/// The rectangle of the complex plane that is mapped onto the image:
/// its upper-left and lower-right corners.
///
/// Each coordinate is carried as the bit pattern of an IEEE 754 binary64
/// number. The verified core never interprets these bits: every numeric use
/// of the viewport (mapping a pixel to a point, the escape iteration) is
/// floating-point work and lives with the caller. The caller is likewise
/// responsible for orientation — lower-right real strictly above upper-left
/// real, upper-left imaginary strictly above lower-right imaginary — which
/// is a relation between floating-point values and so cannot be stated
/// here.
#[derive(Clone, Copy, Debug, PartialEq, Eq, Structural)]
pub struct Viewport {
    pub upper_left_re_bits: u64,
    pub upper_left_im_bits: u64,
    pub lower_right_re_bits: u64,
    pub lower_right_im_bits: u64,
}

} // verus!
