//! The integer parts of the scan effects: the block-size rule of adaptive
//! thresholding, the integral image with its clamped window sums, and the
//! clamped 3×3 neighbourhood totals that blurring and sharpening average.
use vstd::prelude::*;

use crate::error::CoreError;

verus! {

/// Sum of `f(x, y)` over `left <= x < right` on row `y`.
pub open spec fn row_range(f: spec_fn(int, int) -> int, y: int, left: int, right: int) -> int
    decreases right - left,
{
    if right <= left {
        0
    } else {
        row_range(f, y, left, right - 1) + f(right - 1, y)
    }
}

/// Sum of `f(x, y)` over the rectangle `left <= x < right`, `top <= y < bottom`.
pub open spec fn rect_sum(
    f: spec_fn(int, int) -> int,
    left: int,
    top: int,
    right: int,
    bottom: int,
) -> int
    decreases bottom - top,
{
    if bottom <= top {
        0
    } else {
        rect_sum(f, left, top, right, bottom - 1) + row_range(f, bottom - 1, left, right)
    }
}

/// The gray level at (x, y) of a row-major image `width` pixels wide.
pub open spec fn gray_at(gray: Seq<u8>, width: nat) -> spec_fn(int, int) -> int {
    |x: int, y: int| gray[y * width + x] as int
}

/// Channel `channel` at (x, y) of a row-major RGB image `width` pixels wide.
pub open spec fn channel_at(rgb: Seq<u8>, width: nat, channel: int) -> spec_fn(int, int) -> int {
    |x: int, y: int| rgb[(y * width + x) * 3 + channel] as int
}

/// Every value of `f` in the rectangle is a byte.
pub open spec fn bytes_in(f: spec_fn(int, int) -> int, width: int, height: int) -> bool {
    forall|x: int, y: int| 0 <= x < width && 0 <= y < height ==> 0 <= #[trigger] f(x, y) <= 255
}

pub proof fn lemma_row_range_split(f: spec_fn(int, int) -> int, y: int, a: int, b: int, c: int)
    requires
        a <= b <= c,
    ensures
        row_range(f, y, a, c) == row_range(f, y, a, b) + row_range(f, y, b, c),
    decreases c - b,
{
    if c > b {
        lemma_row_range_split(f, y, a, b, c - 1);
    }
}

pub proof fn lemma_rect_split_columns(
    f: spec_fn(int, int) -> int,
    a: int,
    b: int,
    c: int,
    top: int,
    bottom: int,
)
    requires
        a <= b <= c,
    ensures
        rect_sum(f, a, top, c, bottom) == rect_sum(f, a, top, b, bottom) + rect_sum(
            f,
            b,
            top,
            c,
            bottom,
        ),
    decreases bottom - top,
{
    if bottom > top {
        lemma_rect_split_columns(f, a, b, c, top, bottom - 1);
        lemma_row_range_split(f, bottom - 1, a, b, c);
    }
}

pub proof fn lemma_rect_split_rows(
    f: spec_fn(int, int) -> int,
    left: int,
    right: int,
    a: int,
    b: int,
    c: int,
)
    requires
        a <= b <= c,
    ensures
        rect_sum(f, left, a, right, c) == rect_sum(f, left, a, right, b) + rect_sum(
            f,
            left,
            b,
            right,
            c,
        ),
    decreases c - b,
{
    if c > b {
        lemma_rect_split_rows(f, left, right, a, b, c - 1);
    }
}

pub proof fn lemma_row_range_bounds(
    f: spec_fn(int, int) -> int,
    width: int,
    height: int,
    y: int,
    left: int,
    right: int,
)
    requires
        bytes_in(f, width, height),
        0 <= y < height,
        0 <= left <= right <= width,
    ensures
        0 <= row_range(f, y, left, right) <= 255 * (right - left),
    decreases right - left,
{
    if right > left {
        lemma_row_range_bounds(f, width, height, y, left, right - 1);
        assert(0 <= f(right - 1, y) <= 255);
    }
}

pub proof fn lemma_rect_bounds(
    f: spec_fn(int, int) -> int,
    width: int,
    height: int,
    left: int,
    top: int,
    right: int,
    bottom: int,
)
    requires
        bytes_in(f, width, height),
        0 <= left <= right <= width,
        0 <= top <= bottom <= height,
    ensures
        0 <= rect_sum(f, left, top, right, bottom) <= 255 * (right - left) * (bottom - top),
    decreases bottom - top,
{
    if bottom > top {
        lemma_rect_bounds(f, width, height, left, top, right, bottom - 1);
        lemma_row_range_bounds(f, width, height, bottom - 1, left, right);
        let w = right - left;
        let h = bottom - top;
        assert(255 * w * (h - 1) + 255 * w == 255 * w * h) by (nonlinear_arith);
    }
}

pub proof fn lemma_rect_empty_columns(f: spec_fn(int, int) -> int, left: int, top: int, bottom: int)
    ensures
        rect_sum(f, left, top, left, bottom) == 0,
    decreases bottom - top,
{
    if bottom > top {
        lemma_rect_empty_columns(f, left, top, bottom - 1);
    }
}

proof fn lemma_index_in_image(width: nat, height: nat, x: int, y: int)
    requires
        0 <= x < width,
        0 <= y < height,
    ensures
        0 <= y * width + x < width * height,
{
    assert(0 <= y * width) by (nonlinear_arith)
        requires
            0 <= y,
            0 <= width,
    ;
    assert(y * width + x < width * height) by (nonlinear_arith)
        requires
            x < width,
            y < height,
            0 <= y,
    ;
}

/// The adaptive threshold block size is accepted when it is odd and at
/// least 3.
pub open spec fn block_size_accepted(block_size: u32) -> bool {
    block_size >= 3 && block_size % 2 == 1
}

/// Every odd block size of at least 3 is accepted, however large; an even
/// block size, or one below 3, never is.
pub proof fn lemma_block_sizes_accepted_exactly_when_odd_and_at_least_three(block_size: u32)
    ensures
        block_size >= 3 && block_size % 2 == 1 ==> block_size_accepted(block_size),
        block_size < 3 || block_size % 2 == 0 ==> !block_size_accepted(block_size),
{
}

/// Checks the adaptive block size: it must be an odd value of at least 3.
pub fn validate_block_size(block_size: u32) -> (result: Result<(), CoreError>)
    ensures
        result is Ok <==> block_size_accepted(block_size),
        block_size >= 3 && block_size % 2 == 1 ==> result is Ok,
        block_size < 3 || block_size % 2 == 0 ==> result is Err,
        result matches Err(e) ==> e is InvalidParameter,
        result matches Err(CoreError::InvalidParameter { field, .. }) ==> field@
            == "adaptive_block_size"@,
{
    if block_size < 3 || block_size % 2 == 0 {
        return Err(
            CoreError::InvalidParameter {
                field: "adaptive_block_size",
                reason: "must be an odd value of at least 3".to_owned(),
            },
        );
    }
    Ok(())
}

/// The window of radius `radius` around (x, y), clamped to the image:
/// (left, top, right, bottom), right and bottom exclusive.
pub open spec fn clamped_window(width: int, height: int, x: int, y: int, radius: int) -> (
    int,
    int,
    int,
    int,
) {
    let left = if x >= radius {
        x - radius
    } else {
        0
    };
    let top = if y >= radius {
        y - radius
    } else {
        0
    };
    let right = if x + radius + 1 <= width {
        x + radius + 1
    } else {
        width
    };
    let bottom = if y + radius + 1 <= height {
        y + radius + 1
    } else {
        height
    };
    (left, top, right, bottom)
}

/// The summed-area table of a gray image: entry (x, y), for x up to the
/// width and y up to the height, is the sum of every pixel above and to the
/// left of it.
pub struct IntegralImage {
    width: u32,
    height: u32,
    rows: Vec<Vec<u64>>,
    gray: Ghost<Seq<u8>>,
}

impl IntegralImage {
    /// The image the table was built from.
    pub closed spec fn source(&self) -> Seq<u8> {
        self.gray@
    }

    pub closed spec fn image_width(&self) -> nat {
        self.width as nat
    }

    pub closed spec fn image_height(&self) -> nat {
        self.height as nat
    }

    /// Sum of the source pixels with left <= x < right, top <= y < bottom.
    pub open spec fn pixel_sum(&self, left: int, top: int, right: int, bottom: int) -> int {
        rect_sum(gray_at(self.source(), self.image_width()), left, top, right, bottom)
    }

    /// Well-formed: each entry is the sum of the pixels above and left of it.
    #[verifier::type_invariant]
    closed spec fn wf(&self) -> bool {
        &&& self.gray@.len() == self.width * self.height
        &&& self.width * self.height < 0x1_0000_0000
        &&& self.rows@.len() == self.height + 1
        &&& forall|y: int| 0 <= y <= self.height ==> #[trigger] self.rows@[y]@.len() == self.width + 1
        &&& forall|x: int, y: int|
            0 <= x <= self.width && 0 <= y <= self.height ==> #[trigger] self.rows@[y]@[x]
                == rect_sum(gray_at(self.gray@, self.width as nat), 0, 0, x, y)
    }

    /// Builds the table of a row-major gray image of `width` × `height`
    /// pixels.
    pub fn new(gray: &[u8], width: u32, height: u32) -> (table: IntegralImage)
        requires
            gray@.len() == width * height,
            width * height < 0x1_0000_0000,
        ensures
            table.source() == gray@,
            table.image_width() == width,
            table.image_height() == height,
    {
        let ghost f = gray_at(gray@, width as nat);
        let w = width as usize;
        let mut first: Vec<u64> = Vec::new();
        first.push(0);
        let mut x: usize = 0;
        while x < w
            invariant
                w == width,
                x <= w,
                first@.len() == x + 1,
                forall|i: int| 0 <= i <= x ==> #[trigger] first@[i] == 0,
            decreases w - x,
        {
            first.push(0);
            x = x + 1;
        }
        let mut rows: Vec<Vec<u64>> = Vec::new();
        rows.push(first);
        proof {
            assert forall|i: int| 0 <= i <= width implies #[trigger] rows@[0]@[i] == rect_sum(
                f,
                0,
                0,
                i,
                0,
            ) by {}
            assert(bytes_in(f, width as int, height as int)) by {
                assert forall|i: int, j: int|
                    0 <= i < width && 0 <= j < height implies 0 <= #[trigger] f(i, j) <= 255 by {
                    lemma_index_in_image(width as nat, height as nat, i, j);
                }
            }
        }
        let mut y: usize = 0;
        while y < height as usize
            invariant
                w == width,
                y <= height,
                gray@.len() == width * height,
                width * height < 0x1_0000_0000,
                f == gray_at(gray@, width as nat),
                bytes_in(f, width as int, height as int),
                rows@.len() == y + 1,
                forall|j: int| 0 <= j <= y ==> #[trigger] rows@[j]@.len() == width + 1,
                forall|i: int, j: int|
                    0 <= i <= width && 0 <= j <= y ==> #[trigger] rows@[j]@[i] == rect_sum(
                        f,
                        0,
                        0,
                        i,
                        j,
                    ),
            decreases height - y,
        {
            let mut row: Vec<u64> = Vec::new();
            row.push(0);
            let mut running: u64 = 0;
            let mut x: usize = 0;
            proof {
                lemma_rect_empty_columns(f, 0, 0, y + 1);
            }
            while x < w
                invariant
                    w == width,
                    y < height,
                    x <= w,
                    gray@.len() == width * height,
                    width * height < 0x1_0000_0000,
                    f == gray_at(gray@, width as nat),
                    bytes_in(f, width as int, height as int),
                    rows@.len() == y + 1,
                    forall|j: int| 0 <= j <= y ==> #[trigger] rows@[j]@.len() == width + 1,
                    forall|i: int, j: int|
                        0 <= i <= width && 0 <= j <= y ==> #[trigger] rows@[j]@[i] == rect_sum(
                            f,
                            0,
                            0,
                            i,
                            j,
                        ),
                    row@.len() == x + 1,
                    running == row_range(f, y as int, 0, x as int),
                    forall|i: int| 0 <= i <= x ==> #[trigger] row@[i] == rect_sum(f, 0, 0, i, y + 1),
                decreases w - x,
            {
                proof {
                    lemma_index_in_image(width as nat, height as nat, x as int, y as int);
                    lemma_row_range_bounds(f, width as int, height as int, y as int, 0, x as int + 1);
                    lemma_rect_bounds(f, width as int, height as int, 0, 0, x as int + 1, y as int);
                    assert(255 * (x + 1) * y + 255 * (x + 1) <= 255 * width * height) by (nonlinear_arith)
                        requires
                            x + 1 <= width,
                            y + 1 <= height,
                            0 <= y,
                    ;
                }
                let pixel = gray[y * w + x];
                proof {
                    assert(f(x as int, y as int) == pixel as int);
                }
                running = running + pixel as u64;
                let above = rows[y][x + 1];
                proof {
                    let above_sum = rect_sum(f, 0, 0, x + 1, y as int);
                    assert(above == above_sum);
                    assert(running == row_range(f, y as int, 0, x + 1));
                    assert(running <= 255 * (x + 1));
                    assert(255 * width * height <= 255 * 0x1_0000_0000) by (nonlinear_arith)
                        requires
                            width * height < 0x1_0000_0000,
                    ;
                    assert(above_sum + 255 * (x + 1) <= 255 * width * height) by (nonlinear_arith)
                        requires
                            above_sum <= 255 * (x + 1 - 0) * (y - 0),
                            x + 1 <= width,
                            y + 1 <= height,
                            0 <= y,
                    ;
                }
                let value = above + running;
                row.push(value);
                proof {
                    assert(f(x as int, y as int) == pixel as int);
                    assert(rect_sum(f, 0, 0, x + 1, y + 1) == rect_sum(f, 0, 0, x + 1, y as int)
                        + row_range(f, y as int, 0, x + 1));
                }
                x = x + 1;
            }
            rows.push(row);
            y = y + 1;
        }
        IntegralImage { width, height, rows, gray: Ghost(gray@) }
    }

    /// The pixel sum and area of the window of radius `radius` around
    /// (x, y), clamped to the image. The sum is combined from four table
    /// entries with saturating arithmetic, which yields the pixel sum of the
    /// window unless the entry left of its bottom row exceeds the entries
    /// beside it; then it yields the entry at its top-left corner.
    pub fn window_sum(&self, x: u32, y: u32, radius: u32) -> (result: (u64, u64))
        requires
            x < self.image_width(),
            y < self.image_height(),
        ensures
            ({
                let (left, top, right, bottom) = clamped_window(
                    self.image_width() as int,
                    self.image_height() as int,
                    x as int,
                    y as int,
                    radius as int,
                );
                &&& result.1 == (right - left) * (bottom - top)
                &&& result.0 == if self.pixel_sum(0, top, right, bottom) >= self.pixel_sum(0, 0, left, bottom) {
                    self.pixel_sum(left, top, right, bottom)
                } else {
                    self.pixel_sum(0, 0, left, top)
                }
            }),
    {
        proof {
            use_type_invariant(self);
        }
        let ghost f = gray_at(self.gray@, self.width as nat);
        let width = self.width as u64;
        let height = self.height as u64;
        let left: u64 = if x >= radius {
            (x - radius) as u64
        } else {
            0
        };
        let top: u64 = if y >= radius {
            (y - radius) as u64
        } else {
            0
        };
        let right: u64 = if x as u64 + radius as u64 + 1 <= width {
            x as u64 + radius as u64 + 1
        } else {
            width
        };
        let bottom: u64 = if y as u64 + radius as u64 + 1 <= height {
            y as u64 + radius as u64 + 1
        } else {
            height
        };
        proof {
            assert((right - left) * (bottom - top) <= self.width * self.height) by (nonlinear_arith)
                requires
                    right - left <= self.width,
                    bottom - top <= self.height,
                    0 <= right - left,
                    0 <= bottom - top,
            ;
        }
        let area: u64 = ((right - left) as u32 * (bottom - top) as u32) as u64;
        let a = self.rows[bottom as usize][right as usize];
        let b = self.rows[top as usize][right as usize];
        let c = self.rows[bottom as usize][left as usize];
        let d = self.rows[top as usize][left as usize];
        proof {
            let (w, h) = (self.width as int, self.height as int);
            assert(bytes_in(f, w, h)) by {
                assert forall|i: int, j: int|
                    0 <= i < w && 0 <= j < h implies 0 <= #[trigger] f(i, j) <= 255 by {
                    lemma_index_in_image(self.width as nat, self.height as nat, i, j);
                }
            }
            lemma_rect_split_rows(f, 0, right as int, 0, top as int, bottom as int);
            lemma_rect_split_rows(f, 0, left as int, 0, top as int, bottom as int);
            lemma_rect_split_columns(f, 0, left as int, right as int, top as int, bottom as int);
            lemma_rect_bounds(f, w, h, left as int, top as int, right as int, bottom as int);
            lemma_rect_bounds(f, w, h, 0, top as int, left as int, bottom as int);
            lemma_rect_bounds(f, w, h, 0, 0, left as int, top as int);
            lemma_rect_bounds(f, w, h, 0, 0, right as int, bottom as int);
            assert(255 * right * bottom <= 255 * w * h) by (nonlinear_arith)
                requires
                    right <= w,
                    bottom <= h,
                    0 <= right,
                    0 <= bottom,
            ;
        }
        let sum = a.saturating_sub(b).saturating_sub(c).saturating_add(d);
        (sum, area)
    }
}

/// Sum of channel `channel` over the window (left <= x < right,
/// top <= y < bottom) of an RGB image, leaving out (cx, cy) when `skip`.
pub open spec fn channel_total(
    rgb: Seq<u8>,
    width: nat,
    channel: int,
    window: (int, int, int, int),
    center: (int, int),
    skip: bool,
) -> int {
    let (left, top, right, bottom) = window;
    rect_sum(channel_at(rgb, width, channel), left, top, right, bottom) - if skip {
        channel_at(rgb, width, channel)(center.0, center.1)
    } else {
        0
    }
}

/// The totals of the three channels over the 3×3 neighbourhood of (x, y),
/// clamped to the image, and the number of pixels summed; the pixel at
/// (x, y) itself is left out when `include_center` is false.
pub fn neighborhood_totals(
    rgb: &[u8],
    width: u32,
    height: u32,
    x: u32,
    y: u32,
    include_center: bool,
) -> (result: ([u32; 3], u32))
    requires
        rgb@.len() == width * height * 3,
        x < width,
        y < height,
    ensures
        ({
            let window = clamped_window(width as int, height as int, x as int, y as int, 1);
            let (left, top, right, bottom) = window;
            &&& result.1 == (right - left) * (bottom - top) - if include_center {
                0int
            } else {
                1int
            }
            &&& forall|c: int|
                0 <= c < 3 ==> result.0[c] as int == channel_total(
                    rgb@,
                    width as nat,
                    c,
                    window,
                    (x as int, y as int),
                    !include_center,
                )
        }),
{
    let ghost f0 = channel_at(rgb@, width as nat, 0);
    let ghost f1 = channel_at(rgb@, width as nat, 1);
    let ghost f2 = channel_at(rgb@, width as nat, 2);
    let left: u32 = if x >= 1 {
        x - 1
    } else {
        0
    };
    let top: u32 = if y >= 1 {
        y - 1
    } else {
        0
    };
    let right: u32 = if x + 1 < width {
        x + 2
    } else {
        width
    };
    let bottom: u32 = if y + 1 < height {
        y + 2
    } else {
        height
    };
    let mut totals: [u32; 3] = [0, 0, 0];
    let mut count: u32 = 0;
    let mut sy: u32 = top;
    let total_len = rgb.len();
    while sy < bottom
        invariant
            left <= x < right <= width,
            top <= y < bottom <= height,
            right - left <= 3,
            bottom - top <= 3,
            top <= sy <= bottom,
            rgb@.len() == width * height * 3,
            total_len == rgb@.len(),
            f0 == channel_at(rgb@, width as nat, 0),
            f1 == channel_at(rgb@, width as nat, 1),
            f2 == channel_at(rgb@, width as nat, 2),
            count == (right - left) * (sy - top) - if !include_center && sy > y {
                1int
            } else {
                0int
            },
            totals[0] as int == rect_sum(f0, left as int, top as int, right as int, sy as int) - if !include_center && sy > y {
                f0(x as int, y as int)
            } else {
                0int
            },
            totals[1] as int == rect_sum(f1, left as int, top as int, right as int, sy as int) - if !include_center && sy > y {
                f1(x as int, y as int)
            } else {
                0int
            },
            totals[2] as int == rect_sum(f2, left as int, top as int, right as int, sy as int) - if !include_center && sy > y {
                f2(x as int, y as int)
            } else {
                0int
            },
            totals[0] <= 255 * count,
            totals[1] <= 255 * count,
            totals[2] <= 255 * count,
            count <= 9,
        decreases bottom - sy,
    {
        let mut sx: u32 = left;
        let ghost row_start = (totals, count);
        while sx < right
            invariant
                left <= x < right <= width,
                top <= y < bottom <= height,
                right - left <= 3,
                bottom - top <= 3,
                top <= sy < bottom,
                left <= sx <= right,
                rgb@.len() == width * height * 3,
                total_len == rgb@.len(),
                f0 == channel_at(rgb@, width as nat, 0),
                f1 == channel_at(rgb@, width as nat, 1),
                f2 == channel_at(rgb@, width as nat, 2),
                row_start.1 == (right - left) * (sy - top) - if !include_center && sy > y {
                    1int
                } else {
                    0int
                },
                row_start.0[0] as int == rect_sum(f0, left as int, top as int, right as int, sy as int) - if !include_center && sy > y {
                    f0(x as int, y as int)
                } else {
                    0int
                },
                row_start.0[1] as int == rect_sum(f1, left as int, top as int, right as int, sy as int) - if !include_center && sy > y {
                    f1(x as int, y as int)
                } else {
                    0int
                },
                row_start.0[2] as int == rect_sum(f2, left as int, top as int, right as int, sy as int) - if !include_center && sy > y {
                    f2(x as int, y as int)
                } else {
                    0int
                },
                row_start.0[0] <= 255 * row_start.1,
                row_start.0[1] <= 255 * row_start.1,
                row_start.0[2] <= 255 * row_start.1,
                row_start.1 <= 9,
                count == row_start.1 + (sx - left) - if !include_center && sy == y && sx > x {
                    1int
                } else {
                    0int
                },
                totals[0] as int == row_start.0[0] as int + row_range(f0, sy as int, left as int, sx as int) - if !include_center && sy == y && sx > x {
                    f0(x as int, y as int)
                } else {
                    0int
                },
                totals[1] as int == row_start.0[1] as int + row_range(f1, sy as int, left as int, sx as int) - if !include_center && sy == y && sx > x {
                    f1(x as int, y as int)
                } else {
                    0int
                },
                totals[2] as int == row_start.0[2] as int + row_range(f2, sy as int, left as int, sx as int) - if !include_center && sy == y && sx > x {
                    f2(x as int, y as int)
                } else {
                    0int
                },
                totals[0] <= 255 * count,
                totals[1] <= 255 * count,
                totals[2] <= 255 * count,
                count <= 9,
            decreases right - sx,
        {
            proof {
                assert((right - left) * (sy - top) + (right - left) <= 9) by (nonlinear_arith)
                    requires
                        0 <= right - left <= 3,
                        0 <= sy - top <= 2,
                ;
                lemma_index_in_image(width as nat, height as nat, sx as int, sy as int);
                assert((sy * width + sx) * 3 + 2 < width * height * 3) by (nonlinear_arith)
                    requires
                        sy * width + sx < width * height,
                ;
                assert(0 <= (sy * width + sx) * 3) by (nonlinear_arith)
                    requires
                        0 <= sy * width + sx,
                ;
            }
            if !(sx == x && sy == y && !include_center) {
                let base: usize = ((sy as usize) * (width as usize) + sx as usize) * 3;
                let v0 = rgb[base];
                let v1 = rgb[base + 1];
                let v2 = rgb[base + 2];
                proof {
                    assert(f0(sx as int, sy as int) == v0 as int);
                    assert(f1(sx as int, sy as int) == v1 as int);
                    assert(f2(sx as int, sy as int) == v2 as int);
                    lemma_row_range_nonneg_bound(f0, rgb@, width as nat, height as nat, 0, sy as int, left as int, sx as int);
                    lemma_row_range_nonneg_bound(f1, rgb@, width as nat, height as nat, 1, sy as int, left as int, sx as int);
                    lemma_row_range_nonneg_bound(f2, rgb@, width as nat, height as nat, 2, sy as int, left as int, sx as int);
                }
                totals[0] = totals[0] + v0 as u32;
                totals[1] = totals[1] + v1 as u32;
                totals[2] = totals[2] + v2 as u32;
                count = count + 1;
            }
            sx = sx + 1;
        }
        proof {
            assert((right - left) * (sy - top) + (right - left) == (right - left) * (sy + 1 - top)) by (nonlinear_arith);
        }
        sy = sy + 1;
    }
    proof {
        assert(bottom - top >= 1);
        assert(right - left >= 1);
    }
    (totals, count)
}

proof fn lemma_row_range_nonneg_bound(
    f: spec_fn(int, int) -> int,
    rgb: Seq<u8>,
    width: nat,
    height: nat,
    channel: int,
    y: int,
    left: int,
    right: int,
)
    requires
        f == channel_at(rgb, width, channel),
        0 <= channel < 3,
        rgb.len() == width * height * 3,
        0 <= y < height,
        0 <= left <= right <= width,
    ensures
        0 <= row_range(f, y, left, right) <= 255 * (right - left),
{
    assert(bytes_in(f, width as int, height as int)) by {
        assert forall|i: int, j: int|
            0 <= i < width && 0 <= j < height implies 0 <= #[trigger] f(i, j) <= 255 by {
            lemma_index_in_image(width, height, i, j);
            assert((j * width + i) * 3 + channel < width * height * 3) by (nonlinear_arith)
                requires
                    j * width + i < width * height,
                    0 <= channel < 3,
            ;
            assert(0 <= (j * width + i) * 3 + channel) by (nonlinear_arith)
                requires
                    0 <= j * width + i,
                    0 <= channel,
            ;
        }
    }
    lemma_row_range_bounds(f, width as int, height as int, y, left, right);
}

} // verus!
