use crate::raster::{pixel_index, pixel_of};
use crate::vector::Scalar;
use vstd::prelude::*;

verus! {

/// The four bytes of a packed `0xAARRGGBB` color in the order in which they
/// are stored: blue, green, red, alpha.
pub open spec fn color_bytes(color: u32) -> Seq<u8> {
    seq![
        (color & 0xff) as u8,
        ((color >> 8) & 0xff) as u8,
        ((color >> 16) & 0xff) as u8,
        ((color >> 24) & 0xff) as u8,
    ]
}

/// The packed color that four stored bytes stand for.
pub open spec fn packed_color(bytes: Seq<u8>) -> u32 {
    (bytes[0] as u32) | ((bytes[1] as u32) << 8) | ((bytes[2] as u32) << 16) | ((bytes[3] as u32)
        << 24)
}

/// A fixed-size, row-major image of packed 32-bit colors, four bytes each.
pub struct ColorBuffer {
    width: usize,
    height: usize,
    pixels: Vec<u8>,
}

impl View for ColorBuffer {
    type V = Seq<u8>;

    /// The raw bytes, row by row.
    closed spec fn view(&self) -> Seq<u8> {
        self.pixels@
    }
}

impl ColorBuffer {
    /// Pixels per row.
    pub closed spec fn width(&self) -> nat {
        self.width as nat
    }

    /// Number of rows.
    pub closed spec fn height(&self) -> nat {
        self.height as nat
    }

    /// The byte array has exactly four bytes for each pixel.
    pub open spec fn wf(&self) -> bool {
        self@.len() == self.width() * self.height() * 4
    }

    /// Whether `(x, y)` names a pixel of this buffer.
    pub open spec fn contains(&self, x: int, y: int) -> bool {
        0 <= x < self.width() && 0 <= y < self.height()
    }

    /// Where the bytes of pixel `(x, y)` start.
    pub open spec fn offset(&self, x: int, y: int) -> int {
        (self.width() * y + x) * 4
    }

    /// The four stored bytes of pixel `(x, y)`.
    pub open spec fn pixel_bytes(&self, x: int, y: int) -> Seq<u8> {
        self@.subrange(self.offset(x, y), self.offset(x, y) + 4)
    }

    /// The packed color of pixel `(x, y)`.
    pub open spec fn color_at(&self, x: int, y: int) -> u32 {
        packed_color(self.pixel_bytes(x, y))
    }

    /// Same dimensions as `other`.
    pub open spec fn same_shape(&self, other: &ColorBuffer) -> bool {
        self.width() == other.width() && self.height() == other.height()
    }

    /// A buffer of `width` by `height` pixels, every byte zero.
    pub fn new(width: usize, height: usize) -> (buffer: ColorBuffer)
        requires
            width * height * 4 <= isize::MAX,
        ensures
            buffer.wf(),
            buffer.width() == width,
            buffer.height() == height,
            buffer@ == Seq::new((width * height * 4) as nat, |i: int| 0u8),
    {
        assert(width * height <= width * height * 4) by (nonlinear_arith);
        let pixels = vec![0u8; width * height * 4];
        assert(pixels@ =~= Seq::new((width * height * 4) as nat, |i: int| 0u8));
        ColorBuffer { width, height, pixels }
    }

    /// As `new`, for sizes that were not checked yet: `None` where the bytes
    /// of the buffer would be more than an allocation can hold.
    pub fn try_new(width: usize, height: usize) -> (made: Option<ColorBuffer>)
        ensures
            made is Some <==> width * height * 4 <= isize::MAX,
            made matches Some(buffer) ==> buffer.wf() && buffer.width() == width && buffer.height()
                == height && buffer@ == Seq::new((width * height * 4) as nat, |i: int| 0u8),
    {
        let fits = match width.checked_mul(height) {
            Some(pixels) => match pixels.checked_mul(4) {
                Some(bytes) => bytes <= isize::MAX as usize,
                None => false,
            },
            None => {
                assert(width * height <= width * height * 4) by (nonlinear_arith);
                false
            },
        };
        if fits {
            Some(ColorBuffer::new(width, height))
        } else {
            None
        }
    }

    /// Stores `color` at pixel `(x, y)`; a position outside the buffer is
    /// ignored.
    pub fn set_pixel(&mut self, x: usize, y: usize, color: u32)
        requires
            old(self).wf(),
        ensures
            final(self).wf(),
            final(self).same_shape(old(self)),
            final(self)@.len() == old(self)@.len(),
            old(self).contains(x as int, y as int) ==> final(self)@ == old(self)@.update(
                old(self).offset(x as int, y as int),
                color_bytes(color)[0],
            ).update(old(self).offset(x as int, y as int) + 1, color_bytes(color)[1]).update(
                old(self).offset(x as int, y as int) + 2,
                color_bytes(color)[2],
            ).update(old(self).offset(x as int, y as int) + 3, color_bytes(color)[3]),
            !old(self).contains(x as int, y as int) ==> final(self)@ == old(self)@,
            old(self).contains(x as int, y as int) ==> final(self).color_at(x as int, y as int)
                == color,
            forall|px: int, py: int| #[trigger]
                old(self).contains(px, py) ==> final(self).pixel_bytes(px, py) == if px == x && py
                    == y {
                    color_bytes(color)
                } else {
                    old(self).pixel_bytes(px, py)
                },
    {
        if x >= self.width || y >= self.height {
            return ;
        }
        let byte_count = self.pixels.len();
        proof {
            lemma_pixel_fits(self.width as int, self.height as int, x as int, y as int);
            assert((self.width * y + x) * 4 + 4 <= byte_count);
        }
        let pixel_index = (self.width * y + x) * 4;
        self.pixels.set(pixel_index, #[verifier::truncate] ((color & 0xff) as u8));
        self.pixels.set(pixel_index + 1, #[verifier::truncate] (((color >> 8) & 0xff) as u8));
        self.pixels.set(pixel_index + 2, #[verifier::truncate] (((color >> 16) & 0xff) as u8));
        self.pixels.set(pixel_index + 3, #[verifier::truncate] (((color >> 24) & 0xff) as u8));
        proof {
            let before = old(self);
            let after = *self;
            assert forall|px: int, py: int| #[trigger] before.contains(px, py) implies after.pixel_bytes(
                px,
                py,
            ) == if px == x && py == y {
                color_bytes(color)
            } else {
                before.pixel_bytes(px, py)
            } by {
                lemma_pixel_fits(self.width as int, self.height as int, px, py);
                lemma_pixels_apart(self.width as int, x as int, y as int, px, py);
                if px == x && py == y {
                    assert(after.pixel_bytes(px, py) =~= color_bytes(color));
                } else {
                    assert(after.pixel_bytes(px, py) =~= before.pixel_bytes(px, py));
                }
            }
            assert(before.contains(x as int, y as int));
            lemma_color_round_trip(color);
        }
    }

    /// The raw bytes: row-major, four per pixel, blue first.
    pub fn pixels(&self) -> (bytes: &[u8])
        ensures
            bytes@ == self@,
    {
        self.pixels.as_slice()
    }
}

/// Whether pixel `(px, py)` lies in the rectangle whose top-left corner is
/// `(x, y)` and whose sides are `width` and `height`.
pub open spec fn in_rect(px: int, py: int, x: int, y: int, width: int, height: int) -> bool {
    x <= px < x + width && y <= py < y + height
}

/// Whether pixel `(px, py)` is a crossing of the grid with the given spacing:
/// both coordinates are positive multiples of it.
pub open spec fn on_grid(px: int, py: int, spacing: int) -> bool {
    0 < px && px % spacing == 0 && 0 < py && py % spacing == 0
}

/// Whether the sample at the coordinates `(x, y)` falls on pixel `(px, py)`:
/// both coordinates name a pixel row or column, and these are `px` and `py`.
pub open spec fn sample_on(x: Scalar, y: Scalar, px: int, py: int) -> bool {
    &&& pixel_index(x) matches Some(column) && column == px
    &&& pixel_index(y) matches Some(row) && row == py
}

/// Whether `(px, py)` comes before `(x, y)` in row-major order.
pub open spec fn scanned(px: int, py: int, x: int, y: int) -> bool {
    py < y || (py == y && px < x)
}

/// A surface that can be filled with one color.
pub trait ClearColor {
    /// What the surface needs to hold before a call, and holds after it.
    spec fn clear_ready(&self) -> bool;

    fn clear(&mut self, color: u32)
        requires
            old(self).clear_ready(),
        ensures
            final(self).clear_ready(),
    ;
}

/// A surface that can be reset to a color of its own.
pub trait ClearAuto {
    /// What the surface needs to hold before a call, and holds after it.
    spec fn reset_ready(&self) -> bool;

    fn clear(&mut self)
        requires
            old(self).reset_ready(),
        ensures
            final(self).reset_ready(),
    ;
}

/// A surface that takes points, rectangles and grids of pixels.
pub trait Drawable {
    /// What the surface needs to hold before a call, and holds after it.
    spec fn draw_ready(&self) -> bool;

    fn draw_grid(&mut self, spacing: usize, color: Option<u32>)
        requires
            old(self).draw_ready(),
            spacing > 0,
        ensures
            final(self).draw_ready(),
    ;

    fn draw_rect(&mut self, x: usize, y: usize, width: usize, height: usize, color: u32)
        requires
            old(self).draw_ready(),
        ensures
            final(self).draw_ready(),
    ;

    fn draw_point(&mut self, x: usize, y: usize, color: u32)
        requires
            old(self).draw_ready(),
        ensures
            final(self).draw_ready(),
    ;

    fn draw_sample(&mut self, x: Scalar, y: Scalar, color: u32)
        requires
            old(self).draw_ready(),
        ensures
            final(self).draw_ready(),
    ;
}

impl ClearColor for ColorBuffer {
    open spec fn clear_ready(&self) -> bool {
        self.wf()
    }

    /// Sets every pixel to `color`.
    fn clear(&mut self, color: u32)
        ensures
            final(self).wf(),
            final(self).same_shape(old(self)),
            final(self)@ == Seq::new(old(self)@.len(), |i: int| color_bytes(color)[i % 4]),
            forall|px: int, py: int| #[trigger]
                final(self).contains(px, py) ==> final(self).pixel_bytes(px, py) == color_bytes(
                    color,
                ) && final(self).color_at(px, py) == color,
    {
        let ghost before = *self;
        let mut y: usize = 0;
        while y < self.height
            invariant
                y <= self.height,
                self.wf(),
                self.same_shape(&before),
                forall|px: int, py: int| #[trigger]
                    self.contains(px, py) && py < y ==> self.pixel_bytes(px, py) == color_bytes(
                        color,
                    ),
            decreases self.height - y,
        {
            let mut x: usize = 0;
            while x < self.width
                invariant
                    x <= self.width,
                    y < self.height,
                    self.wf(),
                    self.same_shape(&before),
                    forall|px: int, py: int| #[trigger]
                        self.contains(px, py) && scanned(px, py, x as int, y as int)
                            ==> self.pixel_bytes(px, py) == color_bytes(color),
                decreases self.width - x,
            {
                let ghost row = *self;
                self.set_pixel(x, y, color);
                assert forall|px: int, py: int| #[trigger]
                    self.contains(px, py) && scanned(
                        px,
                        py,
                        x as int + 1,
                        y as int,
                    ) implies self.pixel_bytes(px, py) == color_bytes(color) by {
                    assert(row.contains(px, py));
                }
                x += 1;
            }
            y += 1;
        }
        proof {
            let after = *self;
            assert forall|i: int| 0 <= i < after@.len() implies after@[i] == color_bytes(
                color,
            )[i % 4] by {
                lemma_byte_in_pixel(&after, i);
                let pixel = i / 4;
                let px = pixel % (after.width() as int);
                let py = pixel / (after.width() as int);
                assert(after.contains(px, py));
                assert(after@[i] == after.pixel_bytes(px, py)[i % 4]);
            }
            assert(after@ =~= Seq::new(before@.len(), |i: int| color_bytes(color)[i % 4]));
            lemma_color_round_trip(color);
        }
    }
}

impl Drawable for ColorBuffer {
    open spec fn draw_ready(&self) -> bool {
        self.wf()
    }

    /// Paints every crossing of a square grid: the pixels both of whose
    /// coordinates are positive multiples of `spacing`, in `color` or, where
    /// none is given, in transparent black.
    fn draw_grid(&mut self, spacing: usize, color: Option<u32>)
        ensures
            final(self).wf(),
            final(self).same_shape(old(self)),
            forall|px: int, py: int| #[trigger]
                old(self).contains(px, py) ==> final(self).pixel_bytes(px, py) == if on_grid(
                    px,
                    py,
                    spacing as int,
                ) {
                    color_bytes(color.unwrap_or(0))
                } else {
                    old(self).pixel_bytes(px, py)
                },
    {
        let ghost before = *self;
        let ghost step = spacing as int;
        let paint = color.unwrap_or(0x00000000);
        let mut y: usize = spacing;
        if y > self.height {
            y = self.height;
        }
        proof {
            assert forall|px: int, py: int| #[trigger]
                before.contains(px, py) && on_grid(px, py, step) implies !scanned(
                px,
                py,
                0,
                y as int,
            ) by {
                if py < step {
                    lemma_grid_gap(step, 0, py);
                }
            }
        }
        while y < self.height
            invariant
                spacing > 0,
                step == spacing,
                paint == color.unwrap_or(0),
                y <= self.height,
                y == self.height || (0 < y && y as int % step == 0),
                self.wf(),
                self.same_shape(&before),
                forall|px: int, py: int| #[trigger]
                    before.contains(px, py) ==> self.pixel_bytes(px, py) == if on_grid(px, py, step)
                        && scanned(px, py, 0, y as int) {
                        color_bytes(paint)
                    } else {
                        before.pixel_bytes(px, py)
                    },
            decreases self.height - y,
        {
            let mut x: usize = spacing;
            if x > self.width {
                x = self.width;
            }
            proof {
                assert forall|px: int, py: int| #[trigger]
                    before.contains(px, py) && on_grid(px, py, step) && py == y implies !(px
                    < x) by {
                    if px < step {
                        lemma_grid_gap(step, 0, px);
                    }
                }
            }
            while x < self.width
                invariant
                    spacing > 0,
                    step == spacing,
                    x <= self.width,
                    x == self.width || (0 < x && x as int % step == 0),
                    y < self.height,
                    0 < y && y as int % step == 0,
                    self.wf(),
                    self.same_shape(&before),
                    forall|px: int, py: int| #[trigger]
                        before.contains(px, py) ==> self.pixel_bytes(px, py) == if on_grid(
                            px,
                            py,
                            step,
                        ) && scanned(px, py, x as int, y as int) {
                            color_bytes(paint)
                        } else {
                            before.pixel_bytes(px, py)
                        },
                decreases self.width - x,
            {
                let ghost row = *self;
                self.set_pixel(x, y, paint);
                let next = if spacing < self.width - x {
                    x + spacing
                } else {
                    self.width
                };
                proof {
                    vstd::arithmetic::div_mod::lemma_mod_adds(x as int, step, step);
                    vstd::arithmetic::div_mod::lemma_mod_self_0(step);
                    assert forall|px: int, py: int| #[trigger]
                        before.contains(px, py) implies self.pixel_bytes(px, py) == if on_grid(
                        px,
                        py,
                        step,
                    ) && scanned(px, py, next as int, y as int) {
                        color_bytes(paint)
                    } else {
                        before.pixel_bytes(px, py)
                    } by {
                        assert(row.contains(px, py));
                        if py == y && x <= px < x + step && px % step == 0 {
                            lemma_grid_gap(step, x as int, px);
                        }
                    }
                }
                x = next;
            }
            let next_row = if spacing < self.height - y {
                y + spacing
            } else {
                self.height
            };
            proof {
                vstd::arithmetic::div_mod::lemma_mod_adds(y as int, step, step);
                vstd::arithmetic::div_mod::lemma_mod_self_0(step);
                assert forall|px: int, py: int| #[trigger]
                    before.contains(px, py) implies self.pixel_bytes(px, py) == if on_grid(
                    px,
                    py,
                    step,
                ) && scanned(px, py, 0, next_row as int) {
                    color_bytes(paint)
                } else {
                    before.pixel_bytes(px, py)
                } by {
                    if y <= py < y + step && py % step == 0 {
                        lemma_grid_gap(step, y as int, py);
                    }
                }
            }
            y = next_row;
        }
    }

    /// Fills the rectangle with corner `(x, y)` and sides `width` and
    /// `height`, provided that it ends before the last column and the last
    /// row; any other rectangle is ignored.
    fn draw_rect(&mut self, x: usize, y: usize, width: usize, height: usize, color: u32)
        ensures
            final(self).wf(),
            final(self).same_shape(old(self)),
            !(x + width < old(self).width() && y + height < old(self).height()) ==> final(self)@
                == old(self)@,
            x + width < old(self).width() && y + height < old(self).height() ==> forall|
                px: int,
                py: int,
            | #[trigger]
                old(self).contains(px, py) ==> final(self).pixel_bytes(px, py) == if in_rect(
                    px,
                    py,
                    x as int,
                    y as int,
                    width as int,
                    height as int,
                ) {
                    color_bytes(color)
                } else {
                    old(self).pixel_bytes(px, py)
                },
    {
        if x >= self.width || y >= self.height || width >= self.width - x || height
            >= self.height - y {
            return ;
        }
        let ghost before = *self;
        let mut ry: usize = y;
        while ry < y + height
            invariant
                y <= ry <= y + height < self.height,
                x + width < self.width,
                self.wf(),
                self.same_shape(&before),
                forall|px: int, py: int| #[trigger]
                    before.contains(px, py) ==> self.pixel_bytes(px, py) == if in_rect(
                        px,
                        py,
                        x as int,
                        y as int,
                        width as int,
                        height as int,
                    ) && scanned(px, py, x as int, ry as int) {
                        color_bytes(color)
                    } else {
                        before.pixel_bytes(px, py)
                    },
            decreases y + height - ry,
        {
            let mut rx: usize = x;
            while rx < x + width
                invariant
                    y <= ry < y + height < self.height,
                    x <= rx <= x + width < self.width,
                    self.wf(),
                    self.same_shape(&before),
                    forall|px: int, py: int| #[trigger]
                        before.contains(px, py) ==> self.pixel_bytes(px, py) == if in_rect(
                            px,
                            py,
                            x as int,
                            y as int,
                            width as int,
                            height as int,
                        ) && scanned(px, py, rx as int, ry as int) {
                            color_bytes(color)
                        } else {
                            before.pixel_bytes(px, py)
                        },
                decreases x + width - rx,
            {
                let ghost row = *self;
                self.set_pixel(rx, ry, color);
                assert forall|px: int, py: int| #[trigger]
                    before.contains(px, py) implies self.pixel_bytes(px, py) == if in_rect(
                    px,
                    py,
                    x as int,
                    y as int,
                    width as int,
                    height as int,
                ) && scanned(px, py, rx as int + 1, ry as int) {
                    color_bytes(color)
                } else {
                    before.pixel_bytes(px, py)
                } by {
                    assert(row.contains(px, py));
                }
                rx += 1;
            }
            ry += 1;
        }
    }

    /// Stores `color` at pixel `(x, y)`, as `set_pixel` does.
    fn draw_point(&mut self, x: usize, y: usize, color: u32)
        ensures
            final(self).wf(),
            final(self).same_shape(old(self)),
            !old(self).contains(x as int, y as int) ==> final(self)@ == old(self)@,
            forall|px: int, py: int| #[trigger]
                old(self).contains(px, py) ==> final(self).pixel_bytes(px, py) == if px == x && py
                    == y {
                    color_bytes(color)
                } else {
                    old(self).pixel_bytes(px, py)
                },
    {
        self.set_pixel(x, y, color);
    }

    /// Stores `color` at the pixel nearest to the sample at the coordinates
    /// `(x, y)`. A sample that falls on no pixel of the buffer is dropped:
    /// one that rounds to a place left of, above, right of or below the
    /// buffer, and one with a coordinate that is no number.
    fn draw_sample(&mut self, x: Scalar, y: Scalar, color: u32)
        ensures
            final(self).wf(),
            final(self).same_shape(old(self)),
            (forall|px: int, py: int| #[trigger]
                old(self).contains(px, py) ==> !sample_on(x, y, px, py)) ==> final(self)@ == old(self)@,
            forall|px: int, py: int| #[trigger]
                old(self).contains(px, py) ==> final(self).pixel_bytes(px, py) == if sample_on(
                    x,
                    y,
                    px,
                    py,
                ) {
                    color_bytes(color)
                } else {
                    old(self).pixel_bytes(px, py)
                },
    {
        match (pixel_of(x), pixel_of(y)) {
            (Some(column), Some(row)) => {
                self.set_pixel(column, row, color);
                proof {
                    if old(self).contains(column as int, row as int) {
                        assert(sample_on(x, y, column as int, row as int));
                    }
                }
            },
            _ => {},
        }
    }
}

/// Packing the four bytes of a color gives the color back.
pub proof fn lemma_color_round_trip(color: u32)
    ensures
        color_bytes(color).len() == 4,
        packed_color(color_bytes(color)) == color,
{
    let b0 = (color & 0xff) as u8;
    let b1 = ((color >> 8) & 0xff) as u8;
    let b2 = ((color >> 16) & 0xff) as u8;
    let b3 = ((color >> 24) & 0xff) as u8;
    assert(color_bytes(color)[0] == b0 && color_bytes(color)[1] == b1 && color_bytes(color)[2]
        == b2 && color_bytes(color)[3] == b3);
    assert((((color & 0xff) as u8) as u32) | ((((color >> 8) & 0xff) as u8) as u32) << 8 | ((((
    color >> 16) & 0xff) as u8) as u32) << 16 | ((((color >> 24) & 0xff) as u8) as u32) << 24
        == color) by (bit_vector);
}

/// Two well-formed buffers of one shape whose pixels hold the same bytes are
/// the same byte for byte: what a contract says of every pixel, it says of
/// the whole buffer.
pub proof fn lemma_pixels_determine_bytes(first: &ColorBuffer, second: &ColorBuffer)
    requires
        first.wf(),
        second.wf(),
        first.same_shape(second),
        forall|px: int, py: int| #[trigger]
            first.contains(px, py) ==> first.pixel_bytes(px, py) == second.pixel_bytes(px, py),
    ensures
        first@ == second@,
{
    assert forall|i: int| 0 <= i < first@.len() implies first@[i] == second@[i] by {
        lemma_byte_in_pixel(first, i);
        let pixel = i / 4;
        let px = pixel % (first.width() as int);
        let py = pixel / (first.width() as int);
        assert(first.contains(px, py));
        assert(first@[i] == first.pixel_bytes(px, py)[i % 4]);
        assert(second@[i] == second.pixel_bytes(px, py)[i % 4]);
    }
    assert(first@ =~= second@);
}

/// Every byte of a well-formed buffer belongs to exactly one of its pixels:
/// byte `i` is byte `i % 4` of pixel number `i / 4`.
pub proof fn lemma_byte_in_pixel(buffer: &ColorBuffer, i: int)
    requires
        buffer.wf(),
        0 <= i < buffer@.len(),
    ensures
        buffer.width() > 0,
        buffer.contains((i / 4) % (buffer.width() as int), (i / 4) / (buffer.width() as int)),
        buffer.offset((i / 4) % (buffer.width() as int), (i / 4) / (buffer.width() as int)) + i % 4
            == i,
{
    let w = buffer.width() as int;
    let h = buffer.height() as int;
    let pixel = i / 4;
    assert(w > 0 && h > 0 && pixel < w * h) by (nonlinear_arith)
        requires
            0 <= i < w * h * 4,
            0 <= w,
            0 <= h,
            pixel == i / 4,
    ;
    vstd::arithmetic::div_mod::lemma_fundamental_div_mod(pixel, w);
    vstd::arithmetic::div_mod::lemma_mod_pos_bound(pixel, w);
    vstd::arithmetic::div_mod::lemma_div_pos_is_pos(pixel, w);
    vstd::arithmetic::div_mod::lemma_multiply_divide_lt(pixel, w, h);
}

/// Two multiples of `step` less than `step` apart are the same number.
proof fn lemma_grid_gap(step: int, low: int, high: int)
    requires
        step > 0,
        low % step == 0,
        high % step == 0,
        low <= high < low + step,
    ensures
        high == low,
{
    vstd::arithmetic::div_mod::lemma_fundamental_div_mod(low, step);
    vstd::arithmetic::div_mod::lemma_fundamental_div_mod(high, step);
    let ql = low / step;
    let qh = high / step;
    assert(qh == ql) by (nonlinear_arith)
        requires
            step > 0,
            step * ql <= step * qh < step * ql + step,
    ;
}

/// The four bytes of an in-range pixel lie inside the byte array.
proof fn lemma_pixel_fits(width: int, height: int, x: int, y: int)
    requires
        0 <= x < width,
        0 <= y < height,
    ensures
        0 <= width * y + x < width * height,
        0 <= width * y <= width * y + x,
        (width * y + x) * 4 + 4 <= width * height * 4,
{
    assert(width * y + width <= width * height) by (nonlinear_arith)
        requires
            0 <= y < height,
            0 < width,
    ;
    assert(0 <= width * y) by (nonlinear_arith)
        requires
            0 <= y,
            0 < width,
    ;
}

/// Two different pixels of one image lie at least one pixel apart in the
/// row-major order.
proof fn lemma_pixels_apart(width: int, x: int, y: int, px: int, py: int)
    requires
        0 <= x < width,
        0 <= px < width,
        0 <= y,
        0 <= py,
    ensures
        (width * y + x == width * py + px) <==> (x == px && y == py),
{
    if y < py {
        assert(width * y + width <= width * py) by (nonlinear_arith)
            requires
                y < py,
                0 < width,
        ;
    } else if py < y {
        assert(width * py + width <= width * y) by (nonlinear_arith)
            requires
                py < y,
                0 < width,
        ;
    }
}

} // verus!
