//! The V9938 command engine.
//!
//! Software stages an operation in R32-R45 and writes the command code and
//! the logic-operation nibble to R46. The VRAM effect of a command happens at
//! once; the CE bit (bit 0 of S2) stays up for a modelled duration. LMMC, HMMC
//! and LMCM stream through R44 or S7 instead and keep CE up until the
//! rectangle is done.
use vstd::prelude::*;

verus! {

#[allow(unused_imports)]
use vstd::arithmetic::div_mod::{lemma_fundamental_div_mod, lemma_fundamental_div_mod_converse};

/// A CPU-streamed transfer in progress.
#[derive(Copy, Clone, PartialEq, Eq, Structural, Debug)]
pub enum CpuXfer {
    /// No transfer: R44 and S7 behave as plain registers.
    Idle,
    /// Logical move CPU to VRAM, one pixel per R44 write.
    Lmmc { logic_op: u8 },
    /// High-speed move CPU to VRAM, one byte per R44 write.
    Hmmc,
    /// Logical move VRAM to CPU, one pixel per S7 read.
    Lmcm,
}

impl Default for CpuXfer {
    fn default() -> (r: Self)
        ensures
            r == CpuXfer::Idle,
    {
        CpuXfer::Idle
    }
}

/// Layout of the bitmap page of a screen mode.
#[derive(Copy, Clone, PartialEq, Eq, Structural)]
pub struct PixelLayout {
    /// Bits per pixel: 2 (G5), 4 (G4, G6) or 8 (G7).
    pub bpp: u32,
    /// Bytes per row in VRAM.
    pub pitch: u32,
    /// Pixels per row.
    pub width: u32,
    /// Visible rows. Commands do not clamp to it.
    pub height: u32,
}

/// SCREEN 5.
pub open spec fn layout_g4() -> PixelLayout {
    PixelLayout { bpp: 4, pitch: 128, width: 256, height: 212 }
}

/// SCREEN 6.
pub open spec fn layout_g5() -> PixelLayout {
    PixelLayout { bpp: 2, pitch: 128, width: 512, height: 212 }
}

/// SCREEN 7.
pub open spec fn layout_g6() -> PixelLayout {
    PixelLayout { bpp: 4, pitch: 256, width: 512, height: 212 }
}

/// SCREEN 8.
pub open spec fn layout_g7() -> PixelLayout {
    PixelLayout { bpp: 8, pitch: 256, width: 256, height: 212 }
}

impl PixelLayout {
    /// One of the four bitmap modes.
    pub open spec fn wf(self) -> bool {
        ||| self == layout_g4()
        ||| self == layout_g5()
        ||| self == layout_g6()
        ||| self == layout_g7()
    }

    /// Pixels in one byte.
    pub open spec fn ppb(self) -> int {
        if self.bpp == 8 {
            1
        } else if self.bpp == 4 {
            2
        } else {
            4
        }
    }

    /// The byte column that holds pixel column `x`.
    pub open spec fn column(self, x: int) -> int {
        if self.bpp == 8 {
            x
        } else if self.bpp == 4 {
            x / 2
        } else {
            x / 4
        }
    }

    /// Which pixel of its byte pixel column `x` is, from the left.
    pub open spec fn place(self, x: int) -> int {
        if self.bpp == 8 {
            0
        } else if self.bpp == 4 {
            x % 2
        } else {
            x % 4
        }
    }

    /// VRAM address of the first byte of row `y`.
    pub open spec fn row_start(self, y: int) -> int {
        if self.pitch == 128 {
            y * 128
        } else {
            y * 256
        }
    }

    /// Byte columns that `n` pixels take up.
    pub open spec fn columns_for(self, n: int) -> int {
        if self.bpp == 8 {
            n
        } else if self.bpp == 4 {
            (n + 1) / 2
        } else {
            (n + 3) / 4
        }
    }

    /// The row that VRAM address `a` belongs to.
    pub open spec fn row_of(self, a: int) -> int {
        if self.pitch == 128 {
            a / 128
        } else {
            a / 256
        }
    }

    /// The byte column that VRAM address `a` belongs to.
    pub open spec fn column_of(self, a: int) -> int {
        if self.pitch == 128 {
            a % 128
        } else {
            a % 256
        }
    }

    /// All bits of one pixel.
    pub open spec fn mask(self) -> u8 {
        if self.bpp == 8 {
            0xFF
        } else if self.bpp == 4 {
            0x0F
        } else {
            0x03
        }
    }

    /// VRAM address of the byte that holds pixel `(x, y)`.
    pub open spec fn address(self, x: int, y: int) -> int {
        self.row_start(y) + self.column(x)
    }

    /// Pixels packed into one VRAM byte.
    pub fn pixels_per_byte(&self) -> (r: u32)
        requires
            self.wf(),
        ensures
            r == self.ppb(),
            r == 1 || r == 2 || r == 4,
    {
        if self.bpp == 8 {
            1
        } else if self.bpp == 4 {
            2
        } else {
            4
        }
    }

    /// The byte column that holds pixel column `x`.
    fn byte_column(&self, x: u32) -> (r: u32)
        requires
            self.wf(),
        ensures
            r == self.column(x as int),
            r <= x,
    {
        if self.bpp == 8 {
            x
        } else if self.bpp == 4 {
            x / 2
        } else {
            x / 4
        }
    }

    /// Byte columns that `n` pixels take up.
    fn byte_columns_for(&self, n: u32) -> (r: u32)
        requires
            self.wf(),
            n < 0x1_0000,
        ensures
            r == self.columns_for(n as int),
            r <= n,
    {
        if self.bpp == 8 {
            n
        } else if self.bpp == 4 {
            (n + 1) / 2
        } else {
            (n + 3) / 4
        }
    }

    /// VRAM address of the byte that holds pixel `(x, y)`.
    fn byte_address(&self, x: u32, y: u32) -> (r: usize)
        requires
            self.wf(),
            self.address(x as int, y as int) <= u32::MAX,
        ensures
            r == self.address(x as int, y as int),
    {
        self.row_address(y) + self.byte_column(x) as usize
    }

    /// VRAM address of the first byte of row `y`.
    fn row_address(&self, y: u32) -> (r: usize)
        requires
            self.wf(),
            self.row_start(y as int) <= u32::MAX,
        ensures
            r == self.row_start(y as int),
    {
        let row: u32 = if self.pitch == 128 {
            y * 128
        } else {
            y * 256
        };
        row as usize
    }

    /// Mask covering one pixel's worth of bits within a byte.
    pub fn pixel_mask(&self) -> (r: u8)
        requires
            self.wf(),
        ensures
            r == self.mask(),
    {
        if self.bpp == 8 {
            0xFF
        } else if self.bpp == 4 {
            0x0F
        } else {
            0x03
        }
    }
}

/// The colour of pixel `k` of a byte, counted from the left.
pub open spec fn byte_pixel(b: u8, bpp: u32, k: int) -> u8 {
    if bpp == 8 {
        b
    } else if bpp == 4 {
        if k == 0 {
            b / 16
        } else {
            b % 16
        }
    } else {
        if k == 0 {
            b / 64
        } else if k == 1 {
            (b / 16) % 4
        } else if k == 2 {
            (b / 4) % 4
        } else {
            b % 4
        }
    }
}

/// The byte whose pixel `k` has colour `f(k)`.
pub open spec fn byte_of_pixels(bpp: u32, f: spec_fn(int) -> u8) -> u8 {
    if bpp == 8 {
        f(0)
    } else if bpp == 4 {
        (f(0) * 16 + f(1)) as u8
    } else {
        (f(0) * 64 + f(1) * 16 + f(2) * 4 + f(3)) as u8
    }
}

/// `b` with pixel `k` replaced by colour `c`.
pub open spec fn byte_with_pixel(b: u8, bpp: u32, k: int, c: u8) -> u8 {
    byte_of_pixels(
        bpp,
        |i: int|
            if i == k {
                c
            } else {
                byte_pixel(b, bpp, i)
            },
    )
}

/// The colour of pixel `(x, y)`; 0 past the end of VRAM.
pub open spec fn pixel_at(v: Seq<u8>, l: PixelLayout, x: int, y: int) -> u8 {
    let a = l.address(x, y);
    if 0 <= a < v.len() {
        byte_pixel(v[a], l.bpp, l.place(x))
    } else {
        0
    }
}

/// VRAM with pixel `(x, y)` set to `c`; unchanged past the end of VRAM.
pub open spec fn set_pixel(v: Seq<u8>, l: PixelLayout, x: int, y: int, c: u8) -> Seq<u8> {
    let a = l.address(x, y);
    if 0 <= a < v.len() {
        v.update(a, byte_with_pixel(v[a], l.bpp, l.place(x), c & l.mask()))
    } else {
        v
    }
}

/// Combine a source colour with the colour already there. Bit 3 of `op` leaves
/// the destination alone where the source is 0; bits 0-2 select IMP, AND, OR,
/// XOR or NOT, and the reserved codes act as IMP.
pub open spec fn logic_result(src: u8, dst: u8, op: u8, mask: u8) -> u8 {
    if op & 0x08 != 0 && src == 0 {
        dst
    } else {
        let base = op & 0x07;
        if base == 1 {
            (src & dst) & mask
        } else if base == 2 {
            (src | dst) & mask
        } else if base == 3 {
            (src ^ dst) & mask
        } else if base == 4 {
            (!src) & mask
        } else {
            src & mask
        }
    }
}

/// Apply a V9938 logic operation between a source pixel and the destination.
pub fn apply_logic_op(src: u8, dst: u8, op: u8, pixel_mask: u8) -> (r: u8)
    ensures
        r == logic_result(src, dst, op, pixel_mask),
{
    if (op & 0x08) != 0 && src == 0 {
        return dst;
    }
    let result: u8 = match op & 0x07 {
        0 => src,
        1 => src & dst,
        2 => src | dst,
        3 => src ^ dst,
        4 => !src,
        _ => src,
    };
    result & pixel_mask
}

/// Everything a command reads or writes, as values.
#[verifier::ext_equal]
pub struct EngineState {
    pub regs: Seq<u8>,
    pub vram: Seq<u8>,
    pub status: Seq<u8>,
    pub xfer: CpuXfer,
    pub x: int,
    pub y: int,
    pub busy: int,
}

/// A register pair as one little-endian number.
pub open spec fn reg_word(regs: Seq<u8>, lo: int) -> int {
    regs[lo] + 256 * regs[lo + 1]
}

/// -1 when any bit of `bit` is up in the argument register, else 1.
pub open spec fn direction(arg: u8, bit: u8) -> int {
    if arg & bit != 0 {
        -1
    } else {
        1
    }
}

/// `a` unless it is smaller than `b`.
pub open spec fn at_least(a: int, b: int) -> int {
    if a < b {
        b
    } else {
        a
    }
}

/// The smaller of two numbers.
pub open spec fn smaller(a: int, b: int) -> int {
    if a < b {
        a
    } else {
        b
    }
}

/// `n` steps from `start` on in direction `step`.
pub open spec fn moved(start: int, step: int, n: int) -> int {
    if step < 0 {
        start - n
    } else {
        start + n
    }
}

/// `v` is one of `n` consecutive values from `start` on in direction `step`.
pub open spec fn in_span(start: int, step: int, n: int, v: int) -> bool {
    if step < 0 {
        start - n < v <= start
    } else {
        start <= v < start + n
    }
}

/// `v` is one of the values of a span: start, direction, count.
pub open spec fn spans(span: (int, int, int), v: int) -> bool {
    in_span(span.0, span.1, span.2, v)
}

/// VRAM with every byte in the given columns and rows set to `value`.
pub open spec fn fill_bytes(
    v: Seq<u8>,
    l: PixelLayout,
    columns: (int, int, int),
    rows: (int, int, int),
    value: u8,
) -> Seq<u8> {
    Seq::new(
        v.len(),
        |a: int|
            if spans(rows, l.row_of(a)) && spans(columns, l.column_of(a)) {
                value
            } else {
                v[a]
            },
    )
}

/// VRAM with the byte at one column and row copied to another; unchanged when
/// either lies off the page or past the end of VRAM.
pub open spec fn copy_byte(
    v: Seq<u8>,
    l: PixelLayout,
    src: (int, int),
    dst: (int, int),
) -> Seq<u8> {
    let from = l.row_start(src.1) + src.0;
    let to = l.row_start(dst.1) + dst.0;
    if 0 <= src.0 < l.pitch && 0 <= dst.0 < l.pitch && 0 <= src.1 && 0 <= dst.1 && from < v.len()
        && to < v.len() {
        v.update(to, v[from])
    } else {
        v
    }
}

/// The first `n` bytes of a row, copied one after the other.
pub open spec fn copy_row(
    v: Seq<u8>,
    l: PixelLayout,
    src: (int, int),
    dst: (int, int),
    step: int,
    n: int,
) -> Seq<u8>
    decreases n,
{
    if n <= 0 {
        v
    } else {
        copy_byte(
            copy_row(v, l, src, dst, step, n - 1),
            l,
            (moved(src.0, step, n - 1), src.1),
            (moved(dst.0, step, n - 1), dst.1),
        )
    }
}

/// The first `rows` rows of a byte rectangle, copied one after the other.
pub open spec fn copy_rows(
    v: Seq<u8>,
    l: PixelLayout,
    src: (int, int),
    dst: (int, int),
    step: (int, int),
    cols: int,
    rows: int,
) -> Seq<u8>
    decreases rows,
{
    if rows <= 0 {
        v
    } else {
        copy_row(
            copy_rows(v, l, src, dst, step, cols, rows - 1),
            l,
            (src.0, moved(src.1, step.1, rows - 1)),
            (dst.0, moved(dst.1, step.1, rows - 1)),
            step.0,
            cols,
        )
    }
}

/// VRAM with one pixel combined into another; unchanged when either lies off
/// the page.
pub open spec fn move_pixel(
    v: Seq<u8>,
    l: PixelLayout,
    op: u8,
    src: (int, int),
    dst: (int, int),
) -> Seq<u8> {
    if 0 <= src.0 < l.width && 0 <= dst.0 < l.width && 0 <= src.1 && 0 <= dst.1 {
        set_pixel(
            v,
            l,
            dst.0,
            dst.1,
            logic_result(
                pixel_at(v, l, src.0, src.1),
                pixel_at(v, l, dst.0, dst.1),
                op,
                l.mask(),
            ),
        )
    } else {
        v
    }
}

/// The first `n` pixels of a row, moved one after the other.
pub open spec fn move_row(
    v: Seq<u8>,
    l: PixelLayout,
    op: u8,
    src: (int, int),
    dst: (int, int),
    step: int,
    n: int,
) -> Seq<u8>
    decreases n,
{
    if n <= 0 {
        v
    } else {
        move_pixel(
            move_row(v, l, op, src, dst, step, n - 1),
            l,
            op,
            (moved(src.0, step, n - 1), src.1),
            (moved(dst.0, step, n - 1), dst.1),
        )
    }
}

/// The first `rows` rows of a pixel rectangle, moved one after the other.
pub open spec fn move_rows(
    v: Seq<u8>,
    l: PixelLayout,
    op: u8,
    src: (int, int),
    dst: (int, int),
    step: (int, int),
    cols: int,
    rows: int,
) -> Seq<u8>
    decreases rows,
{
    if rows <= 0 {
        v
    } else {
        move_row(
            move_rows(v, l, op, src, dst, step, cols, rows - 1),
            l,
            op,
            (src.0, moved(src.1, step.1, rows - 1)),
            (dst.0, moved(dst.1, step.1, rows - 1)),
            step.0,
            cols,
        )
    }
}

/// VRAM with colour `clr` combined into pixel `(x, y)`; unchanged off the page.
pub open spec fn plot(v: Seq<u8>, l: PixelLayout, op: u8, clr: u8, x: int, y: int) -> Seq<u8> {
    if 0 <= x < l.width && 0 <= y {
        set_pixel(v, l, x, y, logic_result(clr, pixel_at(v, l, x, y), op, l.mask()))
    } else {
        v
    }
}

/// VRAM with colours combined into pixels, one after the other. Each dot has a
/// column, a row and a colour.
pub open spec fn plots(v: Seq<u8>, l: PixelLayout, op: u8, dots: Seq<(int, int, u8)>) -> Seq<u8>
    decreases dots.len(),
{
    if dots.len() == 0 {
        v
    } else {
        let w = plots(v, l, op, dots.drop_last());
        plot(w, l, op, dots.last().2, dots.last().0, dots.last().1)
    }
}

/// VRAM with colour `clr` combined into every pixel of the given columns and
/// rows.
pub open spec fn paint(
    v: Seq<u8>,
    l: PixelLayout,
    op: u8,
    clr: u8,
    columns: (int, int, int),
    rows: (int, int, int),
) -> Seq<u8> {
    Seq::new(
        v.len(),
        |a: int|
            byte_of_pixels(
                l.bpp,
                |k: int|
                    if spans(rows, l.row_of(a)) && spans(columns, l.column_of(a) * l.ppb() + k) {
                        logic_result(clr, byte_pixel(v[a], l.bpp, k), op, l.mask())
                    } else {
                        byte_pixel(v[a], l.bpp, k)
                    },
            ),
    )
}

/// `n` consecutive bytes from `src` on copied to `dst` one after the other;
/// those past the end of VRAM are left out.
pub open spec fn copy_run(v: Seq<u8>, src: int, dst: int, n: int) -> Seq<u8>
    decreases n,
{
    if n <= 0 {
        v
    } else {
        let w = copy_run(v, src, dst, n - 1);
        if src + n - 1 < w.len() && dst + n - 1 < w.len() {
            w.update(dst + n - 1, w[src + n - 1])
        } else {
            w
        }
    }
}

/// The first `rows` runs of a vertical move.
pub open spec fn copy_runs(
    v: Seq<u8>,
    l: PixelLayout,
    col: int,
    cols: int,
    sy: int,
    dy: int,
    step: int,
    rows: int,
) -> Seq<u8>
    decreases rows,
{
    if rows <= 0 {
        v
    } else {
        let w = copy_runs(v, l, col, cols, sy, dy, step, rows - 1);
        let s = moved(sy, step, rows - 1);
        let d = moved(dy, step, rows - 1);
        if s < 0 || d < 0 {
            w
        } else {
            copy_run(w, l.row_start(s) + col, l.row_start(d) + col, cols)
        }
    }
}

/// A line from a point on: `steps` along the major axis, `minor` along the other.
pub struct Line {
    pub x: int,
    pub y: int,
    pub y_major: bool,
    pub dix: int,
    pub diy: int,
    pub steps: int,
    pub minor: int,
    pub clr: u8,
}

impl Line {
    /// Steps along the minor axis that go with `k` along the major one: the share
    /// of the minor length, rounded down, and never more than `k`.
    pub open spec fn across(self, k: int) -> int {
        smaller(k, (k * self.minor) / self.steps)
    }

    /// The column of the line after `k` steps.
    pub open spec fn column(self, k: int) -> int {
        if self.y_major {
            moved(self.x, self.dix, self.across(k))
        } else {
            moved(self.x, self.dix, k)
        }
    }

    /// The row of the line after `k` steps.
    pub open spec fn row(self, k: int) -> int {
        if self.y_major {
            moved(self.y, self.diy, k)
        } else {
            moved(self.y, self.diy, self.across(k))
        }
    }

    /// The first `n` pixels of the line.
    pub open spec fn dots(self, n: int) -> Seq<(int, int, u8)> {
        Seq::new(n as nat, |k: int| (self.column(k), self.row(k), self.clr))
    }
}

/// Adding the minor length to an accumulator at each step, and taking the major
/// length away when it is reached, counts the steps along the minor axis.
pub(crate) proof fn lemma_across(p: Line, k: int)
    requires
        k >= 0,
        p.steps >= 1,
        p.minor >= 0,
    ensures
        0 <= p.across(k) <= k,
        ({
            let acc = k * p.minor - p.steps * p.across(k);
            let turn = acc + p.minor >= p.steps;
            &&& acc >= 0
            &&& p.across(k + 1) == p.across(k) + (if turn {
                1int
            } else {
                0
            })
            &&& (k + 1) * p.minor - p.steps * p.across(k + 1) == acc + p.minor - (if turn {
                p.steps
            } else {
                0
            })
        }),
{
    let m = p.minor;
    let n = p.steps;
    let q = (k * m) / n;
    let r = (k * m) % n;
    assert((k + 1) * m == k * m + m) by (nonlinear_arith);
    assert(k * m >= 0) by (nonlinear_arith)
        requires
            k >= 0,
            m >= 0,
    ;
    lemma_fundamental_div_mod(k * m, n);
    assert(0 <= r < n);
    if m <= n {
        assert(k * m <= k * n) by (nonlinear_arith)
            requires
                k >= 0,
                m <= n,
        ;
        assert(q <= k) by (nonlinear_arith)
            requires
                k * m <= k * n,
                k * m == n * q + r,
                0 <= r < n,
        ;
        assert(q >= 0) by (nonlinear_arith)
            requires
                k * m >= 0,
                k * m == n * q + r,
                0 <= r < n,
        ;
        let turn = r + m >= n;
        let q2 = if turn {
            q + 1
        } else {
            q
        };
        let r2 = if turn {
            r + m - n
        } else {
            r + m
        };
        assert((q + 1) * n == q * n + n) by (nonlinear_arith);
        assert(n * q == q * n) by (nonlinear_arith);
        lemma_fundamental_div_mod_converse((k + 1) * m, n, q2, r2);
        assert(n * q2 == q2 * n) by (nonlinear_arith);
    } else {
        assert(k * m >= k * n) by (nonlinear_arith)
            requires
                k >= 0,
                m >= n,
        ;
        assert(q >= k) by (nonlinear_arith)
            requires
                k * m >= k * n,
                k * m == n * q + r,
                0 <= r < n,
        ;
        assert((k + 1) * m >= (k + 1) * n) by (nonlinear_arith)
            requires
                k >= 0,
                m >= n,
        ;
        let q2 = ((k + 1) * m) / n;
        let r2 = ((k + 1) * m) % n;
        lemma_fundamental_div_mod((k + 1) * m, n);
        assert(q2 >= k + 1) by (nonlinear_arith)
            requires
                (k + 1) * m >= (k + 1) * n,
                (k + 1) * m == n * q2 + r2,
                0 <= r2 < n,
        ;
        assert(n * k == k * n) by (nonlinear_arith);
        assert(n * (k + 1) == n * k + n) by (nonlinear_arith);
    }
}

/// The first column from `x` on, going left or right, whose pixel in row `y`
/// is equal to `clr` (or differs from it, for `eq` down); `None` if the border
/// comes first.
pub open spec fn search(
    v: Seq<u8>,
    l: PixelLayout,
    x: int,
    y: int,
    left: bool,
    clr: u8,
    eq: bool,
) -> Option<int>
    decreases
            (if left {
                x + 1
            } else {
                l.width - x
            }),
{
    if x < 0 || x >= l.width {
        None
    } else if (pixel_at(v, l, x, y) == clr) == eq {
        Some(x)
    } else {
        let next = if left {
            x - 1
        } else {
            x + 1
        };
        search(v, l, next, y, left, clr, eq)
    }
}

impl EngineState {
    /// The bitmap layout of the mode in R0 and R1, if the engine works in it.
    pub open spec fn layout(self) -> Option<PixelLayout> {
        let m = self.regs[0] & 0x0E;
        if self.regs[1] & 0x18 != 0 {
            None
        } else if m == 0x06 {
            Some(layout_g4())
        } else if m == 0x08 {
            Some(layout_g5())
        } else if m == 0x0A {
            Some(layout_g6())
        } else if m == 0x0E {
            Some(layout_g7())
        } else {
            None
        }
    }

    pub open spec fn sx(self) -> int {
        reg_word(self.regs, 32) % 512
    }

    pub open spec fn sy(self) -> int {
        reg_word(self.regs, 34) % 1024
    }

    pub open spec fn dx(self) -> int {
        reg_word(self.regs, 36) % 512
    }

    pub open spec fn dy(self) -> int {
        reg_word(self.regs, 38) % 1024
    }

    pub open spec fn nx(self) -> int {
        reg_word(self.regs, 40) % 1024
    }

    pub open spec fn ny(self) -> int {
        reg_word(self.regs, 42) % 1024
    }

    pub open spec fn dix(self) -> int {
        direction(self.regs[45], 0x04)
    }

    pub open spec fn diy(self) -> int {
        direction(self.regs[45], 0x08)
    }

    /// Rows of a rectangle command: 0 stands for the whole 1024.
    pub open spec fn rows(self) -> int {
        if self.ny() == 0 {
            1024
        } else {
            self.ny()
        }
    }

    /// A coordinate written back to a register pair: the low ten bits.
    pub open spec fn with_pair(self, lo: int, value: int) -> EngineState {
        EngineState {
            regs: self.regs.update(lo, (value % 256) as u8).update(
                lo + 1,
                ((value / 256) % 4) as u8,
            ),
            ..self
        }
    }

    /// HMMV: fill a byte-aligned rectangle with the colour byte.
    pub open spec fn after_hmmv(self) -> EngineState {
        match self.layout() {
            None => self,
            Some(l) => {
                let col = l.column(self.dx());
                let cols = if self.nx() != 0 {
                    l.columns_for(self.nx())
                } else if self.dix() < 0 {
                    col + 1
                } else {
                    l.pitch - col
                };
                self.with_vram(
                    fill_bytes(
                        self.vram,
                        l,
                        (col, self.dix(), cols),
                        (self.dy(), self.diy(), self.rows()),
                        self.regs[44],
                    ),
                ).with_pair(38, moved(self.dy(), self.diy(), self.rows())).with_pair(42, 0)
            },
        }
    }

    /// HMMM: copy a byte-aligned rectangle, byte by byte.
    pub open spec fn after_hmmm(self) -> EngineState {
        match self.layout() {
            None => self,
            Some(l) => {
                let sc = l.column(self.sx());
                let dc = l.column(self.dx());
                let cols = if self.nx() != 0 {
                    l.columns_for(self.nx())
                } else if self.dix() < 0 {
                    smaller(sc, dc) + 1
                } else {
                    l.pitch - at_least(sc, dc)
                };
                self.with_vram(
                    copy_rows(
                        self.vram,
                        l,
                        (sc, self.sy()),
                        (dc, self.dy()),
                        (self.dix(), self.diy()),
                        cols,
                        self.rows(),
                    ),
                ).with_pair(34, moved(self.sy(), self.diy(), self.rows())).with_pair(
                    38,
                    moved(self.dy(), self.diy(), self.rows()),
                ).with_pair(42, 0)
            },
        }
    }

    /// LMMV: combine the colour into every pixel of a rectangle.
    pub open spec fn after_lmmv(self, op: u8) -> EngineState {
        match self.layout() {
            None => self,
            Some(l) => {
                let cols = if self.nx() != 0 {
                    self.nx()
                } else if self.dix() < 0 {
                    self.dx() + 1
                } else {
                    l.width - self.dx()
                };
                self.with_vram(
                    paint(
                        self.vram,
                        l,
                        op,
                        self.regs[44] & l.mask(),
                        (self.dx(), self.dix(), cols),
                        (self.dy(), self.diy(), self.rows()),
                    ),
                ).with_pair(38, moved(self.dy(), self.diy(), self.rows())).with_pair(42, 0)
            },
        }
    }

    /// LMMM: combine a rectangle of pixels into another, pixel by pixel.
    pub open spec fn after_lmmm(self, op: u8) -> EngineState {
        match self.layout() {
            None => self,
            Some(l) => {
                let cols = if self.nx() != 0 {
                    self.nx()
                } else if self.dix() < 0 {
                    smaller(self.sx(), self.dx()) + 1
                } else {
                    l.width - at_least(self.sx(), self.dx())
                };
                self.with_vram(
                    move_rows(
                        self.vram,
                        l,
                        op,
                        (self.sx(), self.sy()),
                        (self.dx(), self.dy()),
                        (self.dix(), self.diy()),
                        cols,
                        self.rows(),
                    ),
                ).with_pair(34, moved(self.sy(), self.diy(), self.rows())).with_pair(
                    38,
                    moved(self.dy(), self.diy(), self.rows()),
                ).with_pair(42, 0)
            },
        }
    }

    /// PSET: combine the colour into one pixel.
    pub open spec fn after_pset(self, op: u8) -> EngineState {
        match self.layout() {
            None => self,
            Some(l) => self.with_vram(
                plot(self.vram, l, op, self.regs[44] & l.mask(), self.dx(), self.dy()),
            ),
        }
    }

    /// POINT: the colour of one pixel goes to S7; 0 off the page.
    pub open spec fn after_point(self) -> EngineState {
        match self.layout() {
            None => self,
            Some(l) => self.with_status(
                7,
                if self.sx() < l.width {
                    pixel_at(self.vram, l, self.sx(), self.sy())
                } else {
                    0
                },
            ),
        }
    }

    /// LINE: a straight line, both ends included.
    pub open spec fn after_line(self, op: u8) -> EngineState {
        match self.layout() {
            None => self,
            Some(l) => {
                let p = self.line(l);
                self.with_vram(plots(self.vram, l, op, p.dots(p.steps + 1))).with_pair(
                    38,
                    p.row(p.steps + 1),
                )
            },
        }
    }

    /// The line that the registers describe.
    pub open spec fn line(self, l: PixelLayout) -> Line {
        Line {
            x: self.dx(),
            y: self.dy(),
            y_major: self.regs[45] & 0x01 != 0,
            dix: self.dix(),
            diy: self.diy(),
            steps: at_least(self.nx(), 1),
            minor: self.ny(),
            clr: self.regs[44] & l.mask(),
        }
    }

    /// SRCH: BD (bit 4 of S2) tells whether the colour was found, S8 and S9
    /// where.
    pub open spec fn after_srch(self) -> EngineState {
        match self.layout() {
            None => self,
            Some(l) => {
                let found = search(
                    self.vram,
                    l,
                    self.sx(),
                    self.sy(),
                    self.dix() < 0,
                    self.regs[44] & l.mask(),
                    self.regs[45] & 0x02 != 0,
                );
                let cleared = self.status[2] & !0x10u8;
                match found {
                    None => self.with_status(2, cleared),
                    Some(x) => self.with_status(2, cleared | 0x10).with_status(
                        8,
                        (x % 256) as u8,
                    ).with_status(
                        9,
                        if x < 256 {
                            0xFE
                        } else {
                            0xFF
                        },
                    ),
                }
            },
        }
    }

    /// YMMM: move whole row ends up or down, from DX to the border.
    pub open spec fn after_ymmm(self) -> EngineState {
        match self.layout() {
            None => self,
            Some(l) => {
                let dc = l.column(self.dx());
                let rows = at_least(self.ny(), 1);
                let (col, cols) = if self.dix() < 0 {
                    (0, dc + 1)
                } else {
                    (dc, l.pitch - dc)
                };
                self.with_vram(
                    copy_runs(
                        self.vram,
                        l,
                        col,
                        cols,
                        self.sy(),
                        self.dy(),
                        self.diy(),
                        rows,
                    ),
                ).with_pair(34, moved(self.sy(), self.diy(), rows)).with_pair(
                    38,
                    moved(self.dy(), self.diy(), rows),
                ).with_pair(42, 0)
            },
        }
    }

    /// The state with no transfer running.
    pub open spec fn idle(self) -> EngineState {
        EngineState { xfer: CpuXfer::Idle, x: 0, y: 0, ..self }
    }

    /// STOP: abort a transfer and drop TR (bit 7 of S2).
    pub open spec fn after_stop(self) -> EngineState {
        self.idle().with_status(2, self.status[2] & !0x80u8)
    }

    /// The transfer counters one unit further on in rows of `n` units.
    pub open spec fn advanced(self, n: int) -> EngineState {
        if self.x + 1 >= n {
            EngineState { x: 0, y: self.y + 1, ..self }
        } else {
            EngineState { x: self.x + 1, ..self }
        }
    }

    /// The R44 value `value` goes through the running CPU-to-VRAM transfer.
    pub open spec fn pumped(self, value: u8) -> EngineState {
        match (self.layout(), self.xfer) {
            (Some(l), CpuXfer::Lmmc { logic_op }) => {
                let x = moved(self.dx(), self.dix(), self.x);
                let y = moved(self.dy(), self.diy(), self.y);
                self.with_vram(
                    plot(self.vram, l, logic_op, value & l.mask(), x, y),
                ).advanced(at_least(self.nx(), 1)).write_done(self)
            },
            (Some(l), CpuXfer::Hmmc) => {
                let col = moved(l.column(self.dx()), self.dix(), self.x);
                let y = moved(self.dy(), self.diy(), self.y);
                let a = l.row_start(y) + col;
                let v = if 0 <= col < l.pitch && 0 <= y && a < self.vram.len() {
                    self.vram.update(a, value)
                } else {
                    self.vram
                };
                self.with_vram(v).advanced(l.columns_for(at_least(self.nx(), 1))).write_done(self)
            },
            _ => self,
        }
    }

    /// The end of a CPU-to-VRAM transfer, once its rows are full.
    pub open spec fn write_done(self, before: EngineState) -> EngineState {
        let rows = at_least(before.ny(), 1);
        if self.y >= rows {
            self.with_pair(38, moved(before.dy(), before.diy(), rows)).with_pair(
                42,
                0,
            ).idle().with_status(2, self.status[2] & !0x81u8)
        } else {
            self
        }
    }

    /// The pixel that the running VRAM-to-CPU transfer points at goes to S7.
    pub open spec fn preloaded(self) -> EngineState {
        match self.layout() {
            None => self,
            Some(l) => {
                let x = moved(self.sx(), self.dix(), self.x);
                let y = moved(self.sy(), self.diy(), self.y);
                self.with_status(
                    7,
                    if 0 <= x < l.width && 0 <= y {
                        pixel_at(self.vram, l, x, y)
                    } else {
                        0
                    },
                )
            },
        }
    }

    /// One S7 read of a VRAM-to-CPU transfer moves on to the next pixel.
    pub open spec fn drained(self) -> EngineState {
        let rows = at_least(self.ny(), 1);
        let next = self.advanced(at_least(self.nx(), 1));
        if next.y >= rows {
            next.with_pair(34, moved(self.sy(), self.diy(), rows)).with_pair(
                42,
                0,
            ).idle().with_status(2, self.status[2] & !0x81u8)
        } else {
            next.preloaded()
        }
    }

    /// A transfer set up: counters at 0, TR and CE up.
    pub open spec fn started(self, xfer: CpuXfer) -> EngineState {
        EngineState { xfer, x: 0, y: 0, ..self }.with_status(2, self.status[2] | 0x81)
    }

    /// T-states for which a command keeps the engine busy.
    pub open spec fn duration(self, cmd: int) -> int {
        match self.layout() {
            None => 0,
            Some(l) => {
                let nx = at_least(self.nx(), 1);
                let ny = at_least(self.ny(), 1);
                if cmd == 0xC {
                    10 * (l.columns_for(nx) * ny)
                } else if cmd == 0xD {
                    20 * (l.columns_for(nx) * ny)
                } else if cmd == 0xE {
                    17 * (l.pitch * ny)
                } else if cmd == 0x8 {
                    21 * (nx * ny)
                } else if cmd == 0x9 {
                    29 * (nx * ny)
                } else if cmd == 0x7 {
                    23 * at_least(nx, ny)
                } else if cmd == 0x6 {
                    5 * nx
                } else {
                    0
                }
            },
        }
    }

    /// What the command with opcode `cmd` does, CE apart.
    pub open spec fn commanded(self, cmd: int, op: u8) -> EngineState {
        if cmd == 0x0 {
            self.after_stop()
        } else if cmd == 0x4 {
            self.after_point()
        } else if cmd == 0x5 {
            self.after_pset(op)
        } else if cmd == 0x6 {
            self.after_srch()
        } else if cmd == 0x7 {
            self.after_line(op)
        } else if cmd == 0x8 {
            self.after_lmmv(op)
        } else if cmd == 0x9 {
            self.after_lmmm(op)
        } else if cmd == 0xA {
            EngineState { xfer: CpuXfer::Lmcm, x: 0, y: 0, ..self }.preloaded().with_status(
                2,
                self.status[2] | 0x81,
            )
        } else if cmd == 0xB {
            self.started(CpuXfer::Lmmc { logic_op: op }).pumped(self.regs[44])
        } else if cmd == 0xC {
            self.after_hmmv()
        } else if cmd == 0xD {
            self.after_hmmm()
        } else if cmd == 0xE {
            self.after_ymmm()
        } else if cmd == 0xF {
            self.started(CpuXfer::Hmmc).pumped(self.regs[44])
        } else {
            self
        }
    }

    /// The command in R46 carried out. A command that streams keeps CE up until
    /// its rectangle is done, any other for the duration of the rectangle as it
    /// was staged.
    pub open spec fn executed(self) -> EngineState {
        let cmd = (self.regs[46] / 16) as int;
        let op = self.regs[46] % 16;
        let done = self.with_status(2, self.status[2] | 0x01).commanded(cmd, op);
        if done.xfer == CpuXfer::Idle {
            let busy = EngineState { busy: self.duration(cmd), ..done };
            if busy.busy <= 0 {
                busy.with_status(2, busy.status[2] & !0x01u8)
            } else {
                busy
            }
        } else {
            done
        }
    }

    pub open spec fn with_status(self, i: int, value: u8) -> EngineState {
        EngineState { status: self.status.update(i, value), ..self }
    }

    pub open spec fn with_vram(self, v: Seq<u8>) -> EngineState {
        EngineState { vram: v, ..self }
    }
}

/// The command engine together with the registers, VRAM and status registers
/// that it works on.
pub struct CmdCtx {
    pub regs: [u8; 64],
    pub vram: Vec<u8>,
    pub status: [u8; 10],
    pub cpu_xfer: CpuXfer,
    /// Column of the running transfer, in pixels or bytes.
    pub cpu_xfer_x: u32,
    /// Row of the running transfer.
    pub cpu_xfer_y: u32,
    /// T-states for which the engine still reports CE.
    pub cmd_busy: i32,
}

impl View for CmdCtx {
    type V = EngineState;

    open spec fn view(&self) -> EngineState {
        EngineState {
            regs: self.regs@,
            vram: self.vram@,
            status: self.status@,
            xfer: self.cpu_xfer,
            x: self.cpu_xfer_x as int,
            y: self.cpu_xfer_y as int,
            busy: self.cmd_busy as int,
        }
    }
}

impl CmdCtx {
    /// A transfer never counts past the largest rectangle.
    pub open spec fn wf(&self) -> bool {
        self.cpu_xfer_x < 1023 && self.cpu_xfer_y < 1023
    }

    /// The command-engine layout of the current screen mode; `None` where the
    /// engine is not defined.
    pub fn pixel_layout(&self) -> (r: Option<PixelLayout>)
        ensures
            r == self@.layout(),
            r matches Some(l) ==> l.wf(),
    {
        if self.regs[1] & 0x18 != 0 {
            return None;
        }
        match self.regs[0] & 0x0E {
            0x06 => Some(PixelLayout { bpp: 4, pitch: 128, width: 256, height: 212 }),
            0x08 => Some(PixelLayout { bpp: 2, pitch: 128, width: 512, height: 212 }),
            0x0A => Some(PixelLayout { bpp: 4, pitch: 256, width: 512, height: 212 }),
            0x0E => Some(PixelLayout { bpp: 8, pitch: 256, width: 256, height: 212 }),
            _ => None,
        }
    }

    /// A command argument from a register pair, low byte first.
    pub fn cmd_word(&self, lo_reg: usize) -> (r: u32)
        requires
            lo_reg < 63,
        ensures
            r == reg_word(self@.regs, lo_reg as int),
    {
        self.regs[lo_reg] as u32 + 256 * self.regs[lo_reg + 1] as u32
    }

    /// The pixel at `(x, y)`; 0 past the end of VRAM.
    pub fn read_pixel(&self, layout: &PixelLayout, x: u32, y: u32) -> (r: u8)
        requires
            layout.wf(),
            layout.address(x as int, y as int) <= u32::MAX,
        ensures
            r == pixel_at(self@.vram, *layout, x as int, y as int),
    {
        let addr = layout.byte_address(x, y);
        if addr >= self.vram.len() {
            return 0;
        }
        let byte = self.vram[addr];
        match layout.bpp {
            8 => byte,
            4 => {
                let shift: u32 = (1 - (x % 2)) * 4;
                proof {
                    lemma_read_nibble(byte);
                }
                (byte >> shift) & 0x0F
            },
            _ => {
                let shift: u32 = (3 - (x % 4)) * 2;
                proof {
                    lemma_read_pair(byte);
                }
                (byte >> shift) & 0x03
            },
        }
    }

    /// Set the pixel at `(x, y)`; nothing happens past the end of VRAM.
    pub fn write_pixel(&mut self, layout: &PixelLayout, x: u32, y: u32, color: u8)
        requires
            layout.wf(),
            layout.address(x as int, y as int) <= u32::MAX,
        ensures
            final(self)@ == old(self)@.with_vram(
                set_pixel(old(self)@.vram, *layout, x as int, y as int, color),
            ),
    {
        let addr = layout.byte_address(x, y);
        if addr >= self.vram.len() {
            return;
        }
        let byte = self.vram[addr];
        let ghost old_color = color;
        let color = color & layout.pixel_mask();
        proof {
            lemma_mask_again(old_color);
        }
        self.vram[addr] = replace_in_byte(byte, layout, x, color);
    }
}

impl CmdCtx {
    fn arg_sx(&self) -> (r: u32)
        ensures
            r == self@.sx(),
    {
        self.cmd_word(32) % 512
    }

    fn arg_sy(&self) -> (r: u32)
        ensures
            r == self@.sy(),
    {
        self.cmd_word(34) % 1024
    }

    fn arg_dx(&self) -> (r: u32)
        ensures
            r == self@.dx(),
    {
        self.cmd_word(36) % 512
    }

    fn arg_dy(&self) -> (r: u32)
        ensures
            r == self@.dy(),
    {
        self.cmd_word(38) % 1024
    }

    fn arg_nx(&self) -> (r: u32)
        ensures
            r == self@.nx(),
    {
        self.cmd_word(40) % 1024
    }

    fn arg_ny(&self) -> (r: u32)
        ensures
            r == self@.ny(),
    {
        self.cmd_word(42) % 1024
    }

    fn arg_dix(&self) -> (r: i32)
        ensures
            r == self@.dix(),
    {
        if self.regs[45] & 0x04 != 0 {
            -1
        } else {
            1
        }
    }

    fn arg_diy(&self) -> (r: i32)
        ensures
            r == self@.diy(),
    {
        if self.regs[45] & 0x08 != 0 {
            -1
        } else {
            1
        }
    }

    fn arg_rows(&self) -> (r: i32)
        ensures
            r == self@.rows(),
    {
        let ny = self.arg_ny();
        if ny == 0 {
            1024
        } else {
            ny as i32
        }
    }

    /// Store the low ten bits of a coordinate in a register pair.
    fn writeback(&mut self, lo_reg: usize, value: i32)
        requires
            lo_reg < 63,
            -0x1000 <= value <= 0x1000,
        ensures
            final(self)@ == old(self)@.with_pair(lo_reg as int, value as int),
    {
        let v = (value + 0x1000) as u32;
        self.regs[lo_reg] = (v % 256) as u8;
        self.regs[lo_reg + 1] = ((v / 256) % 4) as u8;
    }

    /// Write the final SY back to R34/R35.
    fn writeback_sy(&mut self, sy: i32)
        requires
            -0x1000 <= sy <= 0x1000,
        ensures
            final(self)@ == old(self)@.with_pair(34, sy as int),
    {
        self.writeback(34, sy);
    }

    /// Write the final DY back to R38/R39.
    fn writeback_dy(&mut self, dy: i32)
        requires
            -0x1000 <= dy <= 0x1000,
        ensures
            final(self)@ == old(self)@.with_pair(38, dy as int),
    {
        self.writeback(38, dy);
    }

    /// Write the remaining NY back to R42/R43.
    fn writeback_ny(&mut self, ny: i32)
        requires
            -0x1000 <= ny <= 0x1000,
        ensures
            final(self)@ == old(self)@.with_pair(42, ny as int),
    {
        self.writeback(42, ny);
    }

    /// HMMV: fill a byte-aligned rectangle with the colour byte. A width or
    /// height of 0 runs to the edge.
    fn cmd_hmmv(&mut self)
        ensures
            final(self)@ == old(self)@.after_hmmv(),
    {
        let layout = match self.pixel_layout() {
            None => {
                return ;
            },
            Some(l) => l,
        };
        let dy = self.arg_dy() as i32;
        let nx_raw = self.arg_nx();
        let clr = self.regs[44];
        let dix = self.arg_dix();
        let diy = self.arg_diy();
        let col = layout.byte_column(self.arg_dx()) as i32;
        let cols: i32 = if nx_raw != 0 {
            layout.byte_columns_for(nx_raw) as i32
        } else if dix < 0 {
            col + 1
        } else {
            layout.pitch as i32 - col
        };
        let rows = self.arg_rows();
        let ghost before = self@;
        let ghost cspan = (col as int, dix as int, cols as int);
        let mut iy: i32 = 0;
        let mut y: i32 = dy;
        while iy < rows
            invariant
                layout.wf(),
                0 <= iy <= rows <= 1024,
                0 <= dy < 1024,
                dix == 1 || dix == -1,
                diy == 1 || diy == -1,
                y == moved(dy as int, diy as int, iy as int),
                0 <= col < 512,
                cols <= 1024,
                cspan == (col as int, dix as int, cols as int),
                self@ == before.with_vram(
                    fill_bytes(
                        before.vram,
                        layout,
                        cspan,
                        (dy as int, diy as int, iy as int),
                        clr,
                    ),
                ),
            decreases rows - iy,
        {
            if y >= 0 {
                let start = layout.row_address(y as u32);
                let mut ix: i32 = 0;
                let mut bx: i32 = col;
                let ghost row0 = self@;
                while ix < cols
                    invariant
                        layout.wf(),
                        0 <= ix,
                        ix <= cols || ix == 0,
                        cols <= 1024,
                        0 <= y < 2048,
                        start == layout.row_start(y as int),
                        dix == 1 || dix == -1,
                        bx == moved(col as int, dix as int, ix as int),
                        0 <= col < 512,
                        self@ == row0.with_vram(
                            fill_bytes(
                                row0.vram,
                                layout,
                                (col as int, dix as int, ix as int),
                                (y as int, 1int, 1int),
                                clr,
                            ),
                        ),
                    decreases cols - ix,
                {
                    if 0 <= bx && bx < layout.pitch as i32 {
                        let addr = start + bx as usize;
                        if addr < self.vram.len() {
                            self.vram[addr] = clr;
                        }
                    }
                    ix = ix + 1;
                    bx = bx + dix;
                }
            }
            iy = iy + 1;
            y = y + diy;
        }
        self.writeback_dy(y);
        self.writeback_ny(0);
    }

    /// HMMM: copy a byte-aligned rectangle, byte by byte in the direction of
    /// travel. A width of 0 runs until source or destination reaches the row
    /// edge, a height of 0 counts as 1024.
    fn cmd_hmmm(&mut self)
        ensures
            final(self)@ == old(self)@.after_hmmm(),
    {
        let layout = match self.pixel_layout() {
            None => {
                return ;
            },
            Some(l) => l,
        };
        let sy = self.arg_sy() as i32;
        let dy = self.arg_dy() as i32;
        let nx_raw = self.arg_nx();
        let dix = self.arg_dix();
        let diy = self.arg_diy();
        let sc = layout.byte_column(self.arg_sx()) as i32;
        let dc = layout.byte_column(self.arg_dx()) as i32;
        let cols: i32 = if nx_raw != 0 {
            layout.byte_columns_for(nx_raw) as i32
        } else if dix < 0 {
            if sc < dc {
                sc + 1
            } else {
                dc + 1
            }
        } else if sc < dc {
            layout.pitch as i32 - dc
        } else {
            layout.pitch as i32 - sc
        };
        let rows = self.arg_rows();
        let ghost before = self@;
        let mut iy: i32 = 0;
        let mut y: i32 = 0;
        while iy < rows
            invariant
                layout.wf(),
                0 <= iy <= rows <= 1024,
                0 <= sy < 1024,
                0 <= dy < 1024,
                dix == 1 || dix == -1,
                diy == 1 || diy == -1,
                y == moved(0, diy as int, iy as int),
                0 <= sc < 512,
                0 <= dc < 512,
                cols <= 1024,
                self@ == before.with_vram(
                    copy_rows(
                        before.vram,
                        layout,
                        (sc as int, sy as int),
                        (dc as int, dy as int),
                        (dix as int, diy as int),
                        cols as int,
                        iy as int,
                    ),
                ),
            decreases rows - iy,
        {
            self.copy_byte_row(&layout, (sc, sy + y), (dc, dy + y), dix, cols);
            iy = iy + 1;
            y = y + diy;
        }
        self.writeback_sy(sy + y);
        self.writeback_dy(dy + y);
        self.writeback_ny(0);
    }

    /// Copy one row of bytes.
    fn copy_byte_row(
        &mut self,
        layout: &PixelLayout,
        src: (i32, i32),
        dst: (i32, i32),
        dix: i32,
        cols: i32,
    )
        requires
            layout.wf(),
            0 <= src.0 < 512,
            0 <= dst.0 < 512,
            -1024 <= src.1 < 2048,
            -1024 <= dst.1 < 2048,
            dix == 1 || dix == -1,
            cols <= 1024,
        ensures
            final(self)@ == old(self)@.with_vram(
                copy_row(
                    old(self)@.vram,
                    *layout,
                    (src.0 as int, src.1 as int),
                    (dst.0 as int, dst.1 as int),
                    dix as int,
                    cols as int,
                ),
            ),
    {
        let ghost before = self@;
        let mut ix: i32 = 0;
        let mut sx: i32 = src.0;
        let mut dx: i32 = dst.0;
        while ix < cols
            invariant
                layout.wf(),
                0 <= ix,
                ix <= cols || ix == 0,
                cols <= 1024,
                0 <= src.0 < 512,
                0 <= dst.0 < 512,
                -1024 <= src.1 < 2048,
                -1024 <= dst.1 < 2048,
                dix == 1 || dix == -1,
                sx == moved(src.0 as int, dix as int, ix as int),
                dx == moved(dst.0 as int, dix as int, ix as int),
                self@ == before.with_vram(
                    copy_row(
                        before.vram,
                        *layout,
                        (src.0 as int, src.1 as int),
                        (dst.0 as int, dst.1 as int),
                        dix as int,
                        ix as int,
                    ),
                ),
            decreases cols - ix,
        {
            if src.1 >= 0 && dst.1 >= 0 && 0 <= sx && sx < layout.pitch as i32 && 0 <= dx && dx
                < layout.pitch as i32 {
                let from = layout.row_address(src.1 as u32) + sx as usize;
                let to = layout.row_address(dst.1 as u32) + dx as usize;
                if from < self.vram.len() && to < self.vram.len() {
                    self.vram[to] = self.vram[from];
                }
            }
            ix = ix + 1;
            sx = sx + dix;
            dx = dx + dix;
        }
    }

    /// Combine a colour into one pixel, unless it lies off the page.
    fn plot_pixel(&mut self, layout: &PixelLayout, logic_op: u8, clr: u8, x: i32, y: i32)
        requires
            layout.wf(),
            y < 0x1_0000,
        ensures
            final(self)@ == old(self)@.with_vram(
                plot(old(self)@.vram, *layout, logic_op, clr, x as int, y as int),
            ),
    {
        if x >= 0 && y >= 0 && (x as u32) < layout.width {
            let dst = self.read_pixel(layout, x as u32, y as u32);
            let new = apply_logic_op(clr, dst, logic_op, layout.pixel_mask());
            self.write_pixel(layout, x as u32, y as u32, new);
        }
    }

    /// LMMV: combine the colour into a rectangle of pixels. A width or height
    /// of 0 runs to the edge.
    fn cmd_lmmv(&mut self, logic_op: u8)
        ensures
            final(self)@ == old(self)@.after_lmmv(logic_op),
    {
        let layout = match self.pixel_layout() {
            None => {
                return ;
            },
            Some(l) => l,
        };
        let dx = self.arg_dx() as i32;
        let dy = self.arg_dy() as i32;
        let nx_raw = self.arg_nx();
        let clr = self.regs[44] & layout.pixel_mask();
        let dix = self.arg_dix();
        let diy = self.arg_diy();
        let cols: i32 = if nx_raw != 0 {
            nx_raw as i32
        } else if dix < 0 {
            dx + 1
        } else {
            layout.width as i32 - dx
        };
        let rows = self.arg_rows();
        let ghost before = self@;
        let ghost columns = (dx as int, dix as int, cols as int);
        proof {
            lemma_paint_none(
                before.vram,
                layout,
                logic_op,
                clr,
                columns,
                (dy as int, diy as int, 0),
            );
        }
        let mut iy: i32 = 0;
        let mut y: i32 = dy;
        while iy < rows
            invariant
                layout.wf(),
                0 <= iy <= rows <= 1024,
                0 <= dy < 1024,
                dix == 1 || dix == -1,
                diy == 1 || diy == -1,
                y == moved(dy as int, diy as int, iy as int),
                0 <= dx < 512,
                cols <= 1024,
                columns == (dx as int, dix as int, cols as int),
                self@ == before.with_vram(
                    paint(
                        before.vram,
                        layout,
                        logic_op,
                        clr,
                        columns,
                        (dy as int, diy as int, iy as int),
                    ),
                ),
            decreases rows - iy,
        {
            proof {
                lemma_paint_row(
                    before.vram,
                    layout,
                    logic_op,
                    clr,
                    columns,
                    dy as int,
                    diy as int,
                    iy as int,
                );
            }
            if y >= 0 {
                self.paint_row(&layout, logic_op, clr, dx, dix, cols, y);
            }
            iy = iy + 1;
            y = y + diy;
        }
        self.writeback_dy(y);
        self.writeback_ny(0);
    }

    /// Combine a colour into one row of pixels.
    fn paint_row(
        &mut self,
        layout: &PixelLayout,
        logic_op: u8,
        clr: u8,
        dx: i32,
        dix: i32,
        cols: i32,
        y: i32,
    )
        requires
            layout.wf(),
            0 <= dx < 512,
            dix == 1 || dix == -1,
            cols <= 1024,
            0 <= y < 2048,
        ensures
            final(self)@ == old(self)@.with_vram(
                paint(
                    old(self)@.vram,
                    *layout,
                    logic_op,
                    clr,
                    (dx as int, dix as int, cols as int),
                    (y as int, 1, 1),
                ),
            ),
    {
        let ghost before = self@;
        proof {
            lemma_paint_none(
                before.vram,
                *layout,
                logic_op,
                clr,
                (dx as int, dix as int, 0),
                (y as int, 1, 1),
            );
            if cols <= 0 {
                lemma_paint_none(
                    before.vram,
                    *layout,
                    logic_op,
                    clr,
                    (dx as int, dix as int, cols as int),
                    (y as int, 1, 1),
                );
            }
        }
        let mut ix: i32 = 0;
        let mut x: i32 = dx;
        while ix < cols
            invariant
                layout.wf(),
                0 <= ix,
                ix <= cols || ix == 0,
                cols <= 1024,
                0 <= dx < 512,
                0 <= y < 2048,
                dix == 1 || dix == -1,
                x == moved(dx as int, dix as int, ix as int),
                self@ == before.with_vram(
                    paint(
                        before.vram,
                        *layout,
                        logic_op,
                        clr,
                        (dx as int, dix as int, ix as int),
                        (y as int, 1, 1),
                    ),
                ),
            decreases cols - ix,
        {
            proof {
                lemma_paint_pixel(
                    before.vram,
                    *layout,
                    logic_op,
                    clr,
                    dx as int,
                    dix as int,
                    ix as int,
                    y as int,
                );
            }
            self.plot_pixel(layout, logic_op, clr, x, y);
            ix = ix + 1;
            x = x + dix;
        }
    }

    /// LMMM: combine a rectangle of pixels into another, pixel by pixel in the
    /// direction of travel.
    fn cmd_lmmm(&mut self, logic_op: u8)
        ensures
            final(self)@ == old(self)@.after_lmmm(logic_op),
    {
        let layout = match self.pixel_layout() {
            None => {
                return ;
            },
            Some(l) => l,
        };
        let sx = self.arg_sx() as i32;
        let sy = self.arg_sy() as i32;
        let dx = self.arg_dx() as i32;
        let dy = self.arg_dy() as i32;
        let nx_raw = self.arg_nx();
        let dix = self.arg_dix();
        let diy = self.arg_diy();
        let cols: i32 = if nx_raw != 0 {
            nx_raw as i32
        } else if dix < 0 {
            if sx < dx {
                sx + 1
            } else {
                dx + 1
            }
        } else if sx < dx {
            layout.width as i32 - dx
        } else {
            layout.width as i32 - sx
        };
        let rows = self.arg_rows();
        let ghost before = self@;
        let mut iy: i32 = 0;
        let mut y: i32 = 0;
        while iy < rows
            invariant
                layout.wf(),
                0 <= iy <= rows <= 1024,
                0 <= sy < 1024,
                0 <= dy < 1024,
                dix == 1 || dix == -1,
                diy == 1 || diy == -1,
                y == moved(0, diy as int, iy as int),
                0 <= sx < 512,
                0 <= dx < 512,
                cols <= 1024,
                self@ == before.with_vram(
                    move_rows(
                        before.vram,
                        layout,
                        logic_op,
                        (sx as int, sy as int),
                        (dx as int, dy as int),
                        (dix as int, diy as int),
                        cols as int,
                        iy as int,
                    ),
                ),
            decreases rows - iy,
        {
            self.move_pixel_row(&layout, logic_op, (sx, sy + y), (dx, dy + y), dix, cols);
            iy = iy + 1;
            y = y + diy;
        }
        self.writeback_sy(sy + y);
        self.writeback_dy(dy + y);
        self.writeback_ny(0);
    }

    /// Move one row of pixels.
    fn move_pixel_row(
        &mut self,
        layout: &PixelLayout,
        logic_op: u8,
        src: (i32, i32),
        dst: (i32, i32),
        dix: i32,
        cols: i32,
    )
        requires
            layout.wf(),
            0 <= src.0 < 512,
            0 <= dst.0 < 512,
            -1024 <= src.1 < 2048,
            -1024 <= dst.1 < 2048,
            dix == 1 || dix == -1,
            cols <= 1024,
        ensures
            final(self)@ == old(self)@.with_vram(
                move_row(
                    old(self)@.vram,
                    *layout,
                    logic_op,
                    (src.0 as int, src.1 as int),
                    (dst.0 as int, dst.1 as int),
                    dix as int,
                    cols as int,
                ),
            ),
    {
        let ghost before = self@;
        let mut ix: i32 = 0;
        let mut sx: i32 = src.0;
        let mut dx: i32 = dst.0;
        while ix < cols
            invariant
                layout.wf(),
                0 <= ix,
                ix <= cols || ix == 0,
                cols <= 1024,
                0 <= src.0 < 512,
                0 <= dst.0 < 512,
                -1024 <= src.1 < 2048,
                -1024 <= dst.1 < 2048,
                dix == 1 || dix == -1,
                sx == moved(src.0 as int, dix as int, ix as int),
                dx == moved(dst.0 as int, dix as int, ix as int),
                self@ == before.with_vram(
                    move_row(
                        before.vram,
                        *layout,
                        logic_op,
                        (src.0 as int, src.1 as int),
                        (dst.0 as int, dst.1 as int),
                        dix as int,
                        ix as int,
                    ),
                ),
            decreases cols - ix,
        {
            if src.1 >= 0 && dst.1 >= 0 && 0 <= sx && sx < layout.width as i32 && 0 <= dx && dx
                < layout.width as i32 {
                let color = self.read_pixel(layout, sx as u32, src.1 as u32);
                self.plot_pixel(layout, logic_op, color, dx, dst.1);
            }
            ix = ix + 1;
            sx = sx + dix;
            dx = dx + dix;
        }
    }

    /// PSET: combine the colour into the pixel at (DX, DY).
    fn cmd_pset(&mut self, logic_op: u8)
        ensures
            final(self)@ == old(self)@.after_pset(logic_op),
    {
        let layout = match self.pixel_layout() {
            None => {
                return ;
            },
            Some(l) => l,
        };
        let dx = self.arg_dx() as i32;
        let dy = self.arg_dy() as i32;
        let clr = self.regs[44] & layout.pixel_mask();
        self.plot_pixel(&layout, logic_op, clr, dx, dy);
    }

    /// POINT: the colour of the pixel at (SX, SY) goes to S7.
    fn cmd_point(&mut self)
        ensures
            final(self)@ == old(self)@.after_point(),
    {
        let layout = match self.pixel_layout() {
            None => {
                return ;
            },
            Some(l) => l,
        };
        let sx = self.arg_sx();
        let sy = self.arg_sy();
        if sx >= layout.width {
            self.status[7] = 0;
            return ;
        }
        let value = self.read_pixel(&layout, sx, sy);
        self.status[7] = value;
    }

    /// LINE: from (DX, DY) along the major axis. NX is the major length, NY
    /// the minor one; every step adds NY to an accumulator, and the minor axis
    /// steps each time that reaches NX.
    fn cmd_line(&mut self, logic_op: u8)
        ensures
            final(self)@ == old(self)@.after_line(logic_op),
    {
        let layout = match self.pixel_layout() {
            None => {
                return ;
            },
            Some(l) => l,
        };
        let nx = self.arg_nx() as i32;
        let ny = self.arg_ny() as i32;
        let clr = self.regs[44] & layout.pixel_mask();
        let maj_is_y = self.regs[45] & 0x01 != 0;
        let dix = self.arg_dix();
        let diy = self.arg_diy();
        let mut x: i32 = self.arg_dx() as i32;
        let mut y: i32 = self.arg_dy() as i32;
        let mut acc: i32 = 0;
        let steps: i32 = if nx < 1 {
            1
        } else {
            nx
        };
        let ghost before = self@;
        let ghost p = before.line(layout);
        let mut i: i32 = 0;
        proof {
            lemma_across(p, 0);
            assert(p.dots(0) =~= Seq::empty());
        }
        while i <= steps
            invariant
                layout.wf(),
                1 <= steps <= 1023,
                0 <= ny <= 1023,
                0 <= i <= steps + 1,
                dix == 1 || dix == -1,
                diy == 1 || diy == -1,
                -i <= x <= 512 + i,
                -i <= y <= 1024 + i,
                0 <= acc <= i * 1023,
                p.y_major == maj_is_y,
                p.dix == dix,
                p.diy == diy,
                p.steps == steps,
                p.minor == ny,
                p.clr == clr,
                x == p.column(i as int),
                y == p.row(i as int),
                acc == i * p.minor - p.steps * p.across(i as int),
                self@ == before.with_vram(
                    plots(before.vram, layout, logic_op, p.dots(i as int)),
                ),
            decreases steps + 1 - i,
        {
            proof {
                lemma_across(p, i as int);
                assert(p.dots(i + 1).drop_last() =~= p.dots(i as int));
            }
            self.plot_pixel(&layout, logic_op, clr, x, y);
            if maj_is_y {
                y = y + diy;
            } else {
                x = x + dix;
            }
            acc = acc + ny;
            if acc >= steps {
                acc = acc - steps;
                if maj_is_y {
                    x = x + dix;
                } else {
                    y = y + diy;
                }
            }
            i = i + 1;
        }
        self.writeback_dy(y);
    }

    /// SRCH: look along row SY from SX on for the colour, or for another one.
    fn cmd_srch(&mut self)
        ensures
            final(self)@ == old(self)@.after_srch(),
    {
        let layout = match self.pixel_layout() {
            None => {
                return ;
            },
            Some(l) => l,
        };
        let sx = self.arg_sx() as i32;
        let sy = self.arg_sy();
        let clr = self.regs[44] & layout.pixel_mask();
        let dix = self.arg_dix();
        let eq = self.regs[45] & 0x02 != 0;
        self.status[2] = self.status[2] & !0x10u8;
        let mut x: i32 = sx;
        let ghost found = search(
            self@.vram,
            layout,
            sx as int,
            sy as int,
            dix < 0,
            clr,
            eq,
        );
        while 0 <= x && x < layout.width as i32
            invariant
                layout.wf(),
                dix == 1 || dix == -1,
                sy < 1024,
                -1 <= x <= 512,
                found == search(self@.vram, layout, x as int, sy as int, dix < 0, clr, eq),
                self@ == old(self)@.with_status(2, old(self)@.status[2] & !0x10u8),
                old(self)@.layout() == Some(layout),
                found == search(
                    old(self)@.vram,
                    layout,
                    old(self)@.sx(),
                    old(self)@.sy(),
                    old(self)@.dix() < 0,
                    old(self)@.regs[44] & layout.mask(),
                    old(self)@.regs[45] & 0x02 != 0,
                ),
            decreases
                    (if dix < 0 {
                        x + 1
                    } else {
                        layout.width - x
                    }),
        {
            let pixel = self.read_pixel(&layout, x as u32, sy);
            if (pixel == clr) == eq {
                self.status[2] = self.status[2] | 0x10;
                self.status[8] = (x % 256) as u8;
                self.status[9] = if x < 256 {
                    0xFE
                } else {
                    0xFF
                };
                return ;
            }
            x = x + dix;
        }
    }

    /// Copy consecutive bytes, as far as VRAM reaches.
    fn copy_byte_run(&mut self, src: usize, dst: usize, n: i32)
        requires
            src < 0x100_0000,
            dst < 0x100_0000,
            n <= 512,
        ensures
            final(self)@ == old(self)@.with_vram(
                copy_run(old(self)@.vram, src as int, dst as int, n as int),
            ),
    {
        let ghost before = self@;
        let mut b: i32 = 0;
        while b < n
            invariant
                0 <= b,
                b <= n || b == 0,
                n <= 512,
                src < 0x100_0000,
                dst < 0x100_0000,
                self@ == before.with_vram(
                    copy_run(before.vram, src as int, dst as int, b as int),
                ),
            decreases n - b,
        {
            let from = src + b as usize;
            let to = dst + b as usize;
            if from < self.vram.len() && to < self.vram.len() {
                self.vram[to] = self.vram[from];
            }
            b = b + 1;
        }
    }

    /// YMMM: move bytes up or down, from column DX to the border in the
    /// direction of travel.
    fn cmd_ymmm(&mut self)
        ensures
            final(self)@ == old(self)@.after_ymmm(),
    {
        let layout = match self.pixel_layout() {
            None => {
                return ;
            },
            Some(l) => l,
        };
        let sy = self.arg_sy() as i32;
        let dy = self.arg_dy() as i32;
        let ny = self.arg_ny() as i32;
        let rows: i32 = if ny < 1 {
            1
        } else {
            ny
        };
        let dix = self.arg_dix();
        let diy = self.arg_diy();
        let dc = layout.byte_column(self.arg_dx()) as i32;
        let (col, cols): (i32, i32) = if dix < 0 {
            (0, dc + 1)
        } else {
            (dc, layout.pitch as i32 - dc)
        };
        let ghost before = self@;
        let mut iy: i32 = 0;
        let mut y: i32 = 0;
        while iy < rows
            invariant
                layout.wf(),
                0 <= iy <= rows <= 1024,
                0 <= sy < 1024,
                0 <= dy < 1024,
                diy == 1 || diy == -1,
                y == moved(0, diy as int, iy as int),
                0 <= col < 512,
                cols <= 512,
                self@ == before.with_vram(
                    copy_runs(
                        before.vram,
                        layout,
                        col as int,
                        cols as int,
                        sy as int,
                        dy as int,
                        diy as int,
                        iy as int,
                    ),
                ),
            decreases rows - iy,
        {
            if sy + y >= 0 && dy + y >= 0 {
                let src = layout.row_address((sy + y) as u32) + col as usize;
                let dst = layout.row_address((dy + y) as u32) + col as usize;
                self.copy_byte_run(src, dst, cols);
            }
            iy = iy + 1;
            y = y + diy;
        }
        self.writeback_sy(sy + y);
        self.writeback_dy(dy + y);
        self.writeback_ny(0);
    }
}

impl CmdCtx {
    /// STOP: abort a running transfer.
    fn cmd_stop(&mut self)
        ensures
            final(self)@ == old(self)@.after_stop(),
            final(self).wf(),
    {
        self.cpu_xfer = CpuXfer::Idle;
        self.cpu_xfer_x = 0;
        self.cpu_xfer_y = 0;
        self.status[2] = self.status[2] & !0x80u8;
    }

    /// LMMC: set up a transfer of pixels through R44. The value staged in R44
    /// is its first pixel.
    fn cmd_lmmc(&mut self, logic_op: u8)
        ensures
            final(self)@ == old(self)@.started(CpuXfer::Lmmc { logic_op }).pumped(
                old(self)@.regs[44],
            ),
            final(self).wf(),
    {
        self.cpu_xfer = CpuXfer::Lmmc { logic_op };
        self.cpu_xfer_x = 0;
        self.cpu_xfer_y = 0;
        self.status[2] = self.status[2] | 0x81;
        assert(self@ == old(self)@.started(CpuXfer::Lmmc { logic_op }));
        let first = self.regs[44];
        self.pump_write(first);
    }

    /// HMMC: set up a transfer of bytes through R44. The value staged in R44 is
    /// its first byte.
    fn cmd_hmmc(&mut self)
        ensures
            final(self)@ == old(self)@.started(CpuXfer::Hmmc).pumped(old(self)@.regs[44]),
            final(self).wf(),
    {
        self.cpu_xfer = CpuXfer::Hmmc;
        self.cpu_xfer_x = 0;
        self.cpu_xfer_y = 0;
        self.status[2] = self.status[2] | 0x81;
        assert(self@ == old(self)@.started(CpuXfer::Hmmc));
        let first = self.regs[44];
        self.pump_write(first);
    }

    /// LMCM: set up a transfer of pixels through S7, which already holds the
    /// first one.
    fn cmd_lmcm(&mut self)
        ensures
            final(self)@ == (EngineState {
                xfer: CpuXfer::Lmcm,
                x: 0,
                y: 0,
                ..old(self)@
            }).preloaded().with_status(2, old(self)@.status[2] | 0x81),
            final(self).wf(),
    {
        self.cpu_xfer = CpuXfer::Lmcm;
        self.cpu_xfer_x = 0;
        self.cpu_xfer_y = 0;
        self.preload_lmcm_pixel();
        self.status[2] = self.status[2] | 0x81;
    }

    /// Put the pixel that the transfer points at into S7.
    fn preload_lmcm_pixel(&mut self)
        requires
            old(self).wf(),
        ensures
            final(self)@ == old(self)@.preloaded(),
            final(self).wf(),
    {
        let layout = match self.pixel_layout() {
            None => {
                return ;
            },
            Some(l) => l,
        };
        let x = offset(self.arg_sx(), self.arg_dix(), self.cpu_xfer_x);
        let y = offset(self.arg_sy(), self.arg_diy(), self.cpu_xfer_y);
        if x >= 0 && y >= 0 && (x as u32) < layout.width {
            self.status[7] = self.read_pixel(&layout, x as u32, y as u32);
        } else {
            self.status[7] = 0;
        }
    }

    /// Count one unit of a transfer whose rows have `n` units.
    fn advance_xfer(&mut self, n: u32)
        requires
            old(self).wf(),
            n <= 1023,
        ensures
            final(self)@ == old(self)@.advanced(n as int),
            final(self).cpu_xfer_x < 1023,
            final(self).cpu_xfer_y <= 1023,
    {
        self.cpu_xfer_x = self.cpu_xfer_x + 1;
        if self.cpu_xfer_x >= n {
            self.cpu_xfer_x = 0;
            self.cpu_xfer_y = self.cpu_xfer_y + 1;
        }
    }

    /// One step of a CPU-to-VRAM transfer: a pixel of LMMC, a byte of HMMC. The
    /// last one drops TR and CE.
    pub fn pump_write(&mut self, value: u8)
        requires
            old(self).wf(),
        ensures
            final(self)@ == old(self)@.pumped(value),
            final(self).wf(),
    {
        let ghost before = self@;
        let layout = match self.pixel_layout() {
            None => {
                return ;
            },
            Some(l) => l,
        };
        let nx_raw = self.arg_nx();
        let nx: u32 = if nx_raw < 1 {
            1
        } else {
            nx_raw
        };
        let dix = self.arg_dix();
        let y = offset(self.arg_dy(), self.arg_diy(), self.cpu_xfer_y);
        match self.cpu_xfer {
            CpuXfer::Lmmc { logic_op } => {
                let x = offset(self.arg_dx(), dix, self.cpu_xfer_x);
                self.plot_pixel(&layout, logic_op, value & layout.pixel_mask(), x, y);
                self.advance_xfer(nx);
            },
            CpuXfer::Hmmc => {
                let col = offset(layout.byte_column(self.arg_dx()), dix, self.cpu_xfer_x);
                if col >= 0 && y >= 0 && (col as u32) < layout.pitch {
                    let addr = layout.row_address(y as u32) + col as usize;
                    if addr < self.vram.len() {
                        self.vram[addr] = value;
                    }
                }
                self.advance_xfer(layout.byte_columns_for(nx));
            },
            _ => {
                return ;
            },
        }
        self.finish_write(Ghost(before));
    }

    /// End a CPU-to-VRAM transfer once its rows are full.
    fn finish_write(&mut self, Ghost(before): Ghost<EngineState>)
        requires
            old(self)@.regs == before.regs,
            old(self).cpu_xfer_x < 1023,
            old(self).cpu_xfer_y <= 1023,
        ensures
            final(self)@ == old(self)@.write_done(before),
            final(self).wf(),
    {
        let ny_raw = self.arg_ny();
        let ny: u32 = if ny_raw < 1 {
            1
        } else {
            ny_raw
        };
        if self.cpu_xfer_y >= ny {
            let dy = offset(self.arg_dy(), self.arg_diy(), ny);
            self.writeback_dy(dy);
            self.writeback_ny(0);
            self.cpu_xfer = CpuXfer::Idle;
            self.cpu_xfer_x = 0;
            self.cpu_xfer_y = 0;
            self.status[2] = self.status[2] & !0x81u8;
        }
    }

    /// One S7 read of an LMCM transfer: returns the pixel in S7, then moves on
    /// to the next one. The last one drops TR and CE.
    pub fn pump_read(&mut self) -> (r: u8)
        requires
            old(self).wf(),
        ensures
            r == old(self)@.status[7],
            final(self)@ == old(self)@.drained(),
            final(self).wf(),
    {
        let nx_raw = self.arg_nx();
        let nx: u32 = if nx_raw < 1 {
            1
        } else {
            nx_raw
        };
        let ny_raw = self.arg_ny();
        let ny: u32 = if ny_raw < 1 {
            1
        } else {
            ny_raw
        };
        let pixel = self.status[7];
        self.advance_xfer(nx);
        if self.cpu_xfer_y >= ny {
            let sy = offset(self.arg_sy(), self.arg_diy(), ny);
            self.writeback_sy(sy);
            self.writeback_ny(0);
            self.cpu_xfer = CpuXfer::Idle;
            self.cpu_xfer_x = 0;
            self.cpu_xfer_y = 0;
            self.status[2] = self.status[2] & !0x81u8;
        } else {
            self.preload_lmcm_pixel();
        }
        pixel
    }

    /// T-states for which a command keeps the engine busy, by opcode and
    /// rectangle size.
    pub fn command_duration(&self, cmd: u8) -> (r: i32)
        ensures
            r == self@.duration(cmd as int),
    {
        let layout = match self.pixel_layout() {
            None => {
                return 0;
            },
            Some(l) => l,
        };
        let nx_raw = self.arg_nx();
        let nx: u32 = if nx_raw < 1 {
            1
        } else {
            nx_raw
        };
        let ny_raw = self.arg_ny();
        let ny: u32 = if ny_raw < 1 {
            1
        } else {
            ny_raw
        };
        let nx_bytes = layout.byte_columns_for(nx);
        let units: u32 = match cmd {
            0xC | 0xD => units_of(nx_bytes, ny),
            0xE => units_of(layout.pitch, ny),
            0x8 | 0x9 => units_of(nx, ny),
            0x7 => if nx < ny {
                ny
            } else {
                nx
            },
            0x6 => nx,
            _ => 0,
        };
        let total: u32 = match cmd {
            0xC => 10 * units,
            0xD => 20 * units,
            0xE => 17 * units,
            0x8 => 21 * units,
            0x9 => 29 * units,
            0x7 => 23 * units,
            0x6 => 5 * units,
            _ => 0,
        };
        total as i32
    }

    /// Carry out the command in R46: opcode in the high nibble, logic operation
    /// in the low one.
    pub fn execute(&mut self)
        requires
            old(self).wf(),
        ensures
            final(self)@ == old(self)@.executed(),
            final(self).wf(),
    {
        let cmd = self.regs[46] / 16;
        let logic_op = self.regs[46] % 16;
        let dur = self.command_duration(cmd);
        self.status[2] = self.status[2] | 0x01;
        match cmd {
            0x0 => self.cmd_stop(),
            0x4 => self.cmd_point(),
            0x5 => self.cmd_pset(logic_op),
            0x6 => self.cmd_srch(),
            0x7 => self.cmd_line(logic_op),
            0x8 => self.cmd_lmmv(logic_op),
            0x9 => self.cmd_lmmm(logic_op),
            0xA => self.cmd_lmcm(),
            0xB => self.cmd_lmmc(logic_op),
            0xC => self.cmd_hmmv(),
            0xD => self.cmd_hmmm(),
            0xE => self.cmd_ymmm(),
            0xF => self.cmd_hmmc(),
            _ => {},
        }
        if self.cpu_xfer == CpuXfer::Idle {
            self.cmd_busy = dur;
            if dur <= 0 {
                self.status[2] = self.status[2] & !0x01u8;
            }
        }
    }
}

/// `n` steps from `start` on in direction `step`.
fn offset(start: u32, step: i32, n: u32) -> (r: i32)
    requires
        start < 1024,
        n <= 1023,
    ensures
        r == moved(start as int, step as int, n as int),
{
    if step < 0 {
        start as i32 - n as i32
    } else {
        start as i32 + n as i32
    }
}

/// Units of work in a rectangle.
fn units_of(a: u32, b: u32) -> (r: u32)
    requires
        a <= 1023,
        b <= 1023,
    ensures
        r == a * b,
        r <= 1023 * 1023,
{
    assert(a * b <= 1023 * 1023) by (nonlinear_arith)
        requires
            a <= 1023,
            b <= 1023,
    ;
    a * b
}

/// `byte` with the pixel of column `x` replaced by `color`.
fn replace_in_byte(byte: u8, layout: &PixelLayout, x: u32, color: u8) -> (r: u8)
    requires
        layout.wf(),
        color & layout.mask() == color,
    ensures
        r == byte_with_pixel(byte, layout.bpp, layout.place(x as int), color),
{
    if layout.bpp == 8 {
        color
    } else if layout.bpp == 4 {
        proof {
            lemma_write_nibble(byte, color);
        }
        if x % 2 == 0 {
            (byte & 0x0F) | (color << 4)
        } else {
            (byte & 0xF0) | color
        }
    } else {
        proof {
            lemma_write_pair(byte, color);
        }
        match x % 4 {
            0 => (byte & 0x3F) | (color << 6),
            1 => (byte & 0xCF) | (color << 4),
            2 => (byte & 0xF3) | (color << 2),
            _ => (byte & 0xFC) | color,
        }
    }
}

proof fn lemma_read_nibble(b: u8)
    by (bit_vector)
    ensures
        (b >> 4u32) & 0x0F == b / 16,
        (b >> 0u32) & 0x0F == b % 16,
{
}

proof fn lemma_read_pair(b: u8)
    by (bit_vector)
    ensures
        (b >> 6u32) & 0x03 == b / 64,
        (b >> 4u32) & 0x03 == (b / 16) % 4,
        (b >> 2u32) & 0x03 == (b / 4) % 4,
        (b >> 0u32) & 0x03 == b % 4,
{
}

proof fn lemma_mask_again(c: u8)
    by (bit_vector)
    ensures
        (c & 0xFF) & 0xFF == c & 0xFF,
        (c & 0x0F) & 0x0F == c & 0x0F,
        (c & 0x03) & 0x03 == c & 0x03,
{
}

proof fn lemma_write_nibble(b: u8, c: u8)
    by (bit_vector)
    requires
        c & 0x0F == c,
    ensures
        c < 16,
        (b & 0x0F) | (c << 4) == c * 16 + b % 16,
        (b & 0xF0) | c == (b / 16) * 16 + c,
{
}

proof fn lemma_write_pair(b: u8, c: u8)
    by (bit_vector)
    requires
        c & 0x03 == c,
    ensures
        c < 4,
        (b & 0x3F) | (c << 6) == c * 64 + ((b / 16) % 4) * 16 + ((b / 4) % 4) * 4 + b % 4,
        (b & 0xCF) | (c << 4) == (b / 64) * 64 + c * 16 + ((b / 4) % 4) * 4 + b % 4,
        (b & 0xF3) | (c << 2) == (b / 64) * 64 + ((b / 16) % 4) * 16 + c * 4 + b % 4,
        (b & 0xFC) | c == (b / 64) * 64 + ((b / 16) % 4) * 16 + ((b / 4) % 4) * 4 + c,
{
}

pub(crate) proof fn lemma_colour_bits(c: u8)
    by (bit_vector)
    ensures
        c & 0xFF == c,
        c & 0x0F < 16,
        c & 0x03 < 4,
        c < 16 ==> c & 0x0F == c,
        c < 4 ==> c & 0x03 == c,
{
}

/// A byte is made of its pixels, and its pixels are those it was made of.
pub(crate) proof fn lemma_byte_pixels(l: PixelLayout, b: u8, f: spec_fn(int) -> u8)
    requires
        l.wf(),
    ensures
        forall|k: int| byte_pixel(b, l.bpp, k) <= l.mask(),
        byte_of_pixels(l.bpp, |k: int| byte_pixel(b, l.bpp, k)) == b,
        (forall|k: int| #[trigger] f(k) <= l.mask()) ==> forall|k: int|
            0 <= k < l.ppb() ==> #[trigger] byte_pixel(byte_of_pixels(l.bpp, f), l.bpp, k) == f(k),
{
    if forall|k: int| #[trigger] f(k) <= l.mask() {
        assert(f(0) <= l.mask() && f(1) <= l.mask() && f(2) <= l.mask() && f(3) <= l.mask());
    }
}

/// What a logic operation leaves is a colour.
pub(crate) proof fn lemma_logic_colour(l: PixelLayout, src: u8, dst: u8, op: u8)
    requires
        l.wf(),
        dst <= l.mask(),
    ensures
        logic_result(src, dst, op, l.mask()) <= l.mask(),
        logic_result(src, dst, op, l.mask()) & l.mask() == logic_result(src, dst, op, l.mask()),
{
    lemma_colour_bits(src & dst);
    lemma_colour_bits(src | dst);
    lemma_colour_bits(src ^ dst);
    lemma_colour_bits(!src);
    lemma_colour_bits(src);
    lemma_colour_bits(logic_result(src, dst, op, l.mask()));
}

/// The pixel values of a byte at `a` once `paint` has passed over it.
spec fn painted(
    v: Seq<u8>,
    l: PixelLayout,
    op: u8,
    clr: u8,
    columns: (int, int, int),
    rows: (int, int, int),
    a: int,
) -> spec_fn(int) -> u8 {
    |k: int|
        if spans(rows, l.row_of(a)) && spans(columns, l.column_of(a) * l.ppb() + k) {
            logic_result(clr, byte_pixel(v[a], l.bpp, k), op, l.mask())
        } else {
            byte_pixel(v[a], l.bpp, k)
        }
}

/// One more pixel of a row.
proof fn lemma_paint_pixel(
    v: Seq<u8>,
    l: PixelLayout,
    op: u8,
    clr: u8,
    start: int,
    step: int,
    n: int,
    y: int,
)
    requires
        l.wf(),
        step == 1 || step == -1,
        n >= 0,
        y >= 0,
    ensures
        plot(
            paint(v, l, op, clr, (start, step, n), (y, 1, 1)),
            l,
            op,
            clr,
            moved(start, step, n),
            y,
        ) == paint(v, l, op, clr, (start, step, n + 1), (y, 1, 1)),
{
    let x = moved(start, step, n);
    let w = paint(v, l, op, clr, (start, step, n), (y, 1, 1));
    let r = plot(w, l, op, clr, x, y);
    let t = paint(v, l, op, clr, (start, step, n + 1), (y, 1, 1));
    assert forall|a: int| 0 <= a < v.len() implies r[a] == t[a] by {
        let f = painted(v, l, op, clr, (start, step, n), (y, 1, 1), a);
        let g = painted(v, l, op, clr, (start, step, n + 1), (y, 1, 1), a);
        assert(w[a] == byte_of_pixels(l.bpp, f));
        assert(t[a] == byte_of_pixels(l.bpp, g));
        lemma_byte_pixels(l, v[a], f);
        assert forall|k: int| #[trigger] f(k) <= l.mask() by {
            lemma_logic_colour(l, clr, byte_pixel(v[a], l.bpp, k), op);
        }
        assert(forall|k: int| 0 <= k < l.ppb() ==> #[trigger] byte_pixel(w[a], l.bpp, k) == f(k));
        if 0 <= x < l.width && a == l.address(x, y) {
            let p = l.place(x);
            assert(l.row_of(a) == y);
            assert(l.column_of(a) * l.ppb() + p == x);
            lemma_logic_colour(l, clr, byte_pixel(v[a], l.bpp, p), op);
            assert(f(p) == byte_pixel(v[a], l.bpp, p));
            assert forall|k: int| 0 <= k < l.ppb() && k != p implies #[trigger] f(k) == g(k) by {
                assert(l.column_of(a) * l.ppb() + k != x);
            }
            assert(r[a] == byte_with_pixel(w[a], l.bpp, p, g(p)));
        } else {
            assert forall|k: int| 0 <= k < l.ppb() implies #[trigger] f(k) == g(k) by {
                let c = l.column_of(a) * l.ppb() + k;
                assert(0 <= c < l.width);
                if l.row_of(a) == y && c == x {
                    assert(l.address(x, y) == a);
                }
            }
        }
    }
}

/// One more row.
proof fn lemma_paint_row(
    v: Seq<u8>,
    l: PixelLayout,
    op: u8,
    clr: u8,
    columns: (int, int, int),
    start: int,
    step: int,
    n: int,
)
    requires
        l.wf(),
        step == 1 || step == -1,
        n >= 0,
    ensures
        ({
            let w = paint(v, l, op, clr, columns, (start, step, n));
            let y = moved(start, step, n);
            let t = paint(v, l, op, clr, columns, (start, step, n + 1));
            &&& y >= 0 ==> paint(w, l, op, clr, columns, (y, 1, 1)) == t
            &&& y < 0 ==> w == t
        }),
{
    let w = paint(v, l, op, clr, columns, (start, step, n));
    let y = moved(start, step, n);
    let t = paint(v, l, op, clr, columns, (start, step, n + 1));
    let r = paint(w, l, op, clr, columns, (y, 1, 1));
    assert forall|a: int| 0 <= a < v.len() implies t[a] == (if y < 0 {
        w[a]
    } else {
        r[a]
    }) by {
        let f = painted(v, l, op, clr, columns, (start, step, n), a);
        lemma_byte_pixels(l, v[a], f);
        lemma_byte_pixels(l, w[a], f);
        let row = l.row_of(a);
        assert(row >= 0);
        assert(w[a] == byte_of_pixels(l.bpp, f));
        if row == y {
            assert(!spans((start, step, n), row));
            assert(byte_of_pixels(l.bpp, f) == v[a]);
        } else {
            assert(spans((start, step, n), row) == spans((start, step, n + 1), row));
            assert(r[a] == byte_of_pixels(l.bpp, |k: int| byte_pixel(w[a], l.bpp, k)));
        }
    }
    if y < 0 {
        assert(w =~= t);
    } else {
        assert(r =~= t);
    }
}

/// No pixels painted is nothing painted.
proof fn lemma_paint_none(
    v: Seq<u8>,
    l: PixelLayout,
    op: u8,
    clr: u8,
    columns: (int, int, int),
    rows: (int, int, int),
)
    requires
        l.wf(),
        columns.2 <= 0 || rows.2 <= 0,
        columns.1 == 1 || columns.1 == -1,
        rows.1 == 1 || rows.1 == -1,
    ensures
        paint(v, l, op, clr, columns, rows) == v,
{
    let w = paint(v, l, op, clr, columns, rows);
    assert forall|a: int| 0 <= a < v.len() implies w[a] == v[a] by {
        lemma_byte_pixels(l, v[a], painted(v, l, op, clr, columns, rows, a));
    }
    assert(w =~= v);
}

} // verus!
