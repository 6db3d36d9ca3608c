//! What holds of the command engine as a whole.
#[allow(unused_imports)]
use crate::vdp::engine;
#[allow(unused_imports)]
use crate::vdp::engine::{CpuXfer, EngineState, PixelLayout};
use vstd::prelude::*;

verus! {

#[allow(unused_imports)]
use vstd::arithmetic::div_mod::{lemma_div_by_multiple, lemma_div_is_ordered};

/// A pixel that was set reads back as the colour it was set to, and every
/// other pixel reads as before.
pub proof fn law_pixel_reads_back(
    v: Seq<u8>,
    l: PixelLayout,
    x: int,
    y: int,
    c: u8,
    x2: int,
    y2: int,
)
    requires
        l.wf(),
        0 <= x < l.width,
        0 <= y,
        0 <= x2 < l.width,
        0 <= y2,
        l.address(x, y) < v.len(),
    ensures
        engine::pixel_at(engine::set_pixel(v, l, x, y, c), l, x, y) == c & l.mask(),
        (x2, y2) != (x, y) ==> engine::pixel_at(engine::set_pixel(v, l, x, y, c), l, x2, y2)
            == engine::pixel_at(v, l, x2, y2),
{
    let a = l.address(x, y);
    let k = l.place(x);
    let c2 = c & l.mask();
    let f = |i: int|
        if i == k {
            c2
        } else {
            engine::byte_pixel(v[a], l.bpp, i)
        };
    engine::lemma_colour_bits(c);
    engine::lemma_byte_pixels(l, v[a], f);
    assert(f(k) == c2);
    assert(engine::set_pixel(v, l, x, y, c)[a] == engine::byte_of_pixels(l.bpp, f));
    if (x2, y2) != (x, y) && l.address(x2, y2) == a {
        assert(l.place(x2) != k);
        assert(f(l.place(x2)) == engine::byte_pixel(v[a], l.bpp, l.place(x2)));
    }
}

/// XOR of a colour into a pixel twice leaves the pixel as it was.
pub proof fn law_xor_twice(src: u8, dst: u8, mask: u8)
    requires
        src & mask == src,
        dst & mask == dst,
    ensures
        engine::logic_result(src, engine::logic_result(src, dst, 3, mask), 3, mask) == dst,
{
    assert(3u8 & 0x08 == 0 && 3u8 & 0x07 == 3 && (src ^ ((src ^ dst) & mask)) & mask == dst)
        by (bit_vector)
        requires
            src & mask == src,
            dst & mask == dst,
    ;
}

/// A transparent operation never changes a pixel where the source is 0.
pub proof fn law_transparent_skips_zero(v: Seq<u8>, l: PixelLayout, op: u8, x: int, y: int)
    requires
        l.wf(),
        op & 0x08 != 0,
    ensures
        engine::plot(v, l, op, 0, x, y) == v,
{
    let a = l.address(x, y);
    if 0 <= x < l.width && 0 <= y && a < v.len() {
        let k = l.place(x);
        let p = engine::pixel_at(v, l, x, y);
        let f = |i: int|
            if i == k {
                p & l.mask()
            } else {
                engine::byte_pixel(v[a], l.bpp, i)
            };
        engine::lemma_byte_pixels(l, v[a], f);
        engine::lemma_colour_bits(p);
        assert(engine::byte_of_pixels(l.bpp, f) == engine::byte_of_pixels(
            l.bpp,
            |i: int| engine::byte_pixel(v[a], l.bpp, i),
        ));
        assert(engine::plot(v, l, op, 0, x, y) =~= v);
    }
}

/// SRCH finds the nearest match: it matches, and nothing between the start and
/// it does. Without a find nothing from the start to the border matches.
pub proof fn law_search_finds_first(
    v: Seq<u8>,
    l: PixelLayout,
    x: int,
    y: int,
    left: bool,
    clr: u8,
    eq: bool,
    c: int,
)
    requires
        0 <= c < l.width,
    ensures
        match engine::search(v, l, x, y, left, clr, eq) {
            Some(r) => {
                &&& 0 <= r < l.width
                &&& (engine::pixel_at(v, l, r, y) == clr) == eq
                &&& if left {
                    r <= x
                } else {
                    x <= r
                }
                &&& (if left {
                    r < c <= x
                } else {
                    x <= c < r
                }) ==> (engine::pixel_at(v, l, c, y) == clr) != eq
            },
            None => 0 <= x < l.width && (if left {
                c <= x
            } else {
                x <= c
            }) ==> (engine::pixel_at(v, l, c, y) == clr) != eq,
        },
    decreases
            (if left {
                x + 1
            } else {
                l.width - x
            }),
{
    if 0 <= x < l.width && (engine::pixel_at(v, l, x, y) == clr) != eq {
        let next = if left {
            x - 1
        } else {
            x + 1
        };
        law_search_finds_first(v, l, next, y, left, clr, eq, c);
    }
}

pub(crate) proof fn lemma_copy_lens(
    v: Seq<u8>,
    l: PixelLayout,
    op: u8,
    src: (int, int),
    dst: (int, int),
    step: (int, int),
    cols: int,
    rows: int,
)
    ensures
        engine::copy_row(v, l, src, dst, step.0, cols).len() == v.len(),
        engine::copy_rows(v, l, src, dst, step, cols, rows).len() == v.len(),
        engine::move_row(v, l, op, src, dst, step.0, cols).len() == v.len(),
        engine::move_rows(v, l, op, src, dst, step, cols, rows).len() == v.len(),
    decreases at_nat(rows), at_nat(cols),
{
    if cols > 0 {
        lemma_copy_lens(v, l, op, src, dst, step, cols - 1, rows);
    }
    if rows > 0 {
        lemma_copy_lens(v, l, op, src, dst, step, cols, rows - 1);
        let w = engine::copy_rows(v, l, src, dst, step, cols, rows - 1);
        let w2 = engine::move_rows(v, l, op, src, dst, step, cols, rows - 1);
        let y = engine::moved(src.1, step.1, rows - 1);
        let y2 = engine::moved(dst.1, step.1, rows - 1);
        lemma_copy_lens(w, l, op, (src.0, y), (dst.0, y2), step, cols, 0);
        lemma_copy_lens(w2, l, op, (src.0, y), (dst.0, y2), step, cols, 0);
    }
}

pub(crate) open spec fn at_nat(n: int) -> nat {
    if n < 0 {
        0
    } else {
        n as nat
    }
}

proof fn lemma_run_lens(
    v: Seq<u8>,
    l: PixelLayout,
    col: int,
    cols: int,
    sy: int,
    dy: int,
    step: int,
    rows: int,
)
    requires
        col >= 0,
    ensures
        engine::copy_runs(v, l, col, cols, sy, dy, step, rows).len() == v.len(),
    decreases at_nat(rows),
{
    if rows > 0 {
        lemma_run_lens(v, l, col, cols, sy, dy, step, rows - 1);
        let w = engine::copy_runs(v, l, col, cols, sy, dy, step, rows - 1);
        let s = engine::moved(sy, step, rows - 1);
        let d = engine::moved(dy, step, rows - 1);
        if s >= 0 && d >= 0 {
            lemma_run_len(w, l.row_start(s) + col, l.row_start(d) + col, cols);
        }
    }
}

proof fn lemma_run_len(v: Seq<u8>, src: int, dst: int, n: int)
    requires
        src >= 0,
        dst >= 0,
    ensures
        engine::copy_run(v, src, dst, n).len() == v.len(),
    decreases at_nat(n),
{
    if n > 0 {
        lemma_run_len(v, src, dst, n - 1);
    }
}

proof fn lemma_plots_len(v: Seq<u8>, l: PixelLayout, op: u8, dots: Seq<(int, int, u8)>)
    ensures
        engine::plots(v, l, op, dots).len() == v.len(),
    decreases dots.len(),
{
    if dots.len() > 0 {
        lemma_plots_len(v, l, op, dots.drop_last());
    }
}

/// R44 writes and S7 reads keep the sizes, and reads keep VRAM.
proof fn lemma_transfer_sizes(s: EngineState, value: u8)
    requires
        s.regs.len() == 64,
        s.status.len() == 10,
    ensures
        s.pumped(value).vram.len() == s.vram.len(),
        s.pumped(value).regs.len() == 64,
        s.pumped(value).status.len() == 10,
        s.drained().vram == s.vram,
        s.drained().regs.len() == 64,
        s.drained().status.len() == 10,
{
}

proof fn lemma_rectangle_sizes(s: EngineState, op: u8)
    requires
        s.regs.len() == 64,
        s.status.len() == 10,
    ensures
        same_sizes(s, s.after_hmmm()),
        same_sizes(s, s.after_lmmm(op)),
        same_sizes(s, s.after_ymmm()),
        same_sizes(s, s.after_line(op)),
{
    if let Some(l) = s.layout() {
        let sc = l.column(s.sx());
        let dc = l.column(s.dx());
        let step = (s.dix(), s.diy());
        let hcols = if s.nx() != 0 {
            l.columns_for(s.nx())
        } else if s.dix() < 0 {
            engine::smaller(sc, dc) + 1
        } else {
            l.pitch - engine::at_least(sc, dc)
        };
        lemma_copy_lens(s.vram, l, op, (sc, s.sy()), (dc, s.dy()), step, hcols, s.rows());
        let lcols = if s.nx() != 0 {
            s.nx()
        } else if s.dix() < 0 {
            engine::smaller(s.sx(), s.dx()) + 1
        } else {
            l.width - engine::at_least(s.sx(), s.dx())
        };
        lemma_copy_lens(s.vram, l, op, (s.sx(), s.sy()), (s.dx(), s.dy()), step, lcols, s.rows());
        let (col, cols) = if s.dix() < 0 {
            (0, dc + 1)
        } else {
            (dc, l.pitch - dc)
        };
        let yrows = engine::at_least(s.ny(), 1);
        lemma_run_lens(s.vram, l, col, cols, s.sy(), s.dy(), s.diy(), yrows);
        let p = s.line(l);
        lemma_plots_len(s.vram, l, op, p.dots(p.steps + 1));
    }
}

spec fn same_sizes(s: EngineState, t: EngineState) -> bool {
    t.vram.len() == s.vram.len() && t.regs.len() == 64 && t.status.len() == 10
}

proof fn lemma_simple_sizes(s: EngineState, op: u8)
    requires
        s.regs.len() == 64,
        s.status.len() == 10,
    ensures
        same_sizes(s, s.after_stop()),
        same_sizes(s, s.after_point()),
        same_sizes(s, s.after_pset(op)),
        same_sizes(s, s.after_srch()),
        same_sizes(s, s.after_lmmv(op)),
        same_sizes(s, s.after_hmmv()),
        same_sizes(s, s.preloaded()),
{
}

proof fn lemma_commanded_sizes(s: EngineState, cmd: int, op: u8)
    requires
        s.regs.len() == 64,
        s.status.len() == 10,
    ensures
        same_sizes(s, s.commanded(cmd, op)),
{
    if cmd == 0xA {
        lemma_simple_sizes(EngineState { xfer: CpuXfer::Lmcm, x: 0, y: 0, ..s }, op);
    } else if cmd == 0xB {
        lemma_transfer_sizes(s.started(CpuXfer::Lmmc { logic_op: op }), s.regs[44]);
    } else if cmd == 0xF {
        lemma_transfer_sizes(s.started(CpuXfer::Hmmc), s.regs[44]);
    } else if cmd == 0x7 || cmd == 0x9 || cmd == 0xD || cmd == 0xE {
        lemma_rectangle_sizes(s, op);
    } else {
        lemma_simple_sizes(s, op);
    }
}

/// No command and no step of a transfer changes how large VRAM and the register
/// files are, and reading a transfer leaves VRAM alone.
pub proof fn law_sizes_stay(s: EngineState, value: u8)
    requires
        s.regs.len() == 64,
        s.status.len() == 10,
    ensures
        s.executed().vram.len() == s.vram.len(),
        s.executed().regs.len() == 64,
        s.executed().status.len() == 10,
        s.pumped(value).vram.len() == s.vram.len(),
        s.pumped(value).regs.len() == 64,
        s.pumped(value).status.len() == 10,
        s.drained().vram == s.vram,
        s.drained().regs.len() == 64,
        s.drained().status.len() == 10,
{
    let t = s.with_status(2, s.status[2] | 0x01);
    lemma_transfer_sizes(s, value);
    lemma_commanded_sizes(t, (s.regs[46] / 16) as int, s.regs[46] % 16);
}

/// The register pairs that commands write a coordinate or a count back to.
pub open spec fn written_back(i: int) -> bool {
    i == 34 || i == 35 || i == 38 || i == 39 || i == 42 || i == 43
}

/// The registers are the same but for those pairs.
pub open spec fn same_others(a: Seq<u8>, b: Seq<u8>) -> bool {
    a.len() == b.len() && forall|i: int|
        0 <= i < a.len() && !written_back(i) ==> #[trigger] b[i] == a[i]
}

proof fn lemma_rectangle_registers(s: EngineState, op: u8)
    requires
        s.regs.len() == 64,
    ensures
        same_others(s.regs, s.after_hmmv().regs),
        same_others(s.regs, s.after_hmmm().regs),
        same_others(s.regs, s.after_lmmv(op).regs),
        same_others(s.regs, s.after_lmmm(op).regs),
        same_others(s.regs, s.after_ymmm().regs),
        same_others(s.regs, s.after_line(op).regs),
{
}

proof fn lemma_other_registers(s: EngineState, op: u8, value: u8)
    requires
        s.regs.len() == 64,
    ensures
        s.after_stop().regs == s.regs,
        s.after_point().regs == s.regs,
        s.after_pset(op).regs == s.regs,
        s.after_srch().regs == s.regs,
        s.preloaded().regs == s.regs,
        same_others(s.regs, s.pumped(value).regs),
        same_others(s.regs, s.drained().regs),
{
}

/// Commands and transfers change no register but the pairs that hold SY, DY and
/// NY.
pub proof fn law_other_registers_stay(s: EngineState, value: u8)
    requires
        s.regs.len() == 64,
    ensures
        same_others(s.regs, s.executed().regs),
        same_others(s.regs, s.pumped(value).regs),
        same_others(s.regs, s.drained().regs),
{
    let t = s.with_status(2, s.status[2] | 0x01);
    let cmd = (s.regs[46] / 16) as int;
    let op = s.regs[46] % 16;
    lemma_rectangle_registers(t, op);
    lemma_other_registers(t, op, value);
    lemma_other_registers(s, op, value);
    lemma_other_registers(EngineState { xfer: CpuXfer::Lmcm, x: 0, y: 0, ..t }, op, value);
    lemma_other_registers(t.started(CpuXfer::Lmmc { logic_op: op }), op, s.regs[44]);
    lemma_other_registers(t.started(CpuXfer::Hmmc), op, s.regs[44]);
    assert(same_others(t.regs, t.commanded(cmd, op).regs));
}

pub(crate) proof fn lemma_status_bits(b: u8)
    by (bit_vector)
    ensures
        (b | 0x01) & 0x01 != 0,
        (b | 0x81) & 0x81 == 0x81,
        (b | 0x81) & 0x01 != 0,
        (b & !0x01u8) & 0x01 == 0,
        (b & !0x81u8) & 0x81 == 0,
        (b & !0x81u8) & 0x01 == 0,
        (b & !0x10u8) & 0x01 == b & 0x01,
        ((b & !0x10u8) | 0x10) & 0x01 == b & 0x01,
        (b & !0x80u8) & 0x01 == b & 0x01,
        ((b & !0x80u8) & !0x01u8) & 0x81 == 0,
{
}

/// After a command CE (bit 0 of S2) is up exactly while a transfer runs or the
/// engine still has T-states to spend.
pub proof fn law_ce_means_busy(s: EngineState)
    requires
        s.regs.len() == 64,
        s.status.len() == 10,
    ensures
        (s.executed().status[2] & 0x01 != 0) <==> (s.executed().xfer != CpuXfer::Idle
            || s.executed().busy > 0),
{
    let t = s.with_status(2, s.status[2] | 0x01);
    let cmd = (s.regs[46] / 16) as int;
    let done = t.commanded(cmd, s.regs[46] % 16);
    lemma_status_bits(s.status[2]);
    lemma_status_bits(t.status[2]);
    lemma_status_bits(t.status[2] | 0x81);
    lemma_status_bits(done.status[2]);
}

/// STOP ends any transfer: TR and CE are down, and the next R44 write or S7
/// read moves nothing.
pub proof fn law_stop_ends_transfer(s: EngineState, value: u8)
    requires
        s.regs.len() == 64,
        s.status.len() == 10,
        s.regs[46] / 16 == 0,
    ensures
        s.executed().xfer == CpuXfer::Idle,
        s.executed().status[2] & 0x81 == 0,
        s.executed().vram == s.vram,
        s.executed().regs == s.regs,
        s.executed().pumped(value) == s.executed(),
{
    lemma_status_bits(s.status[2] | 0x01);
}

/// The dots lie on different pixels.
pub open spec fn apart(dots: Seq<(int, int, u8)>) -> bool {
    forall|i: int, j: int|
        0 <= i < j < dots.len() ==> #[trigger] dots[i].0 != #[trigger] dots[j].0 || dots[i].1
            != dots[j].1
}

/// Colours combined into different pixels: each pixel that has a dot takes its
/// colour, and every other stays as it was.
pub proof fn law_dots_land(
    v: Seq<u8>,
    l: PixelLayout,
    op: u8,
    dots: Seq<(int, int, u8)>,
    x: int,
    y: int,
)
    requires
        l.wf(),
        apart(dots),
        0 <= x < l.width,
        0 <= y,
        l.address(x, y) < v.len(),
    ensures
        ({
            let old_pixel = engine::pixel_at(v, l, x, y);
            let new_pixel = engine::pixel_at(engine::plots(v, l, op, dots), l, x, y);
            &&& forall|i: int|
                0 <= i < dots.len() && (#[trigger] dots[i]).0 == x && dots[i].1 == y ==> new_pixel
                    == engine::logic_result(dots[i].2, old_pixel, op, l.mask())
            &&& (forall|i: int|
                0 <= i < dots.len() ==> (#[trigger] dots[i]).0 != x || dots[i].1 != y)
                ==> new_pixel == old_pixel
        }),
        engine::plots(v, l, op, dots).len() == v.len(),
    decreases dots.len(),
{
    lemma_plots_len(v, l, op, dots);
    if dots.len() > 0 {
        let rest = dots.drop_last();
        let d = dots.last();
        assert forall|i: int, j: int| 0 <= i < j < rest.len() implies #[trigger] rest[i].0
            != #[trigger] rest[j].0 || rest[i].1 != rest[j].1 by {
            assert(dots[i].0 != dots[j].0 || dots[i].1 != dots[j].1);
        }
        law_dots_land(v, l, op, rest, x, y);
        let w = engine::plots(v, l, op, rest);
        let p = engine::pixel_at(w, l, d.0, d.1);
        if 0 <= d.0 < l.width && 0 <= d.1 && l.address(d.0, d.1) < v.len() {
            engine::lemma_byte_pixels(l, w[l.address(d.0, d.1)], |k: int| 0u8);
            engine::lemma_logic_colour(l, d.2, p, op);
            law_pixel_reads_back(
                w,
                l,
                d.0,
                d.1,
                engine::logic_result(d.2, p, op, l.mask()),
                x,
                y,
            );
        }
        if d.0 == x && d.1 == y {
            assert forall|i: int| 0 <= i < rest.len() implies (#[trigger] rest[i]).0 != x
                || rest[i].1 != y by {
                assert(dots[i].0 != dots[dots.len() - 1].0 || dots[i].1 != dots[dots.len() - 1].1);
            }
        } else {
            assert forall|i: int|
                0 <= i < dots.len() && (#[trigger] dots[i]).0 == x && dots[i].1
                    == y implies engine::pixel_at(engine::plots(v, l, op, dots), l, x, y)
                == engine::logic_result(dots[i].2, engine::pixel_at(v, l, x, y), op, l.mask()) by {
                assert(rest[i] == dots[i]);
            }
            if forall|i: int|
                0 <= i < dots.len() ==> (#[trigger] dots[i]).0 != x || dots[i].1 != y {
                assert forall|i: int| 0 <= i < rest.len() implies (#[trigger] rest[i]).0 != x
                    || rest[i].1 != y by {
                    assert(rest[i] == dots[i]);
                }
            }
        }
    }
}

/// Pixel `(x, y)` is on the line: `k` steps along the major axis, and the share of
/// the minor length that goes with them along the other.
pub open spec fn on_line(p: engine::Line, x: int, y: int) -> bool {
    exists|k: int| 0 <= k <= p.steps && #[trigger] p.column(k) == x && p.row(k) == y
}

/// LINE combines its colour into the pixels on the line, from its start to its
/// end, and leaves every other pixel alone.
pub proof fn law_line_sets_its_pixels(s: EngineState, l: PixelLayout, op: u8, x: int, y: int)
    requires
        s.layout() == Some(l),
        0 <= x < l.width,
        0 <= y,
        l.address(x, y) < s.vram.len(),
    ensures
        ({
            let p = s.line(l);
            let old_pixel = engine::pixel_at(s.vram, l, x, y);
            let new_pixel = engine::pixel_at(s.after_line(op).vram, l, x, y);
            &&& on_line(p, x, y) ==> new_pixel == engine::logic_result(
                p.clr,
                old_pixel,
                op,
                l.mask(),
            )
            &&& on_line(p, x, y) && op == 0 ==> new_pixel == p.clr
            &&& !on_line(p, x, y) ==> new_pixel == old_pixel
        }),
        s.after_line(op).vram.len() == s.vram.len(),
{
    let p = s.line(l);
    let dots = p.dots(p.steps + 1);
    assert forall|i: int, j: int| 0 <= i < j < dots.len() implies #[trigger] dots[i].0
        != #[trigger] dots[j].0 || dots[i].1 != dots[j].1 by {}
    law_dots_land(s.vram, l, op, dots, x, y);
    if on_line(p, x, y) {
        let k = choose|k: int| 0 <= k <= p.steps && #[trigger] p.column(k) == x && p.row(k) == y;
        assert(dots[k] == (x, y, p.clr));
        engine::lemma_colour_bits(s.regs[44]);
        engine::lemma_colour_bits(p.clr);
        assert(0u8 & 0x08 == 0 && 0u8 & 0x07 == 0) by (bit_vector);
    } else {
        assert forall|i: int| 0 <= i < dots.len() implies (#[trigger] dots[i]).0 != x || dots[i].1
            != y by {
            assert(dots[i] == (p.column(i), p.row(i), p.clr));
        }
    }
}

/// With NY no larger than NX, a line goes `k` steps along its major axis and
/// `k * NY / NX` along the other, rounded down; with a larger NY it goes as far
/// along both. It ends after NX steps, at NY along the minor axis if that is no
/// larger.
pub proof fn law_line_shares_its_steps(p: engine::Line, k: int)
    requires
        p.steps >= 1,
        p.minor >= 0,
        0 <= k,
    ensures
        p.minor <= p.steps ==> p.across(k) == (k * p.minor) / p.steps,
        p.minor <= p.steps ==> p.across(p.steps) == p.minor,
        p.minor >= p.steps ==> p.across(k) == k,
{
    engine::lemma_across(p, k);
    let m = p.minor;
    let n = p.steps;
    if m <= n {
        assert(k * m <= k * n) by (nonlinear_arith)
            requires
                k >= 0,
                m <= n,
        ;
        lemma_div_is_ordered(k * m, k * n, n);
        lemma_div_by_multiple(k, n);
        assert(n * m == m * n) by (nonlinear_arith);
        lemma_div_by_multiple(m, n);
    }
    if m >= n {
        assert(k * m >= k * n) by (nonlinear_arith)
            requires
                k >= 0,
                m >= n,
        ;
        lemma_div_is_ordered(k * n, k * m, n);
        lemma_div_by_multiple(k, n);
    }
}

/// VRAM where every byte in the given columns and rows holds what stood
/// `shift` columns and rows away; bytes whose source lies off the page or past
/// the end of VRAM stay.
pub open spec fn copied(
    v: Seq<u8>,
    l: PixelLayout,
    shift: (int, int),
    columns: (int, int, int),
    rows: (int, int, int),
) -> Seq<u8> {
    Seq::new(
        v.len(),
        |a: int|
            {
                let c = l.column_of(a) + shift.0;
                let r = l.row_of(a) + shift.1;
                if engine::spans(rows, l.row_of(a)) && engine::spans(columns, l.column_of(a)) && 0
                    <= c < l.pitch && 0 <= r && l.row_start(r) + c < v.len() {
                    v[l.row_start(r) + c]
                } else {
                    v[a]
                }
            },
    )
}

proof fn lemma_copy_row_direct(
    v: Seq<u8>,
    l: PixelLayout,
    src: (int, int),
    dst: (int, int),
    step: int,
    n: int,
)
    requires
        l.wf(),
        step == 1 || step == -1,
        n >= 0,
        src.0 - dst.0 >= n || dst.0 - src.0 >= n || src.1 != dst.1,
    ensures
        engine::copy_row(v, l, src, dst, step, n) == copied(
            v,
            l,
            (src.0 - dst.0, src.1 - dst.1),
            (dst.0, step, n),
            (dst.1, 1, 1),
        ),
    decreases n,
{
    let shift = (src.0 - dst.0, src.1 - dst.1);
    let t = copied(v, l, shift, (dst.0, step, n), (dst.1, 1, 1));
    if n == 0 {
        assert(t =~= v);
    } else {
        lemma_copy_row_direct(v, l, src, dst, step, n - 1);
        let w = engine::copy_row(v, l, src, dst, step, n - 1);
        let sx = engine::moved(src.0, step, n - 1);
        let dx = engine::moved(dst.0, step, n - 1);
        let r = engine::copy_byte(w, l, (sx, src.1), (dx, dst.1));
        let from = l.row_start(src.1) + sx;
        if 0 <= sx < l.pitch && 0 <= src.1 && from < v.len() {
            assert(l.row_of(from) == src.1 && l.column_of(from) == sx);
            assert(w[from] == v[from]);
        }
        assert forall|a: int| 0 <= a < v.len() implies r[a] == t[a] by {
            if l.row_of(a) == dst.1 && l.column_of(a) == dx {
                assert(a == l.row_start(dst.1) + dx);
            }
        }
        assert(r =~= t);
    }
}

/// A byte copy between rectangles that do not overlap moves every byte of the
/// source, as it stood before, to its place in the destination, and changes
/// nothing else.
pub proof fn law_copy_of_disjoint_rectangles(
    v: Seq<u8>,
    l: PixelLayout,
    src: (int, int),
    dst: (int, int),
    step: (int, int),
    cols: int,
    rows: int,
)
    requires
        l.wf(),
        step.0 == 1 || step.0 == -1,
        step.1 == 1 || step.1 == -1,
        cols >= 0,
        rows >= 0,
        src.0 - dst.0 >= cols || dst.0 - src.0 >= cols || src.1 - dst.1 >= rows || dst.1 - src.1
            >= rows,
    ensures
        engine::copy_rows(v, l, src, dst, step, cols, rows) == copied(
            v,
            l,
            (src.0 - dst.0, src.1 - dst.1),
            (dst.0, step.0, cols),
            (dst.1, step.1, rows),
        ),
    decreases rows,
{
    let shift = (src.0 - dst.0, src.1 - dst.1);
    let columns = (dst.0, step.0, cols);
    let t = copied(v, l, shift, columns, (dst.1, step.1, rows));
    if rows == 0 {
        assert(t =~= v);
    } else {
        law_copy_of_disjoint_rectangles(v, l, src, dst, step, cols, rows - 1);
        let w = engine::copy_rows(v, l, src, dst, step, cols, rows - 1);
        let sy = engine::moved(src.1, step.1, rows - 1);
        let dy = engine::moved(dst.1, step.1, rows - 1);
        lemma_copy_row_direct(w, l, (src.0, sy), (dst.0, dy), step.0, cols);
        let r = copied(w, l, shift, columns, (dy, 1, 1));
        assert forall|a: int| 0 <= a < v.len() implies r[a] == t[a] by {
            let c = l.column_of(a) + shift.0;
            let q = l.row_of(a) + shift.1;
            let from = l.row_start(q) + c;
            if l.row_of(a) == dy && engine::spans(columns, l.column_of(a)) && 0 <= c < l.pitch && 0
                <= q && from < v.len() {
                assert(l.row_of(from) == q && l.column_of(from) == c);
                assert(w[from] == v[from]);
            }
        }
        assert(r =~= t);
    }
}

/// A run of bytes within a row is a row copied to the right.
proof fn lemma_run_is_row(v: Seq<u8>, l: PixelLayout, col: int, sy: int, dy: int, n: int)
    requires
        l.wf(),
        0 <= col,
        col + n <= l.pitch,
        0 <= sy,
        0 <= dy,
    ensures
        engine::copy_run(v, l.row_start(sy) + col, l.row_start(dy) + col, n) == engine::copy_row(
            v,
            l,
            (col, sy),
            (col, dy),
            1,
            n,
        ),
    decreases n,
{
    if n > 0 {
        lemma_run_is_row(v, l, col, sy, dy, n - 1);
    }
}

proof fn lemma_nothing_copied(v: Seq<u8>, l: PixelLayout, src: (int, int), dst: (int, int), n: int)
    requires
        src.1 < 0 || dst.1 < 0,
    ensures
        engine::copy_row(v, l, src, dst, 1, n) == v,
    decreases n,
{
    if n > 0 {
        lemma_nothing_copied(v, l, src, dst, n - 1);
    }
}

pub(crate) proof fn lemma_runs_are_rows(
    v: Seq<u8>,
    l: PixelLayout,
    columns: (int, int),
    sy: int,
    dy: int,
    step: int,
    rows: int,
)
    requires
        l.wf(),
        0 <= columns.0,
        columns.0 + columns.1 <= l.pitch,
    ensures
        engine::copy_runs(v, l, columns.0, columns.1, sy, dy, step, rows) == engine::copy_rows(
            v,
            l,
            (columns.0, sy),
            (columns.0, dy),
            (1, step),
            columns.1,
            rows,
        ),
    decreases rows,
{
    if rows > 0 {
        lemma_runs_are_rows(v, l, columns, sy, dy, step, rows - 1);
        let w = engine::copy_runs(v, l, columns.0, columns.1, sy, dy, step, rows - 1);
        let s = engine::moved(sy, step, rows - 1);
        let d = engine::moved(dy, step, rows - 1);
        if s < 0 || d < 0 {
            lemma_nothing_copied(w, l, (columns.0, s), (columns.0, d), columns.1);
        } else {
            lemma_run_is_row(w, l, columns.0, s, d, columns.1);
        }
    }
}

/// A vertical move by at least as many rows as it has moves every byte of its
/// columns, as it stood before, to the row it belongs in, and changes nothing
/// else.
pub proof fn law_vertical_move_of_apart_rows(
    v: Seq<u8>,
    l: PixelLayout,
    columns: (int, int),
    sy: int,
    dy: int,
    step: int,
    rows: int,
)
    requires
        l.wf(),
        step == 1 || step == -1,
        0 <= columns.0,
        0 <= columns.1,
        columns.0 + columns.1 <= l.pitch,
        0 <= rows,
        sy - dy >= rows || dy - sy >= rows,
    ensures
        engine::copy_runs(v, l, columns.0, columns.1, sy, dy, step, rows) == copied(
            v,
            l,
            (0, sy - dy),
            (columns.0, 1, columns.1),
            (dy, step, rows),
        ),
{
    lemma_runs_are_rows(v, l, columns, sy, dy, step, rows);
    law_copy_of_disjoint_rectangles(
        v,
        l,
        (columns.0, sy),
        (columns.0, dy),
        (1, step),
        columns.1,
        rows,
    );
}

/// What pixel `(x, y)` is after a move from `shift` columns and rows away into the
/// given columns and rows: the one there combined into it, where both are on the
/// page.
pub open spec fn combined(
    v: Seq<u8>,
    l: PixelLayout,
    op: u8,
    shift: (int, int),
    columns: (int, int, int),
    rows: (int, int, int),
    x: int,
    y: int,
) -> u8 {
    let p = engine::pixel_at(v, l, x, y);
    if engine::spans(columns, x) && engine::spans(rows, y) && 0 <= x + shift.0 < l.width && 0 <= y
        + shift.1 {
        engine::logic_result(
            engine::pixel_at(v, l, x + shift.0, y + shift.1),
            p,
            op,
            l.mask(),
        )
    } else {
        p
    }
}

/// One pixel combined into another.
pub(crate) proof fn lemma_move_pixel(
    v: Seq<u8>,
    l: PixelLayout,
    op: u8,
    src: (int, int),
    dst: (int, int),
    x: int,
    y: int,
)
    requires
        l.wf(),
        0 <= x < l.width,
        0 <= y,
    ensures
        engine::move_pixel(v, l, op, src, dst).len() == v.len(),
        ({
            let q = engine::pixel_at(engine::move_pixel(v, l, op, src, dst), l, x, y);
            let p = engine::pixel_at(v, l, x, y);
            &&& (x, y) != dst ==> q == p
            &&& (x, y) == dst && l.address(x, y) < v.len() ==> q == (if 0 <= src.0 < l.width && 0
                <= src.1 {
                engine::logic_result(engine::pixel_at(v, l, src.0, src.1), p, op, l.mask())
            } else {
                p
            })
        }),
{
    let d = engine::pixel_at(v, l, dst.0, dst.1);
    let c = engine::logic_result(engine::pixel_at(v, l, src.0, src.1), d, op, l.mask());
    if 0 <= dst.0 < l.width && 0 <= dst.1 && l.address(dst.0, dst.1) < v.len() {
        engine::lemma_byte_pixels(l, v[l.address(dst.0, dst.1)], |k: int| 0u8);
        engine::lemma_logic_colour(l, engine::pixel_at(v, l, src.0, src.1), d, op);
        law_pixel_reads_back(v, l, dst.0, dst.1, c, x, y);
    }
}

proof fn lemma_move_row(
    v: Seq<u8>,
    l: PixelLayout,
    op: u8,
    src: (int, int),
    dst: (int, int),
    step: int,
    n: int,
    x: int,
    y: int,
)
    requires
        l.wf(),
        step == 1 || step == -1,
        n >= 0,
        src.0 - dst.0 >= n || dst.0 - src.0 >= n || src.1 != dst.1,
        0 <= x < l.width,
        0 <= y,
    ensures
        engine::move_row(v, l, op, src, dst, step, n).len() == v.len(),
        ({
            let q = engine::pixel_at(engine::move_row(v, l, op, src, dst, step, n), l, x, y);
            let shift = (src.0 - dst.0, src.1 - dst.1);
            let columns = (dst.0, step, n);
            &&& l.address(x, y) < v.len() ==> q == combined(
                v,
                l,
                op,
                shift,
                columns,
                (dst.1, 1, 1),
                x,
                y,
            )
            &&& !(y == dst.1 && engine::spans(columns, x)) ==> q == engine::pixel_at(v, l, x, y)
        }),
    decreases n,
{
    if n > 0 {
        let w = engine::move_row(v, l, op, src, dst, step, n - 1);
        let from = (engine::moved(src.0, step, n - 1), src.1);
        let to = (engine::moved(dst.0, step, n - 1), dst.1);
        lemma_move_row(v, l, op, src, dst, step, n - 1, x, y);
        if 0 <= from.0 < l.width && 0 <= from.1 {
            lemma_move_row(v, l, op, src, dst, step, n - 1, from.0, from.1);
        }
        lemma_move_pixel(w, l, op, from, to, x, y);
    }
}

/// A move of pixels between rectangles that do not overlap combines every pixel
/// of the source, as it stood before, into its place in the destination, and
/// changes nothing else.
pub proof fn law_move_of_disjoint_rectangles(
    v: Seq<u8>,
    l: PixelLayout,
    op: u8,
    src: (int, int),
    dst: (int, int),
    step: (int, int),
    cols: int,
    rows: int,
    x: int,
    y: int,
)
    requires
        l.wf(),
        step.0 == 1 || step.0 == -1,
        step.1 == 1 || step.1 == -1,
        cols >= 0,
        rows >= 0,
        src.0 - dst.0 >= cols || dst.0 - src.0 >= cols || src.1 - dst.1 >= rows || dst.1 - src.1
            >= rows,
        0 <= x < l.width,
        0 <= y,
    ensures
        engine::move_rows(v, l, op, src, dst, step, cols, rows).len() == v.len(),
        ({
            let t = engine::move_rows(v, l, op, src, dst, step, cols, rows);
            let columns = (dst.0, step.0, cols);
            let span = (dst.1, step.1, rows);
            &&& l.address(x, y) < v.len() ==> engine::pixel_at(t, l, x, y) == combined(
                v,
                l,
                op,
                (src.0 - dst.0, src.1 - dst.1),
                columns,
                span,
                x,
                y,
            )
            &&& !(engine::spans(span, y) && engine::spans(columns, x)) ==> engine::pixel_at(
                t,
                l,
                x,
                y,
            ) == engine::pixel_at(v, l, x, y)
        }),
    decreases rows,
{
    if rows > 0 {
        let w = engine::move_rows(v, l, op, src, dst, step, cols, rows - 1);
        let from = (src.0, engine::moved(src.1, step.1, rows - 1));
        let to = (dst.0, engine::moved(dst.1, step.1, rows - 1));
        law_move_of_disjoint_rectangles(v, l, op, src, dst, step, cols, rows - 1, x, y);
        lemma_move_row(w, l, op, from, to, step.0, cols, x, y);
        let a = x + src.0 - dst.0;
        let b = y + src.1 - dst.1;
        if y == to.1 && 0 <= a < l.width && 0 <= b {
            law_move_of_disjoint_rectangles(v, l, op, src, dst, step, cols, rows - 1, a, b);
        }
    }
}

} // verus!
