//! What the commands that work pixel by pixel do, by the bytes of the registers and of
//! VRAM.
#[allow(unused_imports)]
use crate::vdp::command_laws::{
    bitmap, byte_at, byte_pixels, colour, colours, go, has_byte, law_operations_mix,
    law_pixels_lie, law_registers_mean, leftwards, lemma_bits, lemma_misses, lemma_numbers, mixed,
    row_bytes, row_count, row_count_or_one, told, upwards, word, Sweep,
};
#[allow(unused_imports)]
use crate::vdp::engine;
#[allow(unused_imports)]
use crate::vdp::engine::{CpuXfer, EngineState, PixelLayout};
#[allow(unused_imports)]
use crate::vdp::engine_laws::{
    law_ce_means_busy, law_line_sets_its_pixels, law_line_shares_its_steps,
    law_other_registers_stay, law_pixel_reads_back,
    law_search_finds_first, lemma_copy_lens, lemma_move_pixel, on_line,
};
use vstd::prelude::*;

verus! {

/// Pixels in a row.
pub open spec fn row_pixels(r: Seq<u8>) -> int {
    row_bytes(r) * byte_pixels(r)
}

/// The pixel is on the page and in VRAM.
pub open spec fn has_pixel(v: Seq<u8>, r: Seq<u8>, x: int, y: int) -> bool {
    0 <= x < row_pixels(r) && 0 <= y && y * row_bytes(r) + x / byte_pixels(r) < v.len()
}

/// The colour in R44, as many bits as a pixel has.
pub open spec fn pen(r: Seq<u8>) -> u8 {
    (r[44] as int % colours(r)) as u8
}

proof fn lemma_pen(s: EngineState)
    requires
        s.regs.len() == 64,
        bitmap(s.regs),
    ensures
        s.regs[44] & s.layout()->Some_0.mask() == pen(s.regs),
        pen(s.regs) < colours(s.regs),
{
    law_registers_mean(s);
    lemma_bits(s.regs[44]);
    let n = colours(s.regs);
    if n == 256 {
        assert(s.regs[44] as int % 256 == s.regs[44]);
    } else if n == 16 {
        assert(s.layout()->Some_0.mask() == 0x0F);
    } else {
        assert(s.layout()->Some_0.mask() == 0x03);
    }
}

/// The mixture of a colour with the one there, as the engine makes it.
proof fn lemma_mixture(s: EngineState, op: u8, new: u8, x: int, y: int)
    requires
        s.regs.len() == 64,
        bitmap(s.regs),
        op < 16,
        new < colours(s.regs),
        0 <= x < row_pixels(s.regs),
        0 <= y,
    ensures
        ({
            let l = s.layout()->Some_0;
            engine::logic_result(new, engine::pixel_at(s.vram, l, x, y), op, l.mask()) == mixed(
                op,
                new,
                colour(s.vram, s.regs, x, y),
                colours(s.regs),
            )
        }),
{
    law_registers_mean(s);
    law_pixels_lie(s, x, y);
    law_operations_mix(op, new, colour(s.vram, s.regs, x, y), s.layout()->Some_0);
}

/// PSET (opcode 5) combines the colour of R44 into the pixel at DX and DY, by the
/// operation in the low four bits of R46, and leaves every other pixel.
#[verifier::rlimit(50)]
pub proof fn law_pset_sets_one_pixel(s: EngineState, x: int, y: int)
    requires
        told(s, 5),
        has_pixel(s.vram, s.regs, x, y),
    ensures
        ({
            let r = s.regs;
            let v = s.vram;
            let t = s.executed().vram;
            &&& t.len() == v.len()
            &&& s.executed().regs == r
            &&& colour(t, r, x, y) == (if (x, y) == (word(r, 36, 512), word(r, 38, 1024)) {
                mixed(r[46] % 16, pen(r), colour(v, r, x, y), colours(r))
            } else {
                colour(v, r, x, y) as int
            })
        }),
{
    law_registers_mean(s);
    lemma_pen(s);
    let l = s.layout()->Some_0;
    let op = s.regs[46] % 16;
    let t = s.executed().vram;
    assert(t == engine::plot(s.vram, l, op, pen(s.regs), s.dx(), s.dy()));
    lemma_mixture(s, op, pen(s.regs), x, y);
    law_pixels_lie(s, x, y);
    law_pixels_lie(EngineState { vram: t, ..s }, x, y);
    lemma_plot(s, op, pen(s.regs), s.dx(), s.dy(), x, y);
}

proof fn lemma_plot(s: EngineState, op: u8, clr: u8, dx: int, dy: int, x: int, y: int)
    requires
        s.regs.len() == 64,
        bitmap(s.regs),
        op < 16,
        clr < colours(s.regs),
        has_pixel(s.vram, s.regs, x, y),
    ensures
        ({
            let l = s.layout()->Some_0;
            let p = engine::pixel_at(s.vram, l, x, y);
            let t = engine::plot(s.vram, l, op, clr, dx, dy);
            &&& t.len() == s.vram.len()
            &&& engine::pixel_at(t, l, x, y) == (if (x, y) == (dx, dy) {
                engine::logic_result(clr, p, op, l.mask())
            } else {
                p
            })
        }),
{
    law_registers_mean(s);
    let l = s.layout()->Some_0;
    if 0 <= dx < l.width && 0 <= dy && l.address(dx, dy) < s.vram.len() {
        let d = engine::pixel_at(s.vram, l, dx, dy);
        engine::lemma_byte_pixels(l, s.vram[l.address(dx, dy)], |k: int| 0u8);
        engine::lemma_logic_colour(l, clr, d, op);
        law_pixel_reads_back(
            s.vram,
            l,
            dx,
            dy,
            engine::logic_result(clr, d, op, l.mask()),
            x,
            y,
        );
    }
}

/// POINT (opcode 4) puts the colour of the pixel at SX and SY into S7, 0 beside the
/// page, and changes neither VRAM nor registers.
pub proof fn law_point_reads_one_pixel(s: EngineState)
    requires
        told(s, 4),
    ensures
        ({
            let r = s.regs;
            let x = word(r, 32, 512);
            let t = s.executed();
            &&& t.vram == s.vram
            &&& t.regs == r
            &&& t.status[7] == (if x < row_pixels(r) {
                colour(s.vram, r, x, word(r, 34, 1024))
            } else {
                0
            })
        }),
{
    law_registers_mean(s);
    if s.sx() < row_pixels(s.regs) {
        law_pixels_lie(s, s.sx(), s.sy());
    }
}

/// SRCH would stop at column `x`: it is on the way from SX on, to the left with bit 2
/// of R45 up, and its pixel of row SY has the colour of R44, or any other with bit 1
/// of R45 down.
pub open spec fn wanted(s: EngineState, x: int) -> bool {
    let r = s.regs;
    let start = word(r, 32, 512);
    &&& 0 <= x < row_pixels(r)
    &&& start < row_pixels(r)
    &&& if leftwards(r) {
        x <= start
    } else {
        x >= start
    }
    &&& (colour(s.vram, r, x, word(r, 34, 1024)) == pen(r)) == ((r[45] / 2) % 2 == 1)
}

/// SRCH comes to column `x` no later than to column `c`.
pub open spec fn nearer(s: EngineState, x: int, c: int) -> bool {
    if leftwards(s.regs) {
        c <= x
    } else {
        c >= x
    }
}

/// SRCH (opcode 6) looks along row SY from SX on for a column to stop at. Bit 4 of S2
/// tells whether there is one; S8 and S9 then hold the nearest.
#[verifier::rlimit(50)]
pub proof fn law_search_reports_nearest(s: EngineState)
    requires
        told(s, 6),
    ensures
        ({
            let t = s.executed();
            let x = t.status[8] + 256 * (t.status[9] - 0xFE);
            let found = (t.status[2] / 16) % 2 == 1;
            &&& t.vram == s.vram
            &&& t.regs == s.regs
            &&& found ==> wanted(s, x) && forall|c: int| #[trigger]
                wanted(s, c) ==> nearer(s, x, c)
            &&& !found ==> forall|c: int| !#[trigger] wanted(s, c)
            &&& !found ==> t.status[8] == s.status[8] && t.status[9] == s.status[9]
        }),
{
    let r = s.regs;
    law_registers_mean(s);
    lemma_pen(s);
    lemma_bits(r[45]);
    lemma_found_bit(s.status[2]);
    lemma_hit(s);
    lemma_search_status(s);
}

spec fn hit(s: EngineState) -> Option<int> {
    engine::search(
        s.vram,
        s.layout()->Some_0,
        word(s.regs, 32, 512),
        word(s.regs, 34, 1024),
        leftwards(s.regs),
        pen(s.regs),
        (s.regs[45] / 2) % 2 == 1,
    )
}

#[verifier::rlimit(50)]
proof fn lemma_search_status(s: EngineState)
    requires
        told(s, 6),
    ensures
        ({
            let t = s.executed();
            &&& t.vram == s.vram
            &&& t.regs == s.regs
            &&& hit(s) is Some <==> (t.status[2] / 16) % 2 == 1
            &&& hit(s) is None ==> t.status[8] == s.status[8] && t.status[9] == s.status[9]
            &&& hit(s) is Some && 0 <= hit(s)->Some_0 < 512 ==> t.status[8] + 256 * (t.status[9]
                - 0xFE) == hit(s)->Some_0
        }),
{
    let w = s.with_status(2, s.status[2] | 0x01);
    let done = w.after_srch();
    lemma_search_done(w);
    assert(hit(w) == hit(s));
    lemma_found_bit(s.status[2]);
    let d = done.status[2];
    let t = s.executed();
    assert(t.status == done.status || t.status == done.status.update(2, d & !0x01u8));
}

#[verifier::rlimit(50)]
proof fn lemma_search_done(w: EngineState)
    requires
        w.regs.len() == 64,
        w.status.len() == 10,
        bitmap(w.regs),
    ensures
        ({
            let d = w.after_srch();
            let cleared = w.status[2] & !0x10u8;
            &&& d.vram == w.vram && d.regs == w.regs && d.xfer == w.xfer
            &&& d.status.len() == 10
            &&& hit(w) is None ==> d.status == w.status.update(2, cleared)
            &&& hit(w) is Some ==> d.status[2] == cleared | 0x10
            &&& hit(w) is Some && 0 <= hit(w)->Some_0 < 512 ==> d.status[8] + 256 * (d.status[9]
                - 0xFE) == hit(w)->Some_0
        }),
{
    lemma_numbers(w);
    lemma_pen(w);
    lemma_bits(w.regs[45]);
}

proof fn lemma_hit(s: EngineState)
    requires
        told(s, 6),
    ensures
        match hit(s) {
            Some(x) => 0 <= x < 512 && wanted(s, x) && forall|c: int| #[trigger]
                wanted(s, c) ==> nearer(s, x, c),
            None => forall|c: int| !#[trigger] wanted(s, c),
        },
{
    law_registers_mean(s);
    let r = s.regs;
    let l = s.layout()->Some_0;
    let start = word(r, 32, 512);
    let y = word(r, 34, 1024);
    let left = leftwards(r);
    let eq = (r[45] / 2) % 2 == 1;
    if hit(s) is Some {
        lemma_search_starts(s.vram, l, start, y, left, pen(r), eq);
        law_search_finds_first(s.vram, l, start, y, left, pen(r), eq, start);
        law_pixels_lie(s, hit(s)->Some_0, y);
    }
    assert forall|c: int| #[trigger] wanted(s, c) implies hit(s) is Some && nearer(
        s,
        hit(s)->Some_0,
        c,
    ) by {
        law_search_finds_first(s.vram, l, start, y, left, pen(r), eq, c);
        law_pixels_lie(s, c, y);
    }
}

proof fn lemma_search_starts(
    v: Seq<u8>,
    l: PixelLayout,
    x: int,
    y: int,
    left: bool,
    clr: u8,
    eq: bool,
)
    ensures
        engine::search(v, l, x, y, left, clr, eq) is Some ==> 0 <= x < l.width,
{
}

proof fn lemma_found_bit(b: u8)
    by (bit_vector)
    ensures
        (((b | 0x01) & !0x10u8) / 16) % 2 == 0,
        (((((b | 0x01) & !0x10u8) | 0x10) & !0x01u8) / 16) % 2 == 1,
        ((((b | 0x01) & !0x10u8) | 0x10) / 16) % 2 == 1,
        ((((b | 0x01) & !0x10u8) & !0x01u8) / 16) % 2 == 0,
{
}

/// The rectangle that the registers give LMMV, in pixels: to the border with NX at 0.
pub open spec fn lmmv_sweep(r: Seq<u8>) -> Sweep {
    let dx = word(r, 36, 512);
    let nx = word(r, 40, 1024);
    Sweep {
        from: (dx, word(r, 38, 1024)),
        to: (dx, word(r, 38, 1024)),
        left: leftwards(r),
        up: upwards(r),
        cols: if nx != 0 {
            nx
        } else if leftwards(r) {
            dx + 1
        } else {
            row_pixels(r) - dx
        },
    }
}

/// LMMV (opcode 8) combines the colour of R44 into every pixel of its rectangle, by the
/// operation in the low four bits of R46, and leaves every other pixel.
#[verifier::rlimit(50)]
pub proof fn law_lmmv_paints(s: EngineState, x: int, y: int)
    requires
        told(s, 8),
        has_pixel(s.vram, s.regs, x, y),
    ensures
        ({
            let r = s.regs;
            let v = s.vram;
            let t = s.executed().vram;
            &&& t.len() == v.len()
            &&& colour(t, r, x, y) == (if lmmv_sweep(r).misses((x, y), row_count(r)) {
                colour(v, r, x, y) as int
            } else {
                mixed(r[46] % 16, pen(r), colour(v, r, x, y), colours(r))
            })
        }),
{
    law_registers_mean(s);
    lemma_pen(s);
    let m = lmmv_sweep(s.regs);
    let l = s.layout()->Some_0;
    let op = s.regs[46] % 16;
    let columns = (m.to.0, m.step().0, m.cols);
    let rows = (m.to.1, m.step().1, row_count(s.regs));
    let t = engine::paint(s.vram, l, op, pen(s.regs), columns, rows);
    assert(s.executed().vram == t);
    lemma_misses(m, (x, y), row_count(s.regs));
    lemma_painted(s, op, columns, rows, x, y);
    lemma_mixture(s, op, pen(s.regs), x, y);
    law_pixels_lie(s, x, y);
    law_pixels_lie(EngineState { vram: t, ..s }, x, y);
}

proof fn lemma_painted(
    s: EngineState,
    op: u8,
    columns: (int, int, int),
    rows: (int, int, int),
    x: int,
    y: int,
)
    requires
        s.regs.len() == 64,
        bitmap(s.regs),
        op < 16,
        has_pixel(s.vram, s.regs, x, y),
    ensures
        ({
            let l = s.layout()->Some_0;
            let t = engine::paint(s.vram, l, op, pen(s.regs), columns, rows);
            let p = engine::pixel_at(s.vram, l, x, y);
            engine::pixel_at(t, l, x, y) == (if engine::spans(columns, x) && engine::spans(
                rows,
                y,
            ) {
                engine::logic_result(pen(s.regs), p, op, l.mask())
            } else {
                p
            })
        }),
{
    law_registers_mean(s);
    let l = s.layout()->Some_0;
    let v = s.vram;
    let a = l.address(x, y);
    assert(l.row_of(a) == y && l.column_of(a) == l.column(x)) by {
        let c = l.column(x);
        if l.pitch == 128 {
            assert((y * 128 + c) / 128 == y && (y * 128 + c) % 128 == c);
        } else {
            assert((y * 256 + c) / 256 == y && (y * 256 + c) % 256 == c);
        }
    }
    let clr = pen(s.regs);
    let f = |k: int|
        if engine::spans(rows, l.row_of(a)) && engine::spans(
            columns,
            l.column_of(a) * l.ppb() + k,
        ) {
            engine::logic_result(clr, engine::byte_pixel(v[a], l.bpp, k), op, l.mask())
        } else {
            engine::byte_pixel(v[a], l.bpp, k)
        };
    engine::lemma_byte_pixels(l, v[a], f);
    assert forall|k: int| #[trigger] f(k) <= l.mask() by {
        let p = engine::byte_pixel(v[a], l.bpp, k);
        assert(p <= l.mask());
        engine::lemma_logic_colour(l, clr, p, op);
    }
    let k = l.place(x);
    assert(l.column(x) * l.ppb() + k == x) by {
        if l.bpp == 8 {
            assert(x * 1 == x);
        } else if l.bpp == 4 {
            assert((x / 2) * 2 + x % 2 == x);
        } else {
            assert((x / 4) * 4 + x % 4 == x);
        }
    }
    assert(engine::paint(v, l, op, clr, columns, rows)[a] == engine::byte_of_pixels(l.bpp, f));
    assert(engine::byte_pixel(engine::byte_of_pixels(l.bpp, f), l.bpp, k) == f(k));
}

/// The rectangle that the registers give LMMM, in pixels. With NX at 0 it goes on to
/// the border that comes first.
pub open spec fn lmmm_sweep(r: Seq<u8>) -> Sweep {
    let sx = word(r, 32, 512);
    let dx = word(r, 36, 512);
    let nx = word(r, 40, 1024);
    Sweep {
        from: (sx, word(r, 34, 1024)),
        to: (dx, word(r, 38, 1024)),
        left: leftwards(r),
        up: upwards(r),
        cols: if nx != 0 {
            nx
        } else if leftwards(r) {
            if sx < dx {
                sx + 1
            } else {
                dx + 1
            }
        } else if sx < dx {
            row_pixels(r) - dx
        } else {
            row_pixels(r) - sx
        },
    }
}

spec fn moves(v: Seq<u8>, l: PixelLayout, op: u8, m: Sweep, i: int, j: int) -> Seq<u8> {
    engine::move_row(
        engine::move_rows(v, l, op, m.from, m.to, m.step(), m.cols, j),
        l,
        op,
        (m.from.0, engine::moved(m.from.1, m.step().1, j)),
        (m.to.0, engine::moved(m.to.1, m.step().1, j)),
        m.step().0,
        i,
    )
}

#[verifier::opaque]
spec fn on_page(l: PixelLayout, p: (int, int)) -> bool {
    0 <= p.0 < l.width && 0 <= p.1
}

#[verifier::opaque]
spec fn stored(n: nat, l: PixelLayout, p: (int, int)) -> bool {
    l.address(p.0, p.1) < n
}

#[verifier::opaque]
spec fn pixel(v: Seq<u8>, l: PixelLayout, p: (int, int)) -> u8 {
    engine::pixel_at(v, l, p.0, p.1)
}

#[verifier::opaque]
spec fn combine(src: u8, dst: u8, op: u8, l: PixelLayout) -> u8 {
    engine::logic_result(src, dst, op, l.mask())
}

proof fn lemma_one_move(
    v: Seq<u8>,
    l: PixelLayout,
    op: u8,
    src: (int, int),
    dst: (int, int),
    p: (int, int),
)
    requires
        l.wf(),
        on_page(l, p),
    ensures
        engine::move_pixel(v, l, op, src, dst).len() == v.len(),
        pixel(engine::move_pixel(v, l, op, src, dst), l, p) == (if p == dst && on_page(l, src)
            && stored(v.len(), l, p) {
            combine(pixel(v, l, src), pixel(v, l, p), op, l)
        } else {
            pixel(v, l, p)
        }),
{
    reveal(on_page);
    reveal(stored);
    reveal(pixel);
    reveal(combine);
    lemma_move_pixel(v, l, op, src, dst, p.0, p.1);
}

spec fn move_settled(
    v: Seq<u8>,
    w: Seq<u8>,
    l: PixelLayout,
    op: u8,
    m: Sweep,
    i: int,
    j: int,
    p: (int, int),
) -> bool {
    let k = m.index(p);
    let q = m.source(k.0, k.1);
    pixel(w, l, p) == if m.before(k, i, j) && on_page(l, q) && stored(v.len(), l, p) {
        combine(
            if m.before(m.index(q), k.0, k.1) {
                pixel(w, l, q)
            } else {
                pixel(v, l, q)
            },
            pixel(v, l, p),
            op,
            l,
        )
    } else {
        pixel(v, l, p)
    }
}

proof fn lemma_moves(v: Seq<u8>, l: PixelLayout, op: u8, m: Sweep, i: int, j: int, p: (int, int))
    requires
        l.wf(),
        0 <= i <= m.cols,
        0 <= j,
        on_page(l, p),
    ensures
        moves(v, l, op, m, i, j).len() == v.len(),
        move_settled(v, moves(v, l, op, m, i, j), l, op, m, i, j, p),
    decreases j, i,
{
    let w = moves(v, l, op, m, i, j);
    if i == 0 {
        if j > 0 {
            lemma_moves(v, l, op, m, m.cols, j - 1, p);
            assert(w == moves(v, l, op, m, m.cols, j - 1));
        }
    } else {
        let o = moves(v, l, op, m, i - 1, j);
        let src = m.source(i - 1, j);
        let dst = m.target(i - 1, j);
        let k = m.index(p);
        let q = m.source(k.0, k.1);
        lemma_moves(v, l, op, m, i - 1, j, p);
        assert(w == engine::move_pixel(o, l, op, src, dst));
        lemma_one_move(o, l, op, src, dst, p);
        if on_page(l, src) {
            lemma_moves(v, l, op, m, i - 1, j, src);
            lemma_one_move(o, l, op, src, dst, src);
        }
        if on_page(l, q) {
            lemma_one_move(o, l, op, src, dst, q);
        }
    }
}

/// What pixel `i` of row `j` of a rectangle became where it went: the pixel of the
/// source, as it was, or as the command itself left it where it had been there before,
/// combined with the one that was there. One from off the page is skipped.
pub open spec fn pixel_arrives(v: Seq<u8>, t: Seq<u8>, r: Seq<u8>, m: Sweep, i: int, j: int)
    -> bool {
    let p = m.source(i, j);
    let d = m.target(i, j);
    has_pixel(v, r, d.0, d.1) ==> colour(t, r, d.0, d.1) == if !(0 <= p.0 < row_pixels(r) && 0
        <= p.1) {
        colour(v, r, d.0, d.1) as int
    } else {
        let new = if m.reached(p, i, j) {
            colour(t, r, p.0, p.1)
        } else {
            colour(v, r, p.0, p.1)
        };
        mixed(r[46] % 16, new, colour(v, r, d.0, d.1), colours(r))
    }
}

/// LMMM (opcode 9) takes every pixel of the rectangle that its registers give to its
/// place and combines it there, by the operation in the low four bits of R46.
#[verifier::rlimit(50)]
pub proof fn law_lmmm_moves_its_rectangle(s: EngineState, i: int, j: int)
    requires
        told(s, 9),
        0 <= i < lmmm_sweep(s.regs).cols,
        0 <= j < row_count(s.regs),
    ensures
        s.executed().vram.len() == s.vram.len(),
        pixel_arrives(s.vram, s.executed().vram, s.regs, lmmm_sweep(s.regs), i, j),
{
    law_registers_mean(s);
    let r = s.regs;
    let v = s.vram;
    let m = lmmm_sweep(r);
    let l = s.layout()->Some_0;
    let op = r[46] % 16;
    let t = s.executed().vram;
    assert(t == moves(v, l, op, m, 0, row_count(r)));
    lemma_copy_lens(v, l, op, m.from, m.to, m.step(), m.cols, row_count(r));
    let d = m.target(i, j);
    let p = m.source(i, j);
    if has_pixel(v, r, d.0, d.1) {
        reveal(on_page);
        reveal(stored);
        reveal(pixel);
        reveal(combine);
        lemma_moves(v, l, op, m, 0, row_count(r), d);
        assert(m.index(d) == (i, j));
        m.lemma_reached(p, i, j);
        let after = EngineState { vram: t, ..s };
        law_pixels_lie(s, d.0, d.1);
        law_pixels_lie(after, d.0, d.1);
        if on_page(l, p) {
            law_pixels_lie(s, p.0, p.1);
            law_pixels_lie(after, p.0, p.1);
            lemma_mixture(s, op, colour(t, r, p.0, p.1), d.0, d.1);
            lemma_mixture(s, op, colour(v, r, p.0, p.1), d.0, d.1);
        }
    }
}

/// LMMM leaves every pixel outside the rectangle that it fills.
#[verifier::rlimit(50)]
pub proof fn law_lmmm_leaves_the_rest(s: EngineState, x: int, y: int)
    requires
        told(s, 9),
        0 <= x < row_pixels(s.regs),
        0 <= y,
        lmmm_sweep(s.regs).misses((x, y), row_count(s.regs)),
    ensures
        colour(s.executed().vram, s.regs, x, y) == colour(s.vram, s.regs, x, y),
{
    law_registers_mean(s);
    let r = s.regs;
    let v = s.vram;
    let m = lmmm_sweep(r);
    let l = s.layout()->Some_0;
    let op = r[46] % 16;
    let t = s.executed().vram;
    law_pixels_lie(s, x, y);
    law_pixels_lie(EngineState { vram: t, ..s }, x, y);
    if m.cols <= 0 {
        lemma_no_pixels(v, l, op, m, row_count(r));
    } else {
        assert(t == moves(v, l, op, m, 0, row_count(r)));
        reveal(on_page);
        lemma_moves(v, l, op, m, 0, row_count(r), (x, y));
        lemma_misses(m, (x, y), row_count(r));
        reveal(pixel);
    }
}

proof fn lemma_no_pixels(v: Seq<u8>, l: PixelLayout, op: u8, m: Sweep, rows: int)
    requires
        m.cols <= 0,
    ensures
        engine::move_rows(v, l, op, m.from, m.to, m.step(), m.cols, rows) == v,
    decreases rows,
{
    if rows > 0 {
        lemma_no_pixels(v, l, op, m, rows - 1);
    }
}

/// LMMM between rectangles that do not overlap: the pixel at DX + i and DY + j is
/// combined with what the pixel at SX + i and SY + j was before the command, with i
/// or j taken away where R45 turns the direction round.
pub proof fn law_lmmm_copies_pixels(s: EngineState, i: int, j: int)
    requires
        told(s, 9),
        ({
            let r = s.regs;
            let nx = word(r, 40, 1024);
            let ny = word(r, 42, 1024);
            let across = word(r, 32, 512) - word(r, 36, 512);
            let down = word(r, 34, 1024) - word(r, 38, 1024);
            &&& nx != 0
            &&& ny != 0
            &&& across >= nx || across <= -nx || down >= ny || down <= -ny
            &&& 0 <= i < nx
            &&& 0 <= j < ny
        }),
    ensures
        ({
            let r = s.regs;
            let v = s.vram;
            let from = (
                go(leftwards(r), word(r, 32, 512), i),
                go(upwards(r), word(r, 34, 1024), j),
            );
            let to = (go(leftwards(r), word(r, 36, 512), i), go(upwards(r), word(r, 38, 1024), j));
            has_pixel(v, r, from.0, from.1) && has_pixel(v, r, to.0, to.1) ==> colour(
                s.executed().vram,
                r,
                to.0,
                to.1,
            ) == mixed(
                r[46] % 16,
                colour(v, r, from.0, from.1),
                colour(v, r, to.0, to.1),
                colours(r),
            )
        }),
{
    law_lmmm_moves_its_rectangle(s, i, j);
    let m = lmmm_sweep(s.regs);
    m.lemma_reached(m.source(i, j), i, j);
}

/// Steps of a line along its major axis: NX, and at least one.
pub open spec fn line_steps(r: Seq<u8>) -> int {
    let nx = word(r, 40, 1024);
    if nx == 0 {
        1
    } else {
        nx
    }
}

/// Steps along the minor axis that go with `k` along the major one: `k * NY / NX`
/// rounded down, and never more than `k`.
pub open spec fn aside(r: Seq<u8>, k: int) -> int {
    let ny = word(r, 42, 1024);
    if ny >= line_steps(r) {
        k
    } else {
        (k * ny) / line_steps(r)
    }
}

/// Pixel `k` of the line that the registers give: from DX and DY on, along x, or along
/// y with bit 0 of R45 up.
pub open spec fn line_pixel(r: Seq<u8>, k: int) -> (int, int) {
    let tall = r[45] % 2 == 1;
    (
        go(
            leftwards(r),
            word(r, 36, 512),
            if tall {
                aside(r, k)
            } else {
                k
            },
        ),
        go(
            upwards(r),
            word(r, 38, 1024),
            if tall {
                k
            } else {
                aside(r, k)
            },
        ),
    )
}

/// LINE (opcode 7) combines the colour of R44 into the pixels of the line, both ends
/// included, by the operation in the low four bits of R46, and leaves every other.
#[verifier::rlimit(50)]
pub proof fn law_line_draws(s: EngineState, x: int, y: int)
    requires
        told(s, 7),
        has_pixel(s.vram, s.regs, x, y),
    ensures
        ({
            let r = s.regs;
            let v = s.vram;
            let t = s.executed().vram;
            let on = exists|k: int|
                0 <= k <= line_steps(r) && #[trigger] line_pixel(r, k) == (x, y);
            &&& t.len() == v.len()
            &&& colour(t, r, x, y) == (if on {
                mixed(r[46] % 16, pen(r), colour(v, r, x, y), colours(r))
            } else {
                colour(v, r, x, y) as int
            })
        }),
{
    law_registers_mean(s);
    lemma_pen(s);
    let r = s.regs;
    let l = s.layout()->Some_0;
    let op = r[46] % 16;
    let w = s.with_status(2, s.status[2] | 0x01);
    let t = s.executed().vram;
    assert(w.layout() == s.layout());
    assert(t == w.after_line(op).vram);
    law_line_sets_its_pixels(w, l, op, x, y);
    lemma_mixture(s, op, pen(r), x, y);
    law_pixels_lie(s, x, y);
    law_pixels_lie(EngineState { vram: t, ..s }, x, y);
    let p = w.line(l);
    assert(p == s.line(l));
    assert forall|k: int| 0 <= k <= line_steps(r) implies (p.column(k), p.row(k)) == #[trigger]
        line_pixel(r, k) by {
        lemma_line_pixel(s, k);
    }
    if on_line(p, x, y) {
        let k = choose|k: int| 0 <= k <= p.steps && #[trigger] p.column(k) == x && p.row(k) == y;
        assert(line_pixel(r, k) == (x, y));
    }
}

proof fn lemma_line_pixel(s: EngineState, k: int)
    requires
        s.regs.len() == 64,
        bitmap(s.regs),
        0 <= k <= line_steps(s.regs) + 1,
    ensures
        ({
            let p = s.line(s.layout()->Some_0);
            &&& p.steps == line_steps(s.regs)
            &&& (p.column(k), p.row(k)) == line_pixel(s.regs, k)
        }),
{
    law_registers_mean(s);
    lemma_bits(s.regs[45]);
    let p = s.line(s.layout()->Some_0);
    law_line_shares_its_steps(p, k);
}

/// Columns of a transfer and of the time that a command takes: NX, and at least one.
pub open spec fn across(r: Seq<u8>) -> int {
    line_steps(r)
}

/// Bytes that a row of so many pixels takes up.
pub open spec fn bytes_across(r: Seq<u8>) -> int {
    (across(r) + byte_pixels(r) - 1) / byte_pixels(r)
}

/// Registers as a command leaves them. The commands on rectangles leave DY, and SY
/// where they have a source, at the row after the last, and NY at 0; LINE leaves DY
/// at the row after its end. The other commands change no register.
#[verifier::rlimit(50)]
pub proof fn law_commands_write_back(s: EngineState)
    requires
        s.regs.len() == 64,
        s.status.len() == 10,
        bitmap(s.regs),
    ensures
        ({
            let r = s.regs;
            let t = s.executed().regs;
            let c = r[46] / 16;
            let rows = if c == 0xE {
                row_count_or_one(r)
            } else {
                row_count(r)
            };
            &&& t.len() == 64
            &&& c == 8 || c == 9 || c == 0xC || c == 0xD || c == 0xE ==> {
                &&& t[38] + 256 * t[39] == go(upwards(r), word(r, 38, 1024), rows) % 1024
                &&& t[42] == 0 && t[43] == 0
            }
            &&& c == 9 || c == 0xD || c == 0xE ==> t[34] + 256 * t[35] == go(
                upwards(r),
                word(r, 34, 1024),
                rows,
            ) % 1024
            &&& c == 8 || c == 0xC ==> t[34] == r[34] && t[35] == r[35]
            &&& c == 7 ==> {
                &&& t[38] + 256 * t[39] == line_pixel(r, line_steps(r) + 1).1 % 1024
                &&& t[34] == r[34] && t[35] == r[35] && t[42] == r[42] && t[43] == r[43]
            }
            &&& c <= 6 ==> t == r
            &&& forall|i: int|
                0 <= i < 64 && i != 34 && i != 35 && i != 38 && i != 39 && i != 42 && i != 43
                    ==> t[i] == r[i]
        }),
{
    law_other_registers_stay(s, 0);
    let w = s.with_status(2, s.status[2] | 0x01);
    lemma_rectangle_rows(w, s.regs[46] % 16);
    lemma_line_row(w, s.regs[46] % 16);
    let done = w.commanded((s.regs[46] / 16) as int, s.regs[46] % 16);
    assert(s.executed().regs == done.regs);
}

/// A register pair that holds a number again.
proof fn lemma_pair(s: EngineState, lo: int, value: int)
    requires
        s.regs.len() == 64,
        0 <= lo < 63,
    ensures
        ({
            let t = s.with_pair(lo, value).regs;
            &&& t.len() == 64
            &&& t[lo] + 256 * t[lo + 1] == value % 1024
            &&& forall|i: int| 0 <= i < 64 && i != lo && i != lo + 1 ==> t[i] == s.regs[i]
        }),
{
}

/// Row `n` rows on, as registers hold it.
spec fn row_after(r: Seq<u8>, lo: int, n: int) -> int {
    go(upwards(r), word(r, lo, 1024), n) % 1024
}

proof fn lemma_three_pairs(s: EngineState, v: Seq<u8>, sy: int, dy: int)
    requires
        s.regs.len() == 64,
    ensures
        ({
            let t = s.with_vram(v).with_pair(34, sy).with_pair(38, dy).with_pair(42, 0).regs;
            &&& t[34] + 256 * t[35] == sy % 1024
            &&& t[38] + 256 * t[39] == dy % 1024
            &&& t[42] == 0 && t[43] == 0
        }),
        ({
            let t = s.with_vram(v).with_pair(38, dy).with_pair(42, 0).regs;
            &&& t[34] == s.regs[34] && t[35] == s.regs[35]
            &&& t[38] + 256 * t[39] == dy % 1024
            &&& t[42] == 0 && t[43] == 0
        }),
{
    let a = s.with_vram(v);
    lemma_pair(a, 34, sy);
    lemma_pair(a.with_pair(34, sy), 38, dy);
    lemma_pair(a.with_pair(34, sy).with_pair(38, dy), 42, 0);
    lemma_pair(a, 38, dy);
    lemma_pair(a.with_pair(38, dy), 42, 0);
}

#[verifier::rlimit(50)]
proof fn lemma_rectangle_rows(s: EngineState, op: u8)
    requires
        s.regs.len() == 64,
        bitmap(s.regs),
    ensures
        ({
            let r = s.regs;
            let n = row_count(r);
            let m = row_count_or_one(r);
            let c = s.after_hmmv().regs;
            let d = s.after_hmmm().regs;
            let e = s.after_ymmm().regs;
            let p = s.after_lmmv(op).regs;
            let q = s.after_lmmm(op).regs;
            &&& c[38] + 256 * c[39] == row_after(r, 38, n) && c[42] == 0 && c[43] == 0
            &&& d[38] + 256 * d[39] == row_after(r, 38, n) && d[42] == 0 && d[43] == 0
            &&& e[38] + 256 * e[39] == row_after(r, 38, m) && e[42] == 0 && e[43] == 0
            &&& p[38] + 256 * p[39] == row_after(r, 38, n) && p[42] == 0 && p[43] == 0
            &&& q[38] + 256 * q[39] == row_after(r, 38, n) && q[42] == 0 && q[43] == 0
            &&& d[34] + 256 * d[35] == row_after(r, 34, n)
            &&& e[34] + 256 * e[35] == row_after(r, 34, m)
            &&& q[34] + 256 * q[35] == row_after(r, 34, n)
            &&& c[34] == r[34] && c[35] == r[35]
            &&& p[34] == r[34] && p[35] == r[35]
        }),
{
    lemma_numbers(s);
    let n = row_count(s.regs);
    let m = row_count_or_one(s.regs);
    let sy = engine::moved(s.sy(), s.diy(), n);
    let dy = engine::moved(s.dy(), s.diy(), n);
    let sy1 = engine::moved(s.sy(), s.diy(), m);
    let dy1 = engine::moved(s.dy(), s.diy(), m);
    lemma_three_pairs(s, s.after_hmmv().vram, sy, dy);
    lemma_three_pairs(s, s.after_hmmm().vram, sy, dy);
    lemma_three_pairs(s, s.after_ymmm().vram, sy1, dy1);
    lemma_three_pairs(s, s.after_lmmv(op).vram, sy, dy);
    lemma_three_pairs(s, s.after_lmmm(op).vram, sy, dy);
}

proof fn lemma_line_row(s: EngineState, op: u8)
    requires
        s.regs.len() == 64,
        bitmap(s.regs),
    ensures
        ({
            let r = s.regs;
            let t = s.after_line(op).regs;
            &&& t[38] + 256 * t[39] == line_pixel(r, line_steps(r) + 1).1 % 1024
            &&& t[34] == r[34] && t[35] == r[35] && t[42] == r[42] && t[43] == r[43]
        }),
{
    lemma_line_pixel(s, line_steps(s.regs) + 1);
    lemma_numbers(s);
    let p = s.line(s.layout()->Some_0);
    lemma_pair(s.with_vram(s.after_line(op).vram), 38, p.row(p.steps + 1));
}

/// How long a command keeps the engine busy, in T-states: so many for each byte, pixel
/// or step. Bit 0 of S2 is up as long as that is.
#[verifier::rlimit(50)]
pub proof fn law_commands_take_time(s: EngineState)
    requires
        s.regs.len() == 64,
        s.status.len() == 10,
        bitmap(s.regs),
        s.xfer == CpuXfer::Idle,
    ensures
        ({
            let r = s.regs;
            let t = s.executed();
            let c = r[46] / 16;
            let n = across(r);
            let rows = row_count_or_one(r);
            let far = if n < rows {
                rows
            } else {
                n
            };
            &&& c == 0xC ==> t.busy == 10 * (bytes_across(r) * rows)
            &&& c == 0xD ==> t.busy == 20 * (bytes_across(r) * rows)
            &&& c == 0xE ==> t.busy == 17 * (row_bytes(r) * rows)
            &&& c == 8 ==> t.busy == 21 * (n * rows)
            &&& c == 9 ==> t.busy == 29 * (n * rows)
            &&& c == 7 ==> t.busy == 23 * far
            &&& c == 6 ==> t.busy == 5 * n
            &&& c <= 5 ==> t.busy == 0
            &&& c != 0xA && c != 0xB && c != 0xF ==> t.xfer == CpuXfer::Idle && (t.status[2] % 2
                == 1 <==> t.busy > 0)
        }),
{
    law_registers_mean(s);
    let t = s.executed();
    law_ce_means_busy(s);
    lemma_bits(t.status[2]);
    let w = s.with_status(2, s.status[2] | 0x01);
    assert(w.layout() == s.layout());
}

/// Outside the bitmap modes no command changes VRAM or a register, or takes time.
pub proof fn law_commands_need_a_bitmap(s: EngineState)
    requires
        s.regs.len() == 64,
        s.status.len() == 10,
        !bitmap(s.regs),
        s.xfer == CpuXfer::Idle,
    ensures
        s.executed().vram == s.vram,
        s.executed().regs == s.regs,
        s.executed().xfer == CpuXfer::Idle ==> s.executed().busy == 0,
{
    law_registers_mean(s);
    let w = s.with_status(2, s.status[2] | 0x01);
    assert(w.layout() == s.layout());
}

/// A byte that comes through LMMC is a pixel: it is combined into the place that the
/// counters give, from DX and DY on, and no other pixel changes. The counters go on
/// to the next column, and after NX of them to the next row.
#[verifier::rlimit(50)]
pub proof fn law_lmmc_sets_one_pixel(s: EngineState, value: u8, op: u8, x: int, y: int)
    requires
        s.regs.len() == 64,
        s.status.len() == 10,
        bitmap(s.regs),
        s.xfer == (CpuXfer::Lmmc { logic_op: op }),
        op < 16,
        0 <= s.x < across(s.regs),
        0 <= s.y < row_count_or_one(s.regs),
        has_pixel(s.vram, s.regs, x, y),
    ensures
        ({
            let r = s.regs;
            let v = s.vram;
            let t = s.pumped(value);
            let clr = (value as int % colours(r)) as u8;
            let here = (
                go(leftwards(r), word(r, 36, 512), s.x),
                go(upwards(r), word(r, 38, 1024), s.y),
            );
            let last = s.x + 1 == across(r);
            &&& colour(t.vram, r, x, y) == (if (x, y) == here {
                mixed(op, clr, colour(v, r, x, y), colours(r))
            } else {
                colour(v, r, x, y) as int
            })
            &&& !last ==> t.x == s.x + 1 && t.y == s.y && t.xfer == s.xfer
            &&& last && s.y + 1 < row_count_or_one(r) ==> t.x == 0 && t.y == s.y + 1 && t.xfer
                == s.xfer
            &&& last && s.y + 1 == row_count_or_one(r) ==> t.xfer == CpuXfer::Idle
        }),
{
    law_registers_mean(s);
    let l = s.layout()->Some_0;
    let pen_state = EngineState { regs: s.regs.update(44, value), ..s };
    lemma_pen(pen_state);
    let clr = (value as int % colours(s.regs)) as u8;
    assert(value & l.mask() == clr) by {
        law_registers_mean(pen_state);
        assert(pen_state.regs[44] == value);
        assert(pen(pen_state.regs) == clr);
    }
    let dx = go(leftwards(s.regs), word(s.regs, 36, 512), s.x);
    let dy = go(upwards(s.regs), word(s.regs, 38, 1024), s.y);
    let t = s.pumped(value).vram;
    assert(t == engine::plot(s.vram, l, op, clr, dx, dy));
    lemma_plot(s, op, clr, dx, dy, x, y);
    lemma_mixture(s, op, clr, x, y);
    law_pixels_lie(s, x, y);
    law_pixels_lie(EngineState { vram: t, ..s }, x, y);
}

/// A byte that comes through HMMC goes to the column and row that the counters give,
/// from DX / ppb and DY on, and no other byte changes. The counters go on to the next
/// column, and after as many as NX pixels take to the next row.
#[verifier::rlimit(50)]
pub proof fn law_hmmc_sets_one_byte(s: EngineState, value: u8, p: (int, int))
    requires
        s.regs.len() == 64,
        s.status.len() == 10,
        bitmap(s.regs),
        s.xfer == CpuXfer::Hmmc,
        0 <= s.x < bytes_across(s.regs),
        0 <= s.y < row_count_or_one(s.regs),
        has_byte(s.vram, s.regs, p),
    ensures
        ({
            let r = s.regs;
            let t = s.pumped(value);
            let here = (
                go(leftwards(r), word(r, 36, 512) / byte_pixels(r), s.x),
                go(upwards(r), word(r, 38, 1024), s.y),
            );
            let last = s.x + 1 == bytes_across(r);
            &&& byte_at(t.vram, r, p) == (if p == here {
                value
            } else {
                byte_at(s.vram, r, p)
            })
            &&& !last ==> t.x == s.x + 1 && t.y == s.y && t.xfer == s.xfer
            &&& last && s.y + 1 < row_count_or_one(r) ==> t.x == 0 && t.y == s.y + 1 && t.xfer
                == s.xfer
            &&& last && s.y + 1 == row_count_or_one(r) ==> t.xfer == CpuXfer::Idle
        }),
{
    law_registers_mean(s);
    let r = s.regs;
    let l = s.layout()->Some_0;
    let c = go(leftwards(r), word(r, 36, 512) / byte_pixels(r), s.x);
    let y = go(upwards(r), word(r, 38, 1024), s.y);
    let a = y * row_bytes(r) + c;
    assert(l.row_start(y) == y * row_bytes(r));
    assert(l.column(s.dx()) == word(r, 36, 512) / byte_pixels(r));
    assert(l.columns_for(across(r)) == bytes_across(r));
    let t = s.pumped(value).vram;
    if has_byte(s.vram, r, (c, y)) {
        assert(t == s.vram.update(a, value));
        if p != (c, y) {
            if row_bytes(r) == 128 {
                assert(p.1 * 128 + p.0 != y * 128 + c);
            } else {
                assert(p.1 * 256 + p.0 != y * 256 + c);
            }
        }
    } else {
        assert(t == s.vram);
    }
}

/// A transfer that is done leaves DY, or SY for LMCM, at the row after the last, and NY
/// at 0, with bits 7 and 0 of S2 down.
#[verifier::rlimit(50)]
pub proof fn law_transfers_write_back(s: EngineState, value: u8)
    requires
        s.regs.len() == 64,
        s.status.len() == 10,
        bitmap(s.regs),
        s.xfer != CpuXfer::Idle,
    ensures
        ({
            let r = s.regs;
            let t = s.pumped(value);
            &&& s.xfer !is Lmcm && t.xfer == CpuXfer::Idle ==> {
                &&& t.regs[38] + 256 * t.regs[39] == go(
                    upwards(r),
                    word(r, 38, 1024),
                    row_count_or_one(r),
                ) % 1024
                &&& t.regs[42] == 0 && t.regs[43] == 0
                &&& t.status[2] / 128 == 0 && t.status[2] % 2 == 0
            }
        }),
        ({
            let r = s.regs;
            let t = s.drained();
            &&& s.xfer is Lmcm && t.xfer == CpuXfer::Idle ==> {
                &&& t.regs[34] + 256 * t.regs[35] == go(
                    upwards(r),
                    word(r, 34, 1024),
                    row_count_or_one(r),
                ) % 1024
                &&& t.regs[42] == 0 && t.regs[43] == 0
                &&& t.status[2] / 128 == 0 && t.status[2] % 2 == 0
            }
        }),
{
    lemma_numbers(s);
    lemma_ready_bits(s.status[2]);
    let rows = row_count_or_one(s.regs);
    let sy = engine::moved(s.sy(), s.diy(), rows);
    let dy = engine::moved(s.dy(), s.diy(), rows);
    lemma_pair(s, 38, dy);
    lemma_pair(s.with_pair(38, dy), 42, 0);
    lemma_pair(s, 34, sy);
    lemma_pair(s.with_pair(34, sy), 42, 0);
    let t = s.pumped(value);
    if s.xfer !is Lmcm && t.xfer == CpuXfer::Idle {
        assert(t.regs == s.with_pair(38, dy).with_pair(42, 0).regs);
        assert(t.status[2] == s.status[2] & !0x81u8);
    }
    let u = s.drained();
    if s.xfer is Lmcm && u.xfer == CpuXfer::Idle {
        assert(u.regs == s.with_pair(34, sy).with_pair(42, 0).regs);
        assert(u.status[2] == s.status[2] & !0x81u8);
    }
}

proof fn lemma_ready_bits(b: u8)
    by (bit_vector)
    ensures
        (b & !0x81u8) / 128 == 0,
        (b & !0x81u8) % 2 == 0,
        (b | 0x81) / 128 == 1,
        (b | 0x81) % 2 == 1,
{
}

/// A read of S7 in LMCM moves on: S7 then holds the pixel that the counters give, from
/// SX and SY on, and 0 beside the page.
#[verifier::rlimit(50)]
pub proof fn law_lmcm_reads_next_pixel(s: EngineState)
    requires
        s.regs.len() == 64,
        s.status.len() == 10,
        bitmap(s.regs),
        s.xfer == CpuXfer::Lmcm,
        0 <= s.x < across(s.regs),
        0 <= s.y < row_count_or_one(s.regs),
    ensures
        ({
            let r = s.regs;
            let t = s.drained();
            let last = s.x + 1 == across(r);
            let x = go(leftwards(r), word(r, 32, 512), t.x);
            let y = go(upwards(r), word(r, 34, 1024), t.y);
            &&& t.vram == s.vram
            &&& !last ==> t.x == s.x + 1 && t.y == s.y && t.xfer == s.xfer
            &&& last && s.y + 1 < row_count_or_one(r) ==> t.x == 0 && t.y == s.y + 1 && t.xfer
                == s.xfer
            &&& last && s.y + 1 == row_count_or_one(r) ==> t.xfer == CpuXfer::Idle
            &&& t.xfer == s.xfer ==> t.status[7] == (if 0 <= x < row_pixels(r) && 0 <= y {
                colour(s.vram, r, x, y)
            } else {
                0
            })
        }),
{
    law_registers_mean(s);
    let t = s.drained();
    let r = s.regs;
    let x = go(leftwards(r), word(r, 32, 512), t.x);
    let y = go(upwards(r), word(r, 34, 1024), t.y);
    if 0 <= x < row_pixels(r) && 0 <= y {
        law_pixels_lie(s, x, y);
    }
    let next = s.advanced(engine::at_least(s.nx(), 1));
    assert(next.layout() == s.layout());
}

/// LMMC, HMMC and LMCM (opcodes 0xB, 0xF, 0xA) start with their counters at 0 and bits 7
/// and 0 of S2 up. The first two take R44 as their first byte; the last shows the
/// pixel at SX and SY in S7.
#[verifier::rlimit(50)]
pub proof fn law_transfers_start(s: EngineState)
    requires
        s.regs.len() == 64,
        s.status.len() == 10,
        bitmap(s.regs),
    ensures
        ({
            let r = s.regs;
            let c = r[46] / 16;
            let b = s.executed();
            let first = EngineState { x: 0, y: 0, ..s };
            &&& c == 0xA ==> {
                &&& b.xfer == CpuXfer::Lmcm
                &&& b.x == 0 && b.y == 0
                &&& b.vram == s.vram && b.regs == r
                &&& b.status[2] / 128 == 1 && b.status[2] % 2 == 1
                &&& b.status[7] == (if word(r, 32, 512) < row_pixels(r) {
                    colour(s.vram, r, word(r, 32, 512), word(r, 34, 1024))
                } else {
                    0
                })
            }
            &&& c == 0xB ==> {
                let t = EngineState {
                    xfer: CpuXfer::Lmmc { logic_op: r[46] % 16 },
                    ..first
                }.pumped(r[44]);
                &&& b.vram == t.vram && b.regs == t.regs && b.xfer == t.xfer
                &&& b.x == t.x && b.y == t.y
                &&& b.xfer != CpuXfer::Idle ==> b.status[2] / 128 == 1 && b.status[2] % 2 == 1
            }
            &&& c == 0xF ==> {
                let t = EngineState { xfer: CpuXfer::Hmmc, ..first }.pumped(r[44]);
                &&& b.vram == t.vram && b.regs == t.regs && b.xfer == t.xfer
                &&& b.x == t.x && b.y == t.y
                &&& b.xfer != CpuXfer::Idle ==> b.status[2] / 128 == 1 && b.status[2] % 2 == 1
            }
        }),
{
    law_registers_mean(s);
    lemma_ready_bits(s.status[2] | 0x01);
    let w = s.with_status(2, s.status[2] | 0x01);
    assert(w.layout() == s.layout());
    if s.sx() < row_pixels(s.regs) {
        law_pixels_lie(s, s.sx(), s.sy());
    }
}

/// What the commands that do not stream leave in the status registers. Only bit 0 of S2 changes,
/// but for SRCH, which reports in bit 4 as well and in S8 and S9, POINT, which answers in S7,
/// and STOP, which drops bit 7.
#[verifier::rlimit(50)]
pub proof fn law_commands_leave_status(s: EngineState, i: int)
    requires
        s.regs.len() == 64,
        s.status.len() == 10,
        0 <= i < 10,
        ({
            let c = s.regs[46] / 16;
            c != 0xA && c != 0xB && c != 0xF
        }),
    ensures
        ({
            let c = s.regs[46] / 16;
            let t = s.executed().status;
            let b = s.status[2];
            &&& t.len() == 10
            &&& i != 2 && !(c == 4 && i == 7) && !(c == 6 && i >= 8) ==> t[i] == s.status[i]
            &&& c != 0 && c != 6 ==> t[2] / 2 == b / 2
            &&& c == 0 ==> t[2] / 128 == 0 && (t[2] / 2) % 64 == (b / 2) % 64
            &&& c == 6 ==> t[2] / 32 == b / 32 && (t[2] / 2) % 8 == (b / 2) % 8
        }),
{
    let b = s.status[2];
    let a = b | 0x01;
    let w = s.with_status(2, a);
    let done = w.commanded((s.regs[46] / 16) as int, s.regs[46] % 16);
    lemma_done_status(w, (s.regs[46] / 16) as int, s.regs[46] % 16);
    let d = done.status[2];
    let t = s.executed();
    assert(t.status == done.status || t.status == done.status.update(2, d & !0x01u8));
    lemma_final_bits(s.regs[46] / 16, b, a, d, t.status[2]);
}

proof fn lemma_final_bits(c: u8, b: u8, a: u8, d: u8, x: u8)
    by (bit_vector)
    requires
        a == b | 0x01,
        x == d || x == d & !0x01u8,
        c != 0 && c != 6 ==> d == a,
        c == 0 ==> d == a & !0x80u8,
        c == 6 ==> d == a || d == a & !0x10u8 || d == (a & !0x10u8) | 0x10,
    ensures
        c != 0 && c != 6 ==> x / 2 == b / 2,
        c == 0 ==> x / 128 == 0 && (x / 2) % 64 == (b / 2) % 64,
        c == 6 ==> x / 32 == b / 32 && (x / 2) % 8 == (b / 2) % 8,
{
}

proof fn lemma_done_status(w: EngineState, c: int, op: u8)
    requires
        w.status.len() == 10,
        0 <= c < 16,
        c != 0xA && c != 0xB && c != 0xF,
    ensures
        ({
            let d = w.commanded(c, op).status;
            let a = w.status[2];
            &&& d.len() == 10
            &&& c != 0 && c != 4 && c != 6 ==> d == w.status
            &&& c == 4 ==> d == w.status.update(7, d[7])
            &&& c == 0 ==> d == w.status.update(2, a & !0x80u8)
            &&& c == 6 ==> d == w.status.update(2, d[2]).update(8, d[8]).update(9, d[9])
            &&& c == 6 ==> d[2] == a || d[2] == a & !0x10u8 || d[2] == (a & !0x10u8) | 0x10
        }),
{
    let d = w.commanded(c, op).status;
    if c == 4 {
        assert(d =~= w.status.update(7, d[7]));
    } else if c == 6 {
        assert(d =~= w.status.update(2, d[2]).update(8, d[8]).update(9, d[9]));
    }
}

/// STOP, POINT, SRCH and the opcodes without a command leave VRAM alone, and the commands without
/// a stream leave a running transfer alone, STOP apart.
pub proof fn law_commands_without_drawing(s: EngineState)
    requires
        s.regs.len() == 64,
        s.status.len() == 10,
    ensures
        ({
            let c = s.regs[46] / 16;
            let t = s.executed();
            &&& c <= 4 || c == 6 || c == 0xA ==> t.vram == s.vram
            &&& c == 0 ==> t.xfer == CpuXfer::Idle && t.x == 0 && t.y == 0
            &&& c != 0 && c != 0xA && c != 0xB && c != 0xF ==> t.xfer == s.xfer && t.x == s.x
                && t.y == s.y
        }),
{
}

} // verus!
