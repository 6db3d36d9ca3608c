//! What the drawing commands do, by the bytes of the registers and of VRAM.
#[allow(unused_imports)]
use crate::vdp::engine;
#[allow(unused_imports)]
use crate::vdp::engine::{EngineState, PixelLayout};
#[allow(unused_imports)]
use crate::vdp::engine_laws::{lemma_copy_lens, lemma_runs_are_rows};
use vstd::prelude::*;

verus! {

/// Two registers as one number, cut to a limit.
pub open spec fn word(r: Seq<u8>, lo: int, limit: int) -> int {
    (r[lo] + 256 * r[lo + 1]) % limit
}

/// The engine can draw: bits 3 to 1 of R0 name SCREEN 5, 6, 7 or 8, and bits 4
/// and 3 of R1 are down.
pub open spec fn bitmap(r: Seq<u8>) -> bool {
    let mode = (r[0] / 2) % 8;
    (mode == 3 || mode == 4 || mode == 5 || mode == 7) && (r[1] / 8) % 4 == 0
}

/// Bytes in a row: 128 in SCREEN 5 and 6, 256 in SCREEN 7 and 8.
pub open spec fn row_bytes(r: Seq<u8>) -> int {
    if (r[0] / 2) % 8 < 5 {
        128
    } else {
        256
    }
}

/// Pixels in a byte: two in SCREEN 5 and 7, four in SCREEN 6, one in SCREEN 8.
pub open spec fn byte_pixels(r: Seq<u8>) -> int {
    let mode = (r[0] / 2) % 8;
    if mode == 4 {
        4
    } else if mode == 7 {
        1
    } else {
        2
    }
}

/// Colours of a pixel.
pub open spec fn colours(r: Seq<u8>) -> int {
    let mode = (r[0] / 2) % 8;
    if mode == 4 {
        4
    } else if mode == 7 {
        256
    } else {
        16
    }
}

/// Bit 2 of R45: columns go to the left.
pub open spec fn leftwards(r: Seq<u8>) -> bool {
    (r[45] / 4) % 2 == 1
}

/// Bit 3 of R45: rows go up.
pub open spec fn upwards(r: Seq<u8>) -> bool {
    (r[45] / 8) % 2 == 1
}

/// `n` further on, or further back.
pub open spec fn go(back: bool, from: int, n: int) -> int {
    if back {
        from - n
    } else {
        from + n
    }
}

/// Registers and VRAM as the chip has them, in a bitmap mode, with an opcode in
/// R46.
pub open spec fn told(s: EngineState, opcode: int) -> bool {
    &&& s.regs.len() == 64
    &&& s.status.len() == 10
    &&& bitmap(s.regs)
    &&& s.regs[46] / 16 == opcode
}

/// The colour of a pixel: leftmost in the high bits of its byte, and 0 past the
/// end of VRAM.
pub open spec fn colour(v: Seq<u8>, r: Seq<u8>, x: int, y: int) -> u8 {
    let a = y * row_bytes(r) + x / byte_pixels(r);
    if !(0 <= a < v.len()) {
        0
    } else if byte_pixels(r) == 1 {
        v[a]
    } else if byte_pixels(r) == 2 {
        if x % 2 == 0 {
            v[a] / 16
        } else {
            v[a] % 16
        }
    } else if x % 4 == 0 {
        v[a] / 64
    } else if x % 4 == 1 {
        (v[a] / 16) % 4
    } else if x % 4 == 2 {
        (v[a] / 4) % 4
    } else {
        v[a] % 4
    }
}

/// A colour combined with the one that is there. With bit 3 of the operation up,
/// colour 0 leaves it alone. Bits 2 to 0 ask for AND, OR, exclusive OR or NOT by
/// 1 to 4, and for the colour itself otherwise.
pub open spec fn mixed(op: u8, new: u8, there: u8, colours: int) -> int {
    if op >= 8 && new == 0 {
        there as int
    } else if op % 8 == 1 {
        (new & there) as int
    } else if op % 8 == 2 {
        (new | there) as int
    } else if op % 8 == 3 {
        (new ^ there) as int
    } else if op % 8 == 4 {
        colours - 1 - new
    } else {
        new as int
    }
}

pub(crate) proof fn lemma_bits(b: u8)
    by (bit_vector)
    ensures
        b & 0x0E == ((b / 2) % 8) * 2,
        b & 0x18 == ((b / 8) % 4) * 8,
        (b & 0x01 != 0) == (b % 2 == 1),
        (b & 0x02 != 0) == ((b / 2) % 2 == 1),
        (b & 0x04 != 0) == ((b / 4) % 2 == 1),
        (b & 0x08 != 0) == ((b / 8) % 2 == 1),
        b & 0x07 == b % 8,
        b & 0x03 == b % 4,
        b & 0x0F == b % 16,
        b & 0xFF == b,
{
}

/// The registers of a command as numbers.
pub(crate) proof fn lemma_numbers(s: EngineState)
    requires
        s.regs.len() == 64,
    ensures
        s.sx() == word(s.regs, 32, 512),
        s.sy() == word(s.regs, 34, 1024),
        s.dx() == word(s.regs, 36, 512),
        s.dy() == word(s.regs, 38, 1024),
        s.nx() == word(s.regs, 40, 1024),
        s.ny() == word(s.regs, 42, 1024),
        s.dix() == (if leftwards(s.regs) {
            -1int
        } else {
            1
        }),
        s.diy() == (if upwards(s.regs) {
            -1int
        } else {
            1
        }),
        s.layout() is Some <==> bitmap(s.regs),
{
    lemma_bits(s.regs[0]);
    lemma_bits(s.regs[1]);
    lemma_bits(s.regs[45]);
}

/// The engine's reading of its registers, byte by byte.
pub proof fn law_registers_mean(s: EngineState)
    requires
        s.regs.len() == 64,
    ensures
        s.sx() == word(s.regs, 32, 512),
        s.sy() == word(s.regs, 34, 1024),
        s.dx() == word(s.regs, 36, 512),
        s.dy() == word(s.regs, 38, 1024),
        s.nx() == word(s.regs, 40, 1024),
        s.ny() == word(s.regs, 42, 1024),
        s.dix() == (if leftwards(s.regs) {
            -1int
        } else {
            1
        }),
        s.diy() == (if upwards(s.regs) {
            -1int
        } else {
            1
        }),
        s.layout() is Some <==> bitmap(s.regs),
        bitmap(s.regs) ==> {
            let l = s.layout()->Some_0;
            &&& l.wf()
            &&& l.pitch == row_bytes(s.regs)
            &&& l.width == row_bytes(s.regs) * byte_pixels(s.regs)
            &&& l.ppb() == byte_pixels(s.regs)
            &&& l.mask() == colours(s.regs) - 1
            &&& forall|x: int| #[trigger] l.column(x) == x / byte_pixels(s.regs)
            &&& forall|n: int|
                #[trigger] l.columns_for(n) == (n + byte_pixels(s.regs) - 1) / byte_pixels(s.regs)
            &&& forall|y: int| #[trigger] l.row_start(y) == y * row_bytes(s.regs)
            &&& forall|a: int| #[trigger] l.row_of(a) == a / row_bytes(s.regs)
            &&& forall|a: int| #[trigger] l.column_of(a) == a % row_bytes(s.regs)
        },
{
    lemma_bits(s.regs[0]);
    lemma_bits(s.regs[1]);
    lemma_bits(s.regs[45]);
}

/// Steps along an axis, and what lies in a span of them.
pub proof fn law_steps_mean(back: bool, from: int, n: int, v: int)
    requires
        n >= 0,
    ensures
        ({
            let step: int = if back {
                -1
            } else {
                1
            };
            &&& engine::moved(from, step, n) == go(back, from, n)
            &&& engine::in_span(from, step, n, v) <==> exists|i: int|
                0 <= i < n && #[trigger] go(back, from, i) == v
        }),
{
    let i = if back {
        from - v
    } else {
        v - from
    };
    assert(go(back, from, i) == v);
}

/// The colour of every pixel of the page is where the mode puts it.
pub proof fn law_pixels_lie(s: EngineState, x: int, y: int)
    requires
        s.regs.len() == 64,
        bitmap(s.regs),
        0 <= x < row_bytes(s.regs) * byte_pixels(s.regs),
        0 <= y,
    ensures
        engine::pixel_at(s.vram, s.layout()->Some_0, x, y) == colour(s.vram, s.regs, x, y),
        colour(s.vram, s.regs, x, y) < colours(s.regs),
{
    law_registers_mean(s);
}

/// What the logic operations make of two colours.
pub proof fn law_operations_mix(op: u8, new: u8, there: u8, l: PixelLayout)
    requires
        l.wf(),
        op < 16,
        new <= l.mask(),
        there <= l.mask(),
    ensures
        engine::logic_result(new, there, op, l.mask()) == mixed(op, new, there, l.mask() + 1),
{
    lemma_bits(op);
    let m = l.mask();
    assert((new & there) & m == new & there && (new | there) & m == new | there && (new ^ there) & m
        == new ^ there && (!new) & m == m - new && new & m == new) by (bit_vector)
        requires
            m == 0xFF || m == 0x0F || m == 0x03,
            new <= m,
            there <= m,
    ;
}

/// A rectangle on its way to another place, unit by unit.
pub struct Sweep {
    pub from: (int, int),
    pub to: (int, int),
    pub left: bool,
    pub up: bool,
    pub cols: int,
}

impl Sweep {
    /// Unit `i` of row `j` of the source.
    pub open spec fn source(self, i: int, j: int) -> (int, int) {
        (go(self.left, self.from.0, i), go(self.up, self.from.1, j))
    }

    /// Where unit `i` of row `j` goes.
    pub open spec fn target(self, i: int, j: int) -> (int, int) {
        (go(self.left, self.to.0, i), go(self.up, self.to.1, j))
    }

    /// Some unit before unit `i` of row `j` went to `p`.
    pub open spec fn reached(self, p: (int, int), i: int, j: int) -> bool {
        exists|i2: int, j2: int|
            0 <= i2 < self.cols && 0 <= j2 && (j2 < j || (j2 == j && i2 < i)) && #[trigger]
                self.target(i2, j2) == p
    }

    /// Nothing of the first `rows` rows goes to `p`.
    pub open spec fn misses(self, p: (int, int), rows: int) -> bool {
        forall|i: int, j: int|
            0 <= i < self.cols && 0 <= j < rows ==> #[trigger] self.target(i, j) != p
    }

    pub(crate) open spec fn step(self) -> (int, int) {
        (
            if self.left {
                -1
            } else {
                1
            },
            if self.up {
                -1
            } else {
                1
            },
        )
    }

    /// The unit that goes to `p`.
    pub(crate) open spec fn index(self, p: (int, int)) -> (int, int) {
        (
            if self.left {
                self.to.0 - p.0
            } else {
                p.0 - self.to.0
            },
            if self.up {
                self.to.1 - p.1
            } else {
                p.1 - self.to.1
            },
        )
    }

    pub(crate) open spec fn before(self, k: (int, int), i: int, j: int) -> bool {
        0 <= k.0 < self.cols && 0 <= k.1 && (k.1 < j || (k.1 == j && k.0 < i))
    }

    pub(crate) proof fn lemma_reached(self, p: (int, int), i: int, j: int)
        ensures
            self.reached(p, i, j) <==> self.before(self.index(p), i, j),
    {
        let k = self.index(p);
        assert(self.target(k.0, k.1) == p);
    }
}

/// The byte at a column and row is in VRAM.
pub open spec fn has_byte(v: Seq<u8>, r: Seq<u8>, p: (int, int)) -> bool {
    0 <= p.0 < row_bytes(r) && 0 <= p.1 && p.1 * row_bytes(r) + p.0 < v.len()
}

/// The byte at a column and row.
pub open spec fn byte_at(v: Seq<u8>, r: Seq<u8>, p: (int, int)) -> u8 {
    v[p.1 * row_bytes(r) + p.0]
}

spec fn copies(v: Seq<u8>, l: PixelLayout, m: Sweep, i: int, j: int) -> Seq<u8> {
    engine::copy_row(
        engine::copy_rows(v, l, m.from, m.to, m.step(), m.cols, j),
        l,
        (m.from.0, engine::moved(m.from.1, m.step().1, j)),
        (m.to.0, engine::moved(m.to.1, m.step().1, j)),
        m.step().0,
        i,
    )
}

#[verifier::opaque]
spec fn in_vram(v: Seq<u8>, l: PixelLayout, p: (int, int)) -> bool {
    0 <= p.0 < l.pitch && 0 <= p.1 && l.row_start(p.1) + p.0 < v.len()
}

#[verifier::opaque]
spec fn held(v: Seq<u8>, l: PixelLayout, p: (int, int)) -> u8 {
    v[l.row_start(p.1) + p.0]
}

proof fn lemma_copy_byte(
    v: Seq<u8>,
    l: PixelLayout,
    src: (int, int),
    dst: (int, int),
    p: (int, int),
)
    requires
        l.wf(),
        in_vram(v, l, p),
    ensures
        engine::copy_byte(v, l, src, dst).len() == v.len(),
        held(engine::copy_byte(v, l, src, dst), l, p) == (if p == dst && in_vram(v, l, src) {
            held(v, l, src)
        } else {
            held(v, l, p)
        }),
{
    reveal(in_vram);
    reveal(held);
}

spec fn copy_settled(
    v: Seq<u8>,
    w: Seq<u8>,
    l: PixelLayout,
    m: Sweep,
    i: int,
    j: int,
    p: (int, int),
) -> bool {
    let k = m.index(p);
    let q = m.source(k.0, k.1);
    held(w, l, p) == if m.before(k, i, j) && in_vram(v, l, q) {
        if m.before(m.index(q), k.0, k.1) {
            held(w, l, q)
        } else {
            held(v, l, q)
        }
    } else {
        held(v, l, p)
    }
}

#[verifier::rlimit(50)]
proof fn lemma_copies(v: Seq<u8>, l: PixelLayout, m: Sweep, i: int, j: int, p: (int, int))
    requires
        l.wf(),
        0 <= i <= m.cols,
        0 <= j,
        in_vram(v, l, p),
    ensures
        copies(v, l, m, i, j).len() == v.len(),
        copy_settled(v, copies(v, l, m, i, j), l, m, i, j, p),
    decreases j, i,
{
    let w = copies(v, l, m, i, j);
    if i == 0 {
        if j > 0 {
            lemma_copies(v, l, m, m.cols, j - 1, p);
            assert(w == copies(v, l, m, m.cols, j - 1));
        }
    } else {
        let o = copies(v, l, m, i - 1, j);
        let src = m.source(i - 1, j);
        let dst = m.target(i - 1, j);
        let k = m.index(p);
        let q = m.source(k.0, k.1);
        lemma_copies(v, l, m, i - 1, j, p);
        assert(w == engine::copy_byte(o, l, src, dst));
        assert(in_vram(o, l, p)) by {
            reveal(in_vram);
        }
        lemma_copy_byte(o, l, src, dst, p);
        assert(in_vram(o, l, src) == in_vram(v, l, src)) by {
            reveal(in_vram);
        }
        if in_vram(v, l, src) {
            lemma_copies(v, l, m, i - 1, j, src);
            lemma_copy_byte(o, l, src, dst, src);
        }
        if in_vram(v, l, q) {
            assert(in_vram(o, l, q)) by {
                reveal(in_vram);
            }
            lemma_copy_byte(o, l, src, dst, q);
        }
    }
}

/// What stands where unit `i` of row `j` of a byte rectangle went: the byte of the
/// source, as it was, or as the command itself left it where it had been there
/// before. A byte that comes from off the page is skipped.
pub open spec fn byte_arrives(v: Seq<u8>, t: Seq<u8>, r: Seq<u8>, m: Sweep, i: int, j: int)
    -> bool {
    let p = m.source(i, j);
    let d = m.target(i, j);
    has_byte(v, r, d) ==> byte_at(t, r, d) == if !has_byte(v, r, p) {
        byte_at(v, r, d)
    } else if m.reached(p, i, j) {
        byte_at(t, r, p)
    } else {
        byte_at(v, r, p)
    }
}

#[verifier::rlimit(50)]
proof fn lemma_byte_sweep(v: Seq<u8>, s: EngineState, m: Sweep, rows: int)
    requires
        s.regs.len() == 64,
        bitmap(s.regs),
        rows >= 0,
    ensures
        ({
            let t = engine::copy_rows(
                v,
                s.layout()->Some_0,
                m.from,
                m.to,
                m.step(),
                m.cols,
                rows,
            );
            &&& t.len() == v.len()
            &&& forall|i: int, j: int|
                0 <= i < m.cols && 0 <= j < rows ==> #[trigger] byte_arrives(v, t, s.regs, m, i, j)
            &&& forall|p: (int, int)|
                has_byte(v, s.regs, p) && #[trigger] m.misses(p, rows) ==> byte_at(t, s.regs, p)
                    == byte_at(v, s.regs, p)
        }),
{
    law_registers_mean(s);
    let l = s.layout()->Some_0;
    let r = s.regs;
    let t = engine::copy_rows(v, l, m.from, m.to, m.step(), m.cols, rows);
    assert(forall|p: (int, int)| #[trigger] has_byte(v, r, p) <==> in_vram(v, l, p)) by {
        reveal(in_vram);
    }
    assert(forall|p: (int, int)| #[trigger] byte_at(v, r, p) == held(v, l, p)) by {
        reveal(held);
    }
    assert(forall|p: (int, int)| #[trigger] byte_at(t, r, p) == held(t, l, p)) by {
        reveal(held);
    }
    if m.cols <= 0 {
        lemma_no_columns(v, l, m, rows);
        assert(t == v);
    } else {
        assert(t == copies(v, l, m, 0, rows));
        assert forall|p: (int, int)| in_vram(v, l, p) implies #[trigger] copy_settled(
            v,
            t,
            l,
            m,
            0,
            rows,
            p,
        ) by {
            lemma_copies(v, l, m, 0, rows, p);
        }
        lemma_copy_lens(v, l, 0, m.from, m.to, m.step(), m.cols, rows);
        assert forall|i: int, j: int| 0 <= i < m.cols && 0 <= j < rows implies #[trigger]
            byte_arrives(v, t, r, m, i, j) by {
            let d = m.target(i, j);
            let p = m.source(i, j);
            assert(m.index(d) == (i, j));
            m.lemma_reached(p, i, j);
            if has_byte(v, r, d) {
                assert(in_vram(v, l, d));
                assert(copy_settled(v, t, l, m, 0, rows, d));
            }
        }
        assert forall|p: (int, int)|
            has_byte(v, r, p) && #[trigger] m.misses(p, rows) implies byte_at(t, r, p) == byte_at(
            v,
            r,
            p,
        ) by {
            assert(copy_settled(v, t, l, m, 0, rows, p));
            let k = m.index(p);
            assert(m.target(k.0, k.1) == p);
        }
    }
}

proof fn lemma_no_columns(v: Seq<u8>, l: PixelLayout, m: Sweep, rows: int)
    requires
        m.cols <= 0,
    ensures
        engine::copy_rows(v, l, m.from, m.to, m.step(), m.cols, rows) == v,
    decreases rows,
{
    if rows > 0 {
        lemma_no_columns(v, l, m, rows - 1);
    }
}

/// The rectangle that the registers give HMMM. SX is in R32 and R33, SY in R34
/// and R35, DX in R36 and R37, DY in R38 and R39, NX in R40 and R41. With NX at 0
/// it goes on to the border that comes first.
pub open spec fn hmmm_sweep(r: Seq<u8>) -> Sweep {
    let sc = word(r, 32, 512) / byte_pixels(r);
    let dc = word(r, 36, 512) / byte_pixels(r);
    let nx = word(r, 40, 1024);
    Sweep {
        from: (sc, word(r, 34, 1024)),
        to: (dc, word(r, 38, 1024)),
        left: leftwards(r),
        up: upwards(r),
        cols: if nx != 0 {
            (nx + byte_pixels(r) - 1) / byte_pixels(r)
        } else if leftwards(r) {
            if sc < dc {
                sc + 1
            } else {
                dc + 1
            }
        } else if sc < dc {
            row_bytes(r) - dc
        } else {
            row_bytes(r) - sc
        },
    }
}

/// Rows of a rectangle, from R42 and R43: 0 stands for 1024.
pub open spec fn row_count(r: Seq<u8>) -> int {
    let ny = word(r, 42, 1024);
    if ny == 0 {
        1024
    } else {
        ny
    }
}

/// HMMM (opcode 0xD) takes every byte of the rectangle that its registers give to
/// its place, and changes no other byte of VRAM.
#[verifier::rlimit(50)]
pub proof fn law_hmmm_moves_its_rectangle(s: EngineState)
    requires
        told(s, 0xD),
    ensures
        ({
            let v = s.vram;
            let t = s.executed().vram;
            let m = hmmm_sweep(s.regs);
            &&& t.len() == v.len()
            &&& forall|i: int, j: int|
                0 <= i < m.cols && 0 <= j < row_count(s.regs) ==> #[trigger] byte_arrives(
                    v,
                    t,
                    s.regs,
                    m,
                    i,
                    j,
                )
            &&& forall|p: (int, int)|
                has_byte(v, s.regs, p) && #[trigger] m.misses(p, row_count(s.regs)) ==> byte_at(
                    t,
                    s.regs,
                    p,
                ) == byte_at(v, s.regs, p)
        }),
{
    law_registers_mean(s);
    lemma_byte_sweep(s.vram, s, hmmm_sweep(s.regs), row_count(s.regs));
}

/// HMMM between rectangles that do not overlap: the byte at column DX / ppb + i
/// and row DY + j becomes what the byte at column SX / ppb + i and row SY + j was
/// before the command, with i or j taken away where R45 turns the direction
/// round.
#[verifier::rlimit(50)]
pub proof fn law_hmmm_copies_bytes(s: EngineState, i: int, j: int)
    requires
        told(s, 0xD),
        ({
            let r = s.regs;
            let ppb = byte_pixels(r);
            let nx = word(r, 40, 1024);
            let ny = word(r, 42, 1024);
            let cols = (nx + ppb - 1) / ppb;
            let across = word(r, 32, 512) / ppb - word(r, 36, 512) / ppb;
            let down = word(r, 34, 1024) - word(r, 38, 1024);
            &&& nx != 0
            &&& ny != 0
            &&& across >= cols || across <= -cols || down >= ny || down <= -ny
            &&& 0 <= i < cols
            &&& 0 <= j < ny
        }),
    ensures
        ({
            let r = s.regs;
            let ppb = byte_pixels(r);
            let left = (r[45] / 4) % 2 == 1;
            let up = (r[45] / 8) % 2 == 1;
            let from_column = go(left, ((r[32] + 256 * r[33]) % 512) / ppb, i);
            let from_row = go(up, (r[34] + 256 * r[35]) % 1024, j);
            let to_column = go(left, ((r[36] + 256 * r[37]) % 512) / ppb, i);
            let to_row = go(up, (r[38] + 256 * r[39]) % 1024, j);
            has_byte(s.vram, r, (from_column, from_row)) && has_byte(
                s.vram,
                r,
                (to_column, to_row),
            ) ==> s.executed().vram[to_row * row_bytes(r) + to_column] == s.vram[from_row
                * row_bytes(r) + from_column]
        }),
{
    law_hmmm_moves_its_rectangle(s);
    let m = hmmm_sweep(s.regs);
    assert(byte_arrives(s.vram, s.executed().vram, s.regs, m, i, j));
    m.lemma_reached(m.source(i, j), i, j);
}

/// The columns that YMMM moves: from DX / ppb to the right border, or to the left
/// one.
pub open spec fn ymmm_columns(r: Seq<u8>, c: int) -> bool {
    let dc = word(r, 36, 512) / byte_pixels(r);
    if leftwards(r) {
        0 <= c <= dc
    } else {
        dc <= c < row_bytes(r)
    }
}

/// Rows of YMMM and of the transfers: NY, and at least one.
pub open spec fn row_count_or_one(r: Seq<u8>) -> int {
    let ny = word(r, 42, 1024);
    if ny == 0 {
        1
    } else {
        ny
    }
}

/// YMMM (opcode 0xE) takes the bytes of its columns from row SY + j to row DY + j, or
/// minus j upwards, one row after the other, and changes no other byte. A row that
/// the command itself has filled before is taken as it is then.
#[verifier::rlimit(50)]
pub proof fn law_ymmm_moves_rows(s: EngineState, c: int, j: int)
    requires
        told(s, 0xE),
        0 <= c < row_bytes(s.regs),
        0 <= j < row_count_or_one(s.regs),
        word(s.regs, 36, 512) < row_bytes(s.regs) * byte_pixels(s.regs),
    ensures
        ({
            let r = s.regs;
            let v = s.vram;
            let t = s.executed().vram;
            let from = (c, go(upwards(r), word(r, 34, 1024), j));
            let to = (c, go(upwards(r), word(r, 38, 1024), j));
            let filled = exists|j2: int|
                0 <= j2 < j && #[trigger] go(upwards(r), word(r, 38, 1024), j2) == from.1;
            &&& t.len() == v.len()
            &&& has_byte(v, r, to) ==> byte_at(t, r, to) == (if !ymmm_columns(r, c) || !has_byte(
                v,
                r,
                from,
            ) {
                byte_at(v, r, to)
            } else if filled {
                byte_at(t, r, from)
            } else {
                byte_at(v, r, from)
            })
        }),
{
    let r = s.regs;
    lemma_ymmm(s);
    let m = ymmm_sweep(r);
    let t = s.executed().vram;
    let from = (c, go(upwards(r), word(r, 34, 1024), j));
    let to = (c, go(upwards(r), word(r, 38, 1024), j));
    let i = c - m.to.0;
    if ymmm_columns(r, c) {
        assert(byte_arrives(s.vram, t, r, m, i, j));
        m.lemma_reached(from, i, j);
        let j2 = m.index(from).1;
        assert(go(upwards(r), word(r, 38, 1024), j2) == from.1);
    } else {
        assert(m.misses(to, row_count_or_one(r)));
    }
}

/// YMMM leaves the rows that it does not fill as they are.
pub proof fn law_ymmm_leaves_other_rows(s: EngineState, c: int, y: int)
    requires
        told(s, 0xE),
        word(s.regs, 36, 512) < row_bytes(s.regs) * byte_pixels(s.regs),
        has_byte(s.vram, s.regs, (c, y)),
        forall|j: int|
            0 <= j < row_count_or_one(s.regs) ==> #[trigger] go(
                upwards(s.regs),
                word(s.regs, 38, 1024),
                j,
            ) != y,
    ensures
        byte_at(s.executed().vram, s.regs, (c, y)) == byte_at(s.vram, s.regs, (c, y)),
{
    lemma_ymmm(s);
    let m = ymmm_sweep(s.regs);
    assert(m.misses((c, y), row_count_or_one(s.regs)));
}

spec fn ymmm_sweep(r: Seq<u8>) -> Sweep {
    let dc = word(r, 36, 512) / byte_pixels(r);
    let first = if leftwards(r) {
        0
    } else {
        dc
    };
    Sweep {
        from: (first, word(r, 34, 1024)),
        to: (first, word(r, 38, 1024)),
        left: false,
        up: upwards(r),
        cols: if leftwards(r) {
            dc + 1
        } else {
            row_bytes(r) - dc
        },
    }
}

#[verifier::rlimit(50)]
proof fn lemma_ymmm(s: EngineState)
    requires
        told(s, 0xE),
        word(s.regs, 36, 512) < row_bytes(s.regs) * byte_pixels(s.regs),
    ensures
        ({
            let v = s.vram;
            let t = s.executed().vram;
            let m = ymmm_sweep(s.regs);
            let rows = row_count_or_one(s.regs);
            &&& t.len() == v.len()
            &&& forall|i: int, j: int|
                0 <= i < m.cols && 0 <= j < rows ==> #[trigger] byte_arrives(v, t, s.regs, m, i, j)
            &&& forall|p: (int, int)|
                has_byte(v, s.regs, p) && #[trigger] m.misses(p, rows) ==> byte_at(t, s.regs, p)
                    == byte_at(v, s.regs, p)
        }),
{
    law_registers_mean(s);
    let m = ymmm_sweep(s.regs);
    let l = s.layout()->Some_0;
    let rows = row_count_or_one(s.regs);
    lemma_runs_are_rows(
        s.vram,
        l,
        (m.to.0, m.cols),
        m.from.1,
        m.to.1,
        m.step().1,
        rows,
    );
    lemma_byte_sweep(s.vram, s, m, rows);
}

/// The rectangle that the registers give HMMV, in bytes: to the border with NX at 0.
pub open spec fn hmmv_sweep(r: Seq<u8>) -> Sweep {
    let dc = word(r, 36, 512) / byte_pixels(r);
    let nx = word(r, 40, 1024);
    Sweep {
        from: (dc, word(r, 38, 1024)),
        to: (dc, word(r, 38, 1024)),
        left: leftwards(r),
        up: upwards(r),
        cols: if nx != 0 {
            (nx + byte_pixels(r) - 1) / byte_pixels(r)
        } else if leftwards(r) {
            dc + 1
        } else {
            row_bytes(r) - dc
        },
    }
}

/// HMMV (opcode 0xC) sets every byte of its rectangle to R44, and changes no other.
#[verifier::rlimit(50)]
pub proof fn law_hmmv_fills(s: EngineState, p: (int, int))
    requires
        told(s, 0xC),
        has_byte(s.vram, s.regs, p),
    ensures
        s.executed().vram.len() == s.vram.len(),
        byte_at(s.executed().vram, s.regs, p) == (if hmmv_sweep(s.regs).misses(
            p,
            row_count(s.regs),
        ) {
            byte_at(s.vram, s.regs, p)
        } else {
            s.regs[44]
        }),
{
    law_registers_mean(s);
    let m = hmmv_sweep(s.regs);
    let rows = row_count(s.regs);
    let l = s.layout()->Some_0;
    let t = engine::fill_bytes(
        s.vram,
        l,
        (m.to.0, m.step().0, m.cols),
        (m.to.1, m.step().1, rows),
        s.regs[44],
    );
    assert(s.executed().vram == t);
    lemma_filled(s, m, rows, p);
}

#[verifier::rlimit(50)]
proof fn lemma_filled(s: EngineState, m: Sweep, rows: int, p: (int, int))
    requires
        s.regs.len() == 64,
        bitmap(s.regs),
        has_byte(s.vram, s.regs, p),
    ensures
        ({
            let l = s.layout()->Some_0;
            let t = engine::fill_bytes(
                s.vram,
                l,
                (m.to.0, m.step().0, m.cols),
                (m.to.1, m.step().1, rows),
                s.regs[44],
            );
            &&& t.len() == s.vram.len()
            &&& byte_at(t, s.regs, p) == (if m.misses(p, rows) {
                byte_at(s.vram, s.regs, p)
            } else {
                s.regs[44]
            })
        }),
{
    law_registers_mean(s);
    lemma_misses(m, p, rows);
    let l = s.layout()->Some_0;
    let a = p.1 * row_bytes(s.regs) + p.0;
    assert(l.row_of(a) == p.1 && l.column_of(a) == p.0) by {
        if l.pitch == 128 {
            assert((p.1 * 128 + p.0) / 128 == p.1 && (p.1 * 128 + p.0) % 128 == p.0);
        } else {
            assert((p.1 * 256 + p.0) / 256 == p.1 && (p.1 * 256 + p.0) % 256 == p.0);
        }
    }
    assert(engine::spans((m.to.1, m.step().1, rows), p.1) == (0 <= m.index(p).1 < rows));
    assert(engine::spans((m.to.0, m.step().0, m.cols), p.0) == (0 <= m.index(p).0 < m.cols));
}

pub(crate) proof fn lemma_misses(m: Sweep, p: (int, int), rows: int)
    ensures
        m.misses(p, rows) <==> !(0 <= m.index(p).0 < m.cols && 0 <= m.index(p).1 < rows),
{
    let k = m.index(p);
    assert(m.target(k.0, k.1) == p);
}

} // verus!
