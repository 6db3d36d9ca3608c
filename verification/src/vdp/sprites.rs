//! Sprite status: overflow and collision flags of one frame.
//!
//! Sprite mode 1 (G1, G2, multicolour) shows four sprites on a line and one
//! colour each, mode 2 (G3 to G7) eight and a colour per row. Both report the
//! first sprite that no longer fits on its line, and whether two sprites have
//! a dot in the same place.
use vstd::prelude::*;

verus! {

/// Bytes of VRAM that the sprite tables can lie in.
pub const SPRITE_VRAM: usize = 131072;

/// Bit `k` of a byte, counted from the right.
pub open spec fn bit_of(b: u8, k: int) -> bool {
    (b >> (k as u8)) & 1 == 1
}

/// 16 x 16 sprites instead of 8 x 8.
pub open spec fn large(regs: Seq<u8>) -> bool {
    regs[1] & 0x02 != 0
}

/// Every dot doubled.
pub open spec fn magnified(regs: Seq<u8>) -> bool {
    regs[1] & 0x01 != 0
}

/// Width and height of a sprite on the screen.
pub open spec fn edge(regs: Seq<u8>) -> int {
    if large(regs) {
        if magnified(regs) {
            32
        } else {
            16
        }
    } else if magnified(regs) {
        16
    } else {
        8
    }
}

/// The sprite generator table.
pub open spec fn generator(regs: Seq<u8>) -> int {
    (regs[6] % 64) * 2048
}

/// Dot `(dx, dy)` of the sprite pattern `pat` as it appears on the screen. A
/// large sprite is four patterns: top left, bottom left, top right, bottom
/// right.
pub open spec fn dot(v: Seq<u8>, regs: Seq<u8>, pat: u8, dx: int, dy: int) -> bool {
    let lx = if magnified(regs) {
        dx / 2
    } else {
        dx
    };
    let ly = if magnified(regs) {
        dy / 2
    } else {
        dy
    };
    let p = if large(regs) {
        (pat / 4) * 4 + (lx / 8) * 2 + ly / 8
    } else {
        pat as int
    };
    bit_of(v[generator(regs) + p * 8 + ly % 8], 7 - lx % 8)
}

fn sprite_edge(r1: u8) -> (r: i32)
    ensures
        forall|regs: Seq<u8>| regs[1] == r1 ==> r == #[trigger] edge(regs),
        r == 8 || r == 16 || r == 32,
{
    let size: i32 = if r1 & 0x02 != 0 {
        16
    } else {
        8
    };
    if r1 & 0x01 != 0 {
        size * 2
    } else {
        size
    }
}

/// Whether dot `(dx, dy)` of a pattern is set.
fn pattern_dot(vram: &Vec<u8>, regs: &[u8; 64], pat: u8, dx: i32, dy: i32) -> (r: bool)
    requires
        vram.len() == SPRITE_VRAM,
        0 <= dx < edge(regs@),
        0 <= dy < edge(regs@),
    ensures
        r == dot(vram@, regs@, pat, dx as int, dy as int),
{
    let mag = regs[1] & 0x01 != 0;
    let lx: usize = if mag {
        dx as usize / 2
    } else {
        dx as usize
    };
    let ly: usize = if mag {
        dy as usize / 2
    } else {
        dy as usize
    };
    let p: usize = if regs[1] & 0x02 != 0 {
        (pat / 4) as usize * 4 + (lx / 8) * 2 + ly / 8
    } else {
        pat as usize
    };
    let byte = vram[(regs[6] % 64) as usize * 2048 + p * 8 + ly % 8];
    (byte >> ((7 - lx % 8) as u8)) & 1 == 1
}

/// The sprite attribute table of mode 1.
pub open spec fn attributes1(regs: Seq<u8>) -> int {
    regs[5] * 128 + (regs[11] % 4) * 32768
}

/// Sprites before the end mark, from `s` on.
pub open spec fn listed(v: Seq<u8>, table: int, end_mark: u8, s: int) -> int
    decreases 32 - s,
{
    if s >= 32 {
        32
    } else if v[table + 4 * s] == end_mark {
        s
    } else {
        listed(v, table, end_mark, s + 1)
    }
}

/// Top row of sprite `s` in mode 1.
pub open spec fn top1(v: Seq<u8>, regs: Seq<u8>, s: int) -> int {
    let y = v[attributes1(regs) + 4 * s];
    if y > 238 {
        y - 255
    } else {
        y + 1
    }
}

/// Left column of sprite `s` in mode 1; the early-clock bit moves it left.
pub open spec fn left1(v: Seq<u8>, regs: Seq<u8>, s: int) -> int {
    let x = v[attributes1(regs) + 4 * s + 1];
    if v[attributes1(regs) + 4 * s + 3] & 0x80 != 0 {
        x - 32
    } else {
        x as int
    }
}

/// Sprite `s` takes up part of a line in mode 1.
pub open spec fn on_line1(v: Seq<u8>, regs: Seq<u8>, s: int, line: int) -> bool {
    0 <= line - top1(v, regs, s) < edge(regs)
}

/// Sprite `s` has a visible dot at a place on the screen in mode 1. Colour 0
/// is invisible.
pub open spec fn covers1(v: Seq<u8>, regs: Seq<u8>, s: int, x: int, y: int) -> bool {
    let a = attributes1(regs) + 4 * s;
    let dx = x - left1(v, regs, s);
    let dy = y - top1(v, regs, s);
    &&& v[a + 3] & 0x0F != 0
    &&& 0 <= dx < edge(regs)
    &&& 0 <= dy < edge(regs)
    &&& dot(v, regs, v[a + 2], dx, dy)
}

/// One of the first `n` sprites has a dot at a place.
pub open spec fn covered1(v: Seq<u8>, regs: Seq<u8>, n: int, x: int, y: int) -> bool
    decreases n,
{
    n > 0 && (covers1(v, regs, n - 1, x, y) || covered1(v, regs, n - 1, x, y))
}

/// Sprite `s` and one before it have a dot at the same place of the screen.
pub open spec fn hits1(v: Seq<u8>, regs: Seq<u8>, s: int, x: int, y: int) -> bool {
    &&& 0 <= x < 256
    &&& 0 <= y < 192
    &&& covers1(v, regs, s, x, y)
    &&& covered1(v, regs, s, x, y)
}

/// Sprites in the list of mode 1.
pub open spec fn listed1(v: Seq<u8>, regs: Seq<u8>) -> int {
    listed(v, attributes1(regs), 0xD0, 0)
}

/// Two sprites have a dot at the same place of the screen.
pub open spec fn collision1(v: Seq<u8>, regs: Seq<u8>) -> bool {
    exists|s: int, x: int, y: int|
        0 <= s < listed1(v, regs) && #[trigger] hits1(v, regs, s, x, y)
}

/// The `k`-th sprite from `s` on that takes up part of a line.
pub open spec fn nth_on_line1(v: Seq<u8>, regs: Seq<u8>, line: int, s: int, k: int) -> Option<int>
    decreases 32 - s,
{
    if s >= 32 || s >= listed1(v, regs) {
        None
    } else if on_line1(v, regs, s, line) {
        if k <= 1 {
            Some(s)
        } else {
            nth_on_line1(v, regs, line, s + 1, k - 1)
        }
    } else {
        nth_on_line1(v, regs, line, s + 1, k)
    }
}

/// The fifth sprite of the first line, from `line` on, that has five.
pub open spec fn overflow1(v: Seq<u8>, regs: Seq<u8>, line: int) -> Option<int>
    decreases 192 - line,
{
    if line >= 192 {
        None
    } else {
        match nth_on_line1(v, regs, line, 0, 5) {
            Some(s) => Some(s),
            None => overflow1(v, regs, line + 1),
        }
    }
}

/// S0 after a frame in mode 1: bit 6 and the sprite number report the first
/// overflow unless an earlier one is still there, bit 5 a collision.
pub open spec fn status1(v: Seq<u8>, regs: Seq<u8>, s0: u8) -> u8 {
    let t = if s0 & 0x40 != 0 {
        s0
    } else {
        match overflow1(v, regs, 0) {
            Some(s) => (s0 & 0xA0) | 0x40 | s as u8,
            None => s0,
        }
    };
    if collision1(v, regs) {
        t | 0x20
    } else {
        t
    }
}

fn attribute_table1(regs: &[u8; 64]) -> (r: usize)
    ensures
        r == attributes1(regs@),
        r + 128 <= SPRITE_VRAM,
{
    regs[5] as usize * 128 + (regs[11] % 4) as usize * 32768
}

/// Number of sprites before the end mark.
fn count_listed(vram: &Vec<u8>, table: usize, end_mark: u8) -> (r: usize)
    requires
        vram.len() == SPRITE_VRAM,
        table + 128 <= SPRITE_VRAM,
    ensures
        r == listed(vram@, table as int, end_mark, 0),
        r <= 32,
{
    let mut s: usize = 0;
    while s < 32 && vram[table + 4 * s] != end_mark
        invariant
            vram.len() == SPRITE_VRAM,
            table + 128 <= SPRITE_VRAM,
            s <= 32,
            listed(vram@, table as int, end_mark, 0) == listed(
                vram@,
                table as int,
                end_mark,
                s as int,
            ),
        decreases 32 - s,
    {
        s = s + 1;
    }
    s
}

fn sprite_top1(vram: &Vec<u8>, regs: &[u8; 64], s: usize) -> (r: i32)
    requires
        vram.len() == SPRITE_VRAM,
        s < 32,
    ensures
        r == top1(vram@, regs@, s as int),
        -16 <= r <= 239,
{
    let y = vram[attribute_table1(regs) + 4 * s];
    if y > 238 {
        y as i32 - 255
    } else {
        y as i32 + 1
    }
}

fn sprite_left1(vram: &Vec<u8>, regs: &[u8; 64], s: usize) -> (r: i32)
    requires
        vram.len() == SPRITE_VRAM,
        s < 32,
    ensures
        r == left1(vram@, regs@, s as int),
        -32 <= r <= 255,
{
    let a = attribute_table1(regs) + 4 * s;
    let x = vram[a + 1] as i32;
    if vram[a + 3] & 0x80 != 0 {
        x - 32
    } else {
        x
    }
}

/// The fifth sprite on a line.
fn fifth_on_line1(vram: &Vec<u8>, regs: &[u8; 64], line: i32, n: usize) -> (r: Option<u8>)
    requires
        vram.len() == SPRITE_VRAM,
        0 <= line < 192,
        n == listed1(vram@, regs@),
        n <= 32,
    ensures
        match r {
            Some(s) => nth_on_line1(vram@, regs@, line as int, 0, 5) == Some(s as int) && s < 32,
            None => nth_on_line1(vram@, regs@, line as int, 0, 5) is None,
        },
{
    let size = sprite_edge(regs[1]);
    let mut s: usize = 0;
    let mut left: u32 = 5;
    while s < n
        invariant
            vram.len() == SPRITE_VRAM,
            0 <= line < 192,
            n == listed1(vram@, regs@),
            s <= n <= 32,
            1 <= left <= 5,
            size == edge(regs@),
            nth_on_line1(vram@, regs@, line as int, 0, 5) == nth_on_line1(
                vram@,
                regs@,
                line as int,
                s as int,
                left as int,
            ),
        decreases n - s,
    {
        let dy = line - sprite_top1(vram, regs, s);
        if 0 <= dy && dy < size {
            if left == 1 {
                return Some(s as u8);
            }
            left = left - 1;
        }
        s = s + 1;
    }
    None
}

/// The fifth sprite of the first line that has five.
fn first_overflow1(vram: &Vec<u8>, regs: &[u8; 64], n: usize) -> (r: Option<u8>)
    requires
        vram.len() == SPRITE_VRAM,
        n == listed1(vram@, regs@),
        n <= 32,
    ensures
        match r {
            Some(s) => overflow1(vram@, regs@, 0) == Some(s as int) && s < 32,
            None => overflow1(vram@, regs@, 0) is None,
        },
{
    let mut line: i32 = 0;
    while line < 192
        invariant
            vram.len() == SPRITE_VRAM,
            n == listed1(vram@, regs@),
            n <= 32,
            0 <= line <= 192,
            overflow1(vram@, regs@, 0) == overflow1(vram@, regs@, line as int),
        decreases 192 - line,
    {
        if let Some(s) = fifth_on_line1(vram, regs, line, n) {
            return Some(s);
        }
        line = line + 1;
    }
    None
}

/// A place at `(x, y)` has been passed once the dots of a sprite up to row `r`
/// and, in it, column `c` have been drawn.
pub open spec fn passed(r: int, c: int, x: int, y: int) -> bool {
    y < r || (y == r && x < c)
}

/// The place at `(x, y)` of a grid of dots, row after row.
pub open spec fn cell(grid: Seq<bool>, x: int, y: int) -> bool {
    grid[y * 256 + x]
}

/// Draw sprite `s` over the `grid` that holds the dots of the sprites before
/// it; tells whether it meets one of them.
fn draw_sprite1(vram: &Vec<u8>, regs: &[u8; 64], s: usize, grid: &mut Vec<bool>) -> (r: bool)
    requires
        vram.len() == SPRITE_VRAM,
        s < 32,
        old(grid).len() == 49152,
        forall|x: int, y: int|
            #![trigger cell(old(grid)@, x, y)]
            0 <= x < 256 && 0 <= y < 192 ==> cell(old(grid)@, x, y) == covered1(
                vram@,
                regs@,
                s as int,
                x,
                y,
            ),
    ensures
        r == exists|x: int, y: int| #[trigger] hits1(vram@, regs@, s as int, x, y),
        final(grid).len() == 49152,
        forall|x: int, y: int|
            #![trigger cell(final(grid)@, x, y)]
            0 <= x < 256 && 0 <= y < 192 ==> cell(final(grid)@, x, y) == covered1(
                vram@,
                regs@,
                s + 1,
                x,
                y,
            ),
{
    let a = attribute_table1(regs) + 4 * s;
    let size = sprite_edge(regs[1]);
    let sx = sprite_left1(vram, regs, s);
    let sy = sprite_top1(vram, regs, s);
    let pat = vram[a + 2];
    let mut met = false;
    if vram[a + 3] & 0x0F == 0 {
        proof {
            assert forall|x: int, y: int|
                #![trigger cell(grid@, x, y)]
                0 <= x < 256 && 0 <= y < 192 implies cell(grid@, x, y) == covered1(
                vram@,
                regs@,
                s + 1,
                x,
                y,
            ) by {
                assert(!covers1(vram@, regs@, s as int, x, y));
                assert(cell(grid@, x, y) == covered1(vram@, regs@, s as int, x, y));
            }
        }
        return false;
    }
    let mut dy: i32 = 0;
    while dy < size
        invariant
            vram.len() == SPRITE_VRAM,
            s < 32,
            a == attributes1(regs@) + 4 * s,
            a + 4 <= SPRITE_VRAM,
            pat == vram@[a + 2],
            vram@[a + 3] & 0x0F != 0,
            size == edge(regs@),
            size <= 32,
            sx == left1(vram@, regs@, s as int),
            sy == top1(vram@, regs@, s as int),
            -32 <= sx <= 255,
            -16 <= sy <= 239,
            0 <= dy <= size,
            grid.len() == 49152,
            met == exists|x: int, y: int|
                passed(sy + dy, sx as int, x, y) && #[trigger] hits1(vram@, regs@, s as int, x, y),
            forall|x: int, y: int|
                #![trigger cell(grid@, x, y)]
                0 <= x < 256 && 0 <= y < 192 ==> cell(grid@, x, y) == (covered1(
                    vram@,
                    regs@,
                    s as int,
                    x,
                    y,
                ) || (covers1(vram@, regs@, s as int, x, y) && passed(sy + dy, sx as int, x, y))),
        decreases size - dy,
    {
        let y = sy + dy;
        if 0 <= y && y < 192 {
            let mut dx: i32 = 0;
            while dx < size
                invariant
                    vram.len() == SPRITE_VRAM,
                    s < 32,
                    a == attributes1(regs@) + 4 * s,
                    a + 4 <= SPRITE_VRAM,
                    pat == vram@[a + 2],
                    vram@[a + 3] & 0x0F != 0,
                    size == edge(regs@),
                    size <= 32,
                    sx == left1(vram@, regs@, s as int),
                    sy == top1(vram@, regs@, s as int),
                    -32 <= sx <= 255,
                    0 <= dy < size,
                    y == sy + dy,
                    0 <= y < 192,
                    0 <= dx <= size,
                    grid.len() == 49152,
                    met == exists|xx: int, yy: int|
                        passed(y as int, sx + dx, xx, yy) && #[trigger] hits1(
                            vram@,
                            regs@,
                            s as int,
                            xx,
                            yy,
                        ),
                    forall|xx: int, yy: int|
                        #![trigger cell(grid@, xx, yy)]
                        0 <= xx < 256 && 0 <= yy < 192 ==> cell(grid@, xx, yy) == (covered1(
                            vram@,
                            regs@,
                            s as int,
                            xx,
                            yy,
                        ) || (covers1(vram@, regs@, s as int, xx, yy) && passed(
                            y as int,
                            sx + dx,
                            xx,
                            yy,
                        ))),
                decreases size - dx,
            {
                let x = sx + dx;
                let ghost before = grid@;
                if 0 <= x && x < 256 && pattern_dot(vram, regs, pat, dx, dy) {
                    let i = y as usize * 256 + x as usize;
                    assert(covers1(vram@, regs@, s as int, x as int, y as int));
                    assert(cell(grid@, x as int, y as int) == covered1(
                        vram@,
                        regs@,
                        s as int,
                        x as int,
                        y as int,
                    ));
                    if grid[i] {
                        assert(hits1(vram@, regs@, s as int, x as int, y as int));
                        met = true;
                    } else {
                        grid[i] = true;
                    }
                }
                assert forall|xx: int, yy: int|
                    #![trigger cell(grid@, xx, yy)]
                    0 <= xx < 256 && 0 <= yy < 192 implies cell(grid@, xx, yy) == (covered1(
                    vram@,
                    regs@,
                    s as int,
                    xx,
                    yy,
                ) || (covers1(vram@, regs@, s as int, xx, yy) && passed(
                    y as int,
                    sx + dx + 1,
                    xx,
                    yy,
                ))) by {
                    assert(cell(before, xx, yy) == (covered1(vram@, regs@, s as int, xx, yy) || (
                    covers1(vram@, regs@, s as int, xx, yy) && passed(
                        y as int,
                        sx + dx,
                        xx,
                        yy,
                    ))));
                    if xx == x && yy == y {
                    } else if 0 <= x < 256 {
                        assert(yy * 256 + xx != y * 256 + x);
                    }
                }
                dx = dx + 1;
            }
        }
        dy = dy + 1;
    }
    proof {
        assert forall|x: int, y: int| #[trigger] hits1(vram@, regs@, s as int, x, y) implies passed(
            sy + dy,
            sx as int,
            x,
            y,
        ) by {}
        assert forall|x: int, y: int|
            #![trigger cell(grid@, x, y)]
            0 <= x < 256 && 0 <= y < 192 implies cell(grid@, x, y) == covered1(
            vram@,
            regs@,
            s + 1,
            x,
            y,
        ) by {
            assert(cell(grid@, x, y) == (covered1(vram@, regs@, s as int, x, y) || (covers1(
                vram@,
                regs@,
                s as int,
                x,
                y,
            ) && passed(sy + dy, sx as int, x, y))));
        }
    }
    met
}

/// Whether two sprites have a dot at the same place.
fn any_collision1(vram: &Vec<u8>, regs: &[u8; 64], n: usize) -> (r: bool)
    requires
        vram.len() == SPRITE_VRAM,
        n == listed1(vram@, regs@),
        n <= 32,
    ensures
        r == collision1(vram@, regs@),
{
    let mut grid: Vec<bool> = vec![false; 49152];
    let mut met = false;
    let mut s: usize = 0;
    assert forall|x: int, y: int|
        #![trigger cell(grid@, x, y)]
        0 <= x < 256 && 0 <= y < 192 implies cell(grid@, x, y) == covered1(
        vram@,
        regs@,
        0,
        x,
        y,
    ) by {
        assert(0 <= y * 256 + x < 49152);
    }
    while s < n
        invariant
            vram.len() == SPRITE_VRAM,
            n == listed1(vram@, regs@),
            s <= n <= 32,
            grid.len() == 49152,
            forall|x: int, y: int|
                #![trigger cell(grid@, x, y)]
                0 <= x < 256 && 0 <= y < 192 ==> cell(grid@, x, y) == covered1(
                    vram@,
                    regs@,
                    s as int,
                    x,
                    y,
                ),
            met == exists|t: int, x: int, y: int|
                0 <= t < s && #[trigger] hits1(vram@, regs@, t, x, y),
        decreases n - s,
    {
        let here = draw_sprite1(vram, regs, s, &mut grid);
        met = met || here;
        s = s + 1;
    }
    met
}

/// S0 after a frame in sprite mode 1.
pub fn sprite_status1(vram: &Vec<u8>, regs: &[u8; 64], s0: u8) -> (r: u8)
    requires
        vram.len() == SPRITE_VRAM,
    ensures
        r == status1(vram@, regs@, s0),
{
    let n = count_listed(vram, attribute_table1(regs), 0xD0);
    let mut t: u8 = s0;
    if s0 & 0x40 == 0 {
        if let Some(s) = first_overflow1(vram, regs, n) {
            t = (s0 & 0xA0) | 0x40 | s;
        }
    }
    if any_collision1(vram, regs, n) {
        t = t | 0x20;
    }
    t
}

/// The sprite attribute table of mode 2.
pub open spec fn attributes2(regs: Seq<u8>) -> int {
    (regs[5] / 4) * 512 + (regs[11] % 4) * 32768
}

/// Visible lines.
pub open spec fn lines2(regs: Seq<u8>) -> int {
    if regs[9] & 0x80 != 0 {
        212
    } else {
        192
    }
}

/// Sprites in the list of mode 2.
pub open spec fn listed2(v: Seq<u8>, regs: Seq<u8>) -> int {
    listed(v, attributes2(regs), 216, 0)
}

/// Row of sprite `s` that a line shows, were it tall enough. The stored Y is
/// one less than the top line, and R23 scrolls the lines.
pub open spec fn row2(v: Seq<u8>, regs: Seq<u8>, s: int, line: int) -> int {
    (line + regs[23] - v[attributes2(regs) + 4 * s] - 1) % 256
}

/// Sprite `s` takes up part of a line in mode 2.
pub open spec fn on_line2(v: Seq<u8>, regs: Seq<u8>, s: int, line: int) -> bool {
    row2(v, regs, s, line) < edge(regs)
}

/// Sprites before `n` on a line.
pub open spec fn rank2(v: Seq<u8>, regs: Seq<u8>, line: int, n: int) -> int
    decreases n,
{
    if n <= 0 {
        0
    } else {
        rank2(v, regs, line, n - 1) + if on_line2(v, regs, n - 1, line) {
            1int
        } else {
            0
        }
    }
}

/// The first sprite from `s` on that comes ninth or later on its line.
pub open spec fn ninth_on_line2(v: Seq<u8>, regs: Seq<u8>, line: int, s: int) -> Option<int>
    decreases 32 - s,
{
    if s >= 32 || s >= listed2(v, regs) {
        None
    } else if on_line2(v, regs, s, line) && rank2(v, regs, line, s) >= 8 {
        Some(s)
    } else {
        ninth_on_line2(v, regs, line, s + 1)
    }
}

/// The ninth sprite of the first line, from `line` on, that has nine.
pub open spec fn overflow2(v: Seq<u8>, regs: Seq<u8>, line: int) -> Option<int>
    decreases 212 - line,
{
    if line >= 212 || line >= lines2(regs) {
        None
    } else {
        match ninth_on_line2(v, regs, line, 0) {
            Some(s) => Some(s),
            None => overflow2(v, regs, line + 1),
        }
    }
}

/// Row of the pattern and of the colour table.
pub open spec fn table_row2(v: Seq<u8>, regs: Seq<u8>, s: int, line: int) -> int {
    if magnified(regs) {
        row2(v, regs, s, line) / 2
    } else {
        row2(v, regs, s, line)
    }
}

/// Colour and flags of the row of sprite `s` that a line shows. The colour
/// table lies 512 bytes below the attributes.
pub open spec fn colour2(v: Seq<u8>, regs: Seq<u8>, s: int, line: int) -> u8 {
    v[(attributes2(regs) + SPRITE_VRAM - 512 + 16 * s + table_row2(v, regs, s, line))
        % SPRITE_VRAM as int]
}

/// Left column of sprite `s` on a line in mode 2.
pub open spec fn left2(v: Seq<u8>, regs: Seq<u8>, s: int, line: int) -> int {
    let x = v[attributes2(regs) + 4 * s + 1];
    if colour2(v, regs, s, line) & 0x80 != 0 {
        x - 32
    } else {
        x as int
    }
}

/// Sprite `s` is shown on a line and its dots count for collisions: it is one
/// of the first eight, has neither the CC nor the IC flag, and has a colour
/// (colour 0 counts where R8 makes it opaque).
pub open spec fn collides2(v: Seq<u8>, regs: Seq<u8>, s: int, line: int) -> bool {
    let c = colour2(v, regs, s, line);
    &&& on_line2(v, regs, s, line)
    &&& rank2(v, regs, line, s) < 8
    &&& c & 0x60 == 0
    &&& (c & 0x0F != 0 || regs[8] & 0x20 != 0)
}

/// Sprite `s` has a dot in column `x` of a line.
pub open spec fn covers2(v: Seq<u8>, regs: Seq<u8>, s: int, line: int, x: int) -> bool {
    let dx = x - left2(v, regs, s, line);
    &&& collides2(v, regs, s, line)
    &&& 0 <= dx < edge(regs)
    &&& dot(v, regs, v[attributes2(regs) + 4 * s + 2], dx, row2(v, regs, s, line))
}

/// Two sprites have a dot in column `x` of a line.
pub open spec fn meet2(v: Seq<u8>, regs: Seq<u8>, line: int, x: int) -> bool {
    exists|s: int, t: int|
        0 <= s < t < listed2(v, regs) && #[trigger] covers2(v, regs, s, line, x)
            && #[trigger] covers2(v, regs, t, line, x)
}

/// The first column, from `x` on, where two sprites meet on a line.
pub open spec fn meeting2(v: Seq<u8>, regs: Seq<u8>, line: int, x: int) -> Option<int>
    decreases 256 - x,
{
    if x >= 256 {
        None
    } else if meet2(v, regs, line, x) {
        Some(x)
    } else {
        meeting2(v, regs, line, x + 1)
    }
}

/// The first place, from `line` on, where two sprites meet: column and line.
pub open spec fn collision2(v: Seq<u8>, regs: Seq<u8>, line: int) -> Option<(int, int)>
    decreases 212 - line,
{
    if line >= 212 || line >= lines2(regs) {
        None
    } else {
        match meeting2(v, regs, line, 0) {
            Some(x) => Some((x, line)),
            None => collision2(v, regs, line + 1),
        }
    }
}

/// S0 after the overflow check of mode 2: a new overflow counts only while the
/// frame and overflow flags are down; without one the sprite number is that of
/// the last sprite looked at.
pub open spec fn overflow_status2(v: Seq<u8>, regs: Seq<u8>, s0: u8) -> u8 {
    let lo = s0 & 0x7F;
    let t = match overflow2(v, regs, 0) {
        Some(s) if s0 & 0xC0 == 0 => 0x40 | (lo & 0x20) | (s as u8 & 0x1F),
        _ => lo,
    };
    let last = if listed2(v, regs) < 31 {
        listed2(v, regs) as u8
    } else {
        31
    };
    let u = if t & 0x40 == 0 {
        (t & 0x20) | (last & 0x1F)
    } else {
        t
    };
    (s0 & 0x80) | (u & 0x7F)
}

fn attribute_table2(regs: &[u8; 64]) -> (r: usize)
    ensures
        r == attributes2(regs@),
        r + 128 <= SPRITE_VRAM,
{
    (regs[5] / 4) as usize * 512 + (regs[11] % 4) as usize * 32768
}

fn visible_lines2(regs: &[u8; 64]) -> (r: i32)
    ensures
        r == lines2(regs@),
        r == 192 || r == 212,
{
    if regs[9] & 0x80 != 0 {
        212
    } else {
        192
    }
}

fn sprite_row2(vram: &Vec<u8>, regs: &[u8; 64], s: usize, line: i32) -> (r: i32)
    requires
        vram.len() == SPRITE_VRAM,
        s < 32,
        0 <= line < 212,
    ensures
        r == row2(vram@, regs@, s as int, line as int),
        0 <= r < 256,
{
    let y = vram[attribute_table2(regs) + 4 * s] as i32;
    (line + regs[23] as i32 + 512 - y - 1) % 256
}

/// The first sprite that comes ninth on its line.
fn ninth_sprite2(vram: &Vec<u8>, regs: &[u8; 64], line: i32, n: usize) -> (r: Option<u8>)
    requires
        vram.len() == SPRITE_VRAM,
        0 <= line < 212,
        n == listed2(vram@, regs@),
        n <= 32,
    ensures
        match r {
            Some(s) => ninth_on_line2(vram@, regs@, line as int, 0) == Some(s as int) && s < 32,
            None => ninth_on_line2(vram@, regs@, line as int, 0) is None,
        },
{
    let size = sprite_edge(regs[1]);
    let mut s: usize = 0;
    let mut rank: u32 = 0;
    while s < n
        invariant
            vram.len() == SPRITE_VRAM,
            0 <= line < 212,
            n == listed2(vram@, regs@),
            s <= n <= 32,
            rank <= s,
            rank == rank2(vram@, regs@, line as int, s as int),
            size == edge(regs@),
            ninth_on_line2(vram@, regs@, line as int, 0) == ninth_on_line2(
                vram@,
                regs@,
                line as int,
                s as int,
            ),
        decreases n - s,
    {
        if sprite_row2(vram, regs, s, line) < size {
            if rank >= 8 {
                return Some(s as u8);
            }
            rank = rank + 1;
        }
        s = s + 1;
    }
    None
}

/// The ninth sprite of the first line that has nine.
fn first_overflow2(vram: &Vec<u8>, regs: &[u8; 64], n: usize) -> (r: Option<u8>)
    requires
        vram.len() == SPRITE_VRAM,
        n == listed2(vram@, regs@),
        n <= 32,
    ensures
        match r {
            Some(s) => overflow2(vram@, regs@, 0) == Some(s as int) && s < 32,
            None => overflow2(vram@, regs@, 0) is None,
        },
{
    let lines = visible_lines2(regs);
    let mut line: i32 = 0;
    while line < lines
        invariant
            vram.len() == SPRITE_VRAM,
            n == listed2(vram@, regs@),
            n <= 32,
            lines == lines2(regs@),
            lines <= 212,
            0 <= line <= lines,
            overflow2(vram@, regs@, 0) == overflow2(vram@, regs@, line as int),
        decreases lines - line,
    {
        if let Some(s) = ninth_sprite2(vram, regs, line, n) {
            return Some(s);
        }
        line = line + 1;
    }
    None
}

/// Bit `k` of a row of dots, counted from the left.
pub open spec fn dot_of(p: u32, k: int) -> bool {
    (p >> ((31 - k) as u32)) & 1 == 1
}

proof fn lemma_place8(b: u8, k: u32, j: u8)
    by (bit_vector)
    requires
        k < 32,
        k < 8 ==> j == 7 - k,
    ensures
        k < 8 ==> (((b as u32) << 24) >> ((31 - k) as u32)) & 1 == ((b >> j) & 1) as u32,
        k >= 8 ==> (((b as u32) << 24) >> ((31 - k) as u32)) & 1 == 0,
        ((b as u32) << 24) & 0xFFFF == 0,
{
}

proof fn lemma_place16(a: u8, b: u8, k: u32, j: u8)
    by (bit_vector)
    requires
        k < 32,
        k < 16 ==> j == 7 - k % 8,
    ensures
        k < 8 ==> (((((a as u32) << 8) | (b as u32)) << 16) >> ((31 - k) as u32)) & 1 == ((a >> j)
            & 1) as u32,
        8 <= k < 16 ==> (((((a as u32) << 8) | (b as u32)) << 16) >> ((31 - k) as u32)) & 1 == ((b
            >> j) & 1) as u32,
        k >= 16 ==> (((((a as u32) << 8) | (b as u32)) << 16) >> ((31 - k) as u32)) & 1 == 0,
        ((((a as u32) << 8) | (b as u32)) << 16) & 0xFFFF == 0,
{
}

proof fn lemma_double(p: u32, q: u32, r: u32, s: u32, t: u32, k: u32)
    by (bit_vector)
    requires
        k < 32,
        p & 0xFFFF == 0,
        q == (p | (p >> 8)) & 0xFF00FF00,
        r == (q | (q >> 4)) & 0xF0F0F0F0,
        s == (r | (r >> 2)) & 0xCCCCCCCC,
        t == (s | (s >> 1)) & 0xAAAAAAAA,
    ensures
        ((t | (t >> 1)) >> ((31 - k) as u32)) & 1 == (p >> ((31 - k / 2) as u32)) & 1,
{
}

/// Row of dots of a sprite pattern, the leftmost in bit 31.
fn build_sprite_pattern_mode2(vram: &Vec<u8>, regs: &[u8; 64], pat: u8, row: i32) -> (r: u32)
    requires
        vram.len() == SPRITE_VRAM,
        0 <= row < edge(regs@),
    ensures
        forall|k: int|
            0 <= k < 32 ==> #[trigger] dot_of(r, k) == (k < edge(regs@) && dot(
                vram@,
                regs@,
                pat,
                k,
                row as int,
            )),
{
    let mag = regs[1] & 0x01 != 0;
    let ly: usize = if mag {
        row as usize / 2
    } else {
        row as usize
    };
    let sg = (regs[6] % 64) as usize * 2048;
    let large = regs[1] & 0x02 != 0;
    let placed: u32;
    if large {
        let left = vram[sg + ((pat / 4) as usize * 4 + ly / 8) * 8 + ly % 8];
        let right = vram[sg + ((pat / 4) as usize * 4 + 2 + ly / 8) * 8 + ly % 8];
        placed = (((left as u32) << 8) | (right as u32)) << 16;
        proof {
            assert forall|k: u32| k < 32 implies #[trigger] dot_of(placed, k as int) == (k < 16
                && bit_of(
                if k < 8 {
                    left
                } else {
                    right
                },
                7 - k % 8,
            )) by {
                lemma_place16(left, right, k, (7 - k % 8) as u8);
            }
            lemma_place16(left, right, 0, 7);
        }
    } else {
        let b = vram[sg + pat as usize * 8 + ly];
        placed = (b as u32) << 24;
        proof {
            assert forall|k: u32| k < 32 implies #[trigger] dot_of(placed, k as int) == (k < 8
                && bit_of(b, 7 - k)) by {
                let j: u8 = if k < 8 {
                    (7 - k) as u8
                } else {
                    0
                };
                lemma_place8(b, k, j);
            }
            lemma_place8(b, 0, 7);
        }
    }
    if !mag {
        assert forall|k: int| 0 <= k < 32 implies #[trigger] dot_of(placed, k) == (k < edge(regs@)
            && dot(vram@, regs@, pat, k, row as int)) by {
            assert(dot_of(placed, k as u32 as int) == dot_of(placed, k));
        }
        return placed;
    }
    let q: u32 = (placed | (placed >> 8)) & 0xFF00FF00;
    let r: u32 = (q | (q >> 4)) & 0xF0F0F0F0;
    let s: u32 = (r | (r >> 2)) & 0xCCCCCCCC;
    let t: u32 = (s | (s >> 1)) & 0xAAAAAAAA;
    let out: u32 = t | (t >> 1);
    assert forall|k: int| 0 <= k < 32 implies #[trigger] dot_of(out, k) == (k < edge(regs@) && dot(
        vram@,
        regs@,
        pat,
        k,
        row as int,
    )) by {
        lemma_double(placed, q, r, s, t, k as u32);
        let h = (k as u32 / 2) as int;
        assert(dot_of(out, k) == dot_of(placed, h as u32 as int));
    }
    out
}

/// A sprite as a line shows it.
#[derive(Copy, Clone)]
struct LineSprite {
    x: i32,
    pattern: u32,
}

/// The sprite has a dot in column `x`.
spec fn lit(p: LineSprite, x: int) -> bool {
    0 <= x - p.x < 32 && dot_of(p.pattern, x - p.x)
}

/// Two sprites of a list have a dot in column `x`.
spec fn lit_twice(list: Seq<LineSprite>, x: int) -> bool {
    exists|i: int, j: int|
        0 <= i < j < list.len() && #[trigger] lit(list[i], x) && #[trigger] lit(list[j], x)
}

/// The sprites before `n` whose dots count on a line.
spec fn colliders2(v: Seq<u8>, regs: Seq<u8>, line: int, n: int) -> Seq<int>
    decreases n,
{
    if n <= 0 {
        Seq::empty()
    } else {
        let prev = colliders2(v, regs, line, n - 1);
        if collides2(v, regs, n - 1, line) {
            prev.push(n - 1)
        } else {
            prev
        }
    }
}

proof fn lemma_colliders(v: Seq<u8>, regs: Seq<u8>, line: int, n: int)
    requires
        n >= 0,
    ensures
        forall|i: int|
            0 <= i < colliders2(v, regs, line, n).len() ==> {
                let s = #[trigger] colliders2(v, regs, line, n)[i];
                0 <= s < n && collides2(v, regs, s, line)
            },
        forall|i: int, j: int|
            0 <= i < j < colliders2(v, regs, line, n).len() ==> #[trigger] colliders2(
                v,
                regs,
                line,
                n,
            )[i] < #[trigger] colliders2(v, regs, line, n)[j],
        forall|s: int|
            0 <= s < n && #[trigger] collides2(v, regs, s, line) ==> colliders2(
                v,
                regs,
                line,
                n,
            ).contains(s),
    decreases n,
{
    if n > 0 {
        lemma_colliders(v, regs, line, n - 1);
        let prev = colliders2(v, regs, line, n - 1);
        let all = colliders2(v, regs, line, n);
        assert forall|s: int| 0 <= s < n && #[trigger] collides2(
            v,
            regs,
            s,
            line,
        ) implies all.contains(s) by {
            if s == n - 1 {
                assert(all[all.len() - 1] == s);
            } else {
                let i = choose|i: int| 0 <= i < prev.len() && prev[i] == s;
                assert(all[i] == s);
            }
        }
    }
}

/// The list stands for the sprites whose dots count on a line.
spec fn stands_for(
    list: Seq<LineSprite>,
    v: Seq<u8>,
    regs: Seq<u8>,
    line: int,
    ids: Seq<int>,
) -> bool {
    &&& list.len() == ids.len()
    &&& forall|i: int, x: int|
        0 <= i < ids.len() ==> #[trigger] lit(list[i], x) == covers2(v, regs, ids[i], line, x)
}

proof fn lemma_lit_twice(list: Seq<LineSprite>, v: Seq<u8>, regs: Seq<u8>, line: int, x: int)
    requires
        stands_for(list, v, regs, line, colliders2(v, regs, line, listed2(v, regs))),
        listed2(v, regs) >= 0,
    ensures
        lit_twice(list, x) == meet2(v, regs, line, x),
{
    let n = listed2(v, regs);
    let ids = colliders2(v, regs, line, n);
    lemma_colliders(v, regs, line, n);
    if lit_twice(list, x) {
        let (i, j) = choose|i: int, j: int|
            0 <= i < j < list.len() && #[trigger] lit(list[i], x) && #[trigger] lit(list[j], x);
        assert(ids[i] < ids[j]);
        assert(covers2(v, regs, ids[i], line, x) && covers2(v, regs, ids[j], line, x));
    }
    if meet2(v, regs, line, x) {
        let (s, t) = choose|s: int, t: int|
            0 <= s < t < n && #[trigger] covers2(v, regs, s, line, x) && #[trigger] covers2(
                v,
                regs,
                t,
                line,
                x,
            );
        assert(collides2(v, regs, s, line) && collides2(v, regs, t, line));
        let i = choose|i: int| 0 <= i < ids.len() && ids[i] == s;
        let j = choose|j: int| 0 <= j < ids.len() && ids[j] == t;
        if j < i {
            assert(ids[j] < ids[i]);
        }
        assert(lit(list[i], x) && lit(list[j], x));
    }
}

/// Sprite `s` as a line shows it, if its dots count.
fn line_sprite2(vram: &Vec<u8>, regs: &[u8; 64], line: i32, s: usize, row: i32) -> (r: Option<
    LineSprite,
>)
    requires
        vram.len() == SPRITE_VRAM,
        0 <= line < 212,
        s < 32,
        row == row2(vram@, regs@, s as int, line as int),
        0 <= row < edge(regs@),
        rank2(vram@, regs@, line as int, s as int) < 8,
    ensures
        match r {
            Some(p) => {
                &&& -32 <= p.x <= 255
                &&& collides2(vram@, regs@, s as int, line as int)
                &&& forall|x: int|
                    #[trigger] lit(p, x) == covers2(vram@, regs@, s as int, line as int, x)
            },
            None => !collides2(vram@, regs@, s as int, line as int),
        },
{
    let table = attribute_table2(regs);
    let ly: usize = if regs[1] & 0x01 != 0 {
        row as usize / 2
    } else {
        row as usize
    };
    let colour = vram[(table + SPRITE_VRAM - 512 + 16 * s + ly) % SPRITE_VRAM];
    if colour & 0x60 != 0 || (colour & 0x0F == 0 && regs[8] & 0x20 == 0) {
        return None;
    }
    let x_raw = vram[table + 4 * s + 1] as i32;
    let x: i32 = if colour & 0x80 != 0 {
        x_raw - 32
    } else {
        x_raw
    };
    let pat = vram[table + 4 * s + 2];
    let pattern = build_sprite_pattern_mode2(vram, regs, pat, row);
    let p = LineSprite { x, pattern };
    assert(edge(regs@) <= 32);
    assert forall|c: int| #[trigger] lit(p, c) == covers2(
        vram@,
        regs@,
        s as int,
        line as int,
        c,
    ) by {
        assert(dot_of(pattern, c - x) == dot_of(pattern, c - x));
    }
    Some(p)
}

/// The sprites whose dots count on a line.
fn line_sprites2(vram: &Vec<u8>, regs: &[u8; 64], line: i32, n: usize) -> (r: Vec<LineSprite>)
    requires
        vram.len() == SPRITE_VRAM,
        0 <= line < 212,
        n <= 32,
    ensures
        stands_for(
            r@,
            vram@,
            regs@,
            line as int,
            colliders2(vram@, regs@, line as int, n as int),
        ),
        forall|i: int| 0 <= i < r.len() ==> -32 <= (#[trigger] r@[i]).x <= 255,
{
    let size = sprite_edge(regs[1]);
    let mut list: Vec<LineSprite> = Vec::new();
    let mut s: usize = 0;
    let mut rank: u32 = 0;
    while s < n
        invariant
            vram.len() == SPRITE_VRAM,
            0 <= line < 212,
            s <= n <= 32,
            rank <= s,
            rank == rank2(vram@, regs@, line as int, s as int),
            size == edge(regs@),
            stands_for(
                list@,
                vram@,
                regs@,
                line as int,
                colliders2(vram@, regs@, line as int, s as int),
            ),
            forall|i: int| 0 <= i < list.len() ==> -32 <= (#[trigger] list@[i]).x <= 255,
        decreases n - s,
    {
        let row = sprite_row2(vram, regs, s, line);
        if row < size {
            if rank < 8 {
                let ghost before = list@;
                if let Some(p) = line_sprite2(vram, regs, line, s, row) {
                    list.push(p);
                    proof {
                        let ids = colliders2(vram@, regs@, line as int, s + 1);
                        assert forall|i: int, x: int| 0 <= i < ids.len() implies #[trigger] lit(
                            list@[i],
                            x,
                        ) == covers2(vram@, regs@, ids[i], line as int, x) by {
                            if i < before.len() {
                                assert(list@[i] == before[i]);
                                assert(lit(before[i], x) == covers2(
                                    vram@,
                                    regs@,
                                    ids[i],
                                    line as int,
                                    x,
                                ));
                            }
                        }
                    }
                }
            }
            rank = rank + 1;
        }
        s = s + 1;
    }
    list
}

/// Whether two sprites of a list have a dot in column `x`.
fn two_lit(list: &Vec<LineSprite>, x: i32) -> (r: bool)
    requires
        0 <= x < 256,
        forall|i: int| 0 <= i < list.len() ==> -32 <= (#[trigger] list@[i]).x <= 255,
    ensures
        r == lit_twice(list@, x as int),
{
    let mut seen = false;
    let mut i: usize = 0;
    while i < list.len()
        invariant
            0 <= x < 256,
            i <= list.len(),
            forall|k: int| 0 <= k < list.len() ==> -32 <= (#[trigger] list@[k]).x <= 255,
            seen == exists|k: int| 0 <= k < i && #[trigger] lit(list@[k], x as int),
            forall|k: int, m: int|
                0 <= k < m < i ==> !(#[trigger] lit(list@[k], x as int) && #[trigger] lit(
                    list@[m],
                    x as int,
                )),
        decreases list.len() - i,
    {
        let p = list[i];
        let d = x - p.x;
        if 0 <= d && d < 32 && (p.pattern >> ((31 - d) as u32)) & 1 == 1 {
            assert(lit(list@[i as int], x as int));
            if seen {
                return true;
            }
            seen = true;
        }
        i = i + 1;
    }
    false
}

/// The first column where two sprites meet on a line.
fn first_meeting2(vram: &Vec<u8>, regs: &[u8; 64], line: i32, n: usize) -> (r: Option<i32>)
    requires
        vram.len() == SPRITE_VRAM,
        0 <= line < 212,
        n == listed2(vram@, regs@),
        n <= 32,
    ensures
        match r {
            Some(x) => meeting2(vram@, regs@, line as int, 0) == Some(x as int) && 0 <= x < 256,
            None => meeting2(vram@, regs@, line as int, 0) is None,
        },
{
    let list = line_sprites2(vram, regs, line, n);
    let mut x: i32 = 0;
    while x < 256
        invariant
            vram.len() == SPRITE_VRAM,
            n == listed2(vram@, regs@),
            n <= 32,
            0 <= x <= 256,
            forall|i: int| 0 <= i < list.len() ==> -32 <= (#[trigger] list@[i]).x <= 255,
            stands_for(
                list@,
                vram@,
                regs@,
                line as int,
                colliders2(vram@, regs@, line as int, n as int),
            ),
            meeting2(vram@, regs@, line as int, 0) == meeting2(
                vram@,
                regs@,
                line as int,
                x as int,
            ),
        decreases 256 - x,
    {
        proof {
            lemma_lit_twice(list@, vram@, regs@, line as int, x as int);
        }
        if two_lit(&list, x) {
            return Some(x);
        }
        x = x + 1;
    }
    None
}

/// The first place where two sprites meet: column and line.
fn first_collision2(vram: &Vec<u8>, regs: &[u8; 64], n: usize) -> (r: Option<(i32, i32)>)
    requires
        vram.len() == SPRITE_VRAM,
        n == listed2(vram@, regs@),
        n <= 32,
    ensures
        match r {
            Some((x, line)) => collision2(vram@, regs@, 0) == Some((x as int, line as int)) && 0
                <= x < 256 && 0 <= line < 212,
            None => collision2(vram@, regs@, 0) is None,
        },
{
    let lines = visible_lines2(regs);
    let mut line: i32 = 0;
    while line < lines
        invariant
            vram.len() == SPRITE_VRAM,
            n == listed2(vram@, regs@),
            n <= 32,
            lines == lines2(regs@),
            lines <= 212,
            0 <= line <= lines,
            collision2(vram@, regs@, 0) == collision2(vram@, regs@, line as int),
        decreases lines - line,
    {
        if let Some(x) = first_meeting2(vram, regs, line, n) {
            return Some((x, line));
        }
        line = line + 1;
    }
    None
}

/// Status registers after a frame in mode 2. A collision is reported while none
/// is pending: bit 5 of S0, and the place in S3 to S6 with the offsets of the
/// display area; the unused bits of S4 and S6 are up.
pub open spec fn status2(v: Seq<u8>, regs: Seq<u8>, status: Seq<u8>) -> Seq<u8> {
    let s0 = overflow_status2(v, regs, status[0]);
    let t = status.update(0, s0);
    if s0 & 0x20 != 0 {
        t
    } else {
        match collision2(v, regs, 0) {
            None => t,
            Some((x, line)) => t.update(0, s0 | 0x20).update(3, ((x + 12) % 256) as u8).update(
                4,
                if x + 12 < 256 {
                    0xFE
                } else {
                    0xFF
                },
            ).update(5, ((line + 8) % 256) as u8).update(6, 0xFC),
        }
    }
}

/// Update the status registers after a frame in sprite mode 2.
pub fn sprite_status2(vram: &Vec<u8>, regs: &[u8; 64], status: &mut [u8; 10])
    requires
        vram.len() == SPRITE_VRAM,
    ensures
        final(status)@ == status2(vram@, regs@, old(status)@),
{
    let n = count_listed(vram, attribute_table2(regs), 216);
    let s0 = status[0];
    let lo = s0 & 0x7F;
    let mut t: u8 = lo;
    if let Some(s) = first_overflow2(vram, regs, n) {
        if s0 & 0xC0 == 0 {
            t = 0x40 | (lo & 0x20) | (s & 0x1F);
        }
    }
    if t & 0x40 == 0 {
        let last: u8 = if n < 31 {
            n as u8
        } else {
            31
        };
        t = (t & 0x20) | (last & 0x1F);
    }
    let new0 = (s0 & 0x80) | (t & 0x7F);
    status[0] = new0;
    if new0 & 0x20 != 0 {
        return ;
    }
    if let Some((x, line)) = first_collision2(vram, regs, n) {
        status[0] = new0 | 0x20;
        status[3] = ((x + 12) % 256) as u8;
        status[4] = if x + 12 < 256 {
            0xFE
        } else {
            0xFF
        };
        status[5] = ((line + 8) % 256) as u8;
        status[6] = 0xFC;
    }
}

proof fn lemma_status_bits(s: u8, n: u8, m: u8)
    by (bit_vector)
    requires
        n < 32,
    ensures
        (s | 0x20) & 0x5F == s & 0x5F,
        (s | 0x20) & 0x80 == s & 0x80,
        (s | 0x20) & 0x20 != 0,
        ((s & 0xA0) | 0x40 | n) & 0x80 == s & 0x80,
        ((s & 0xA0) | 0x40 | n) & 0x20 == s & 0x20,
        s & 0x40 != 0 ==> (s & 0x7F) & 0x40 != 0 && s & 0xC0 != 0,
        (s & 0x80) | ((s & 0x7F) & 0x7F) == s,
        ((s & 0x80) | (m & 0x7F)) & 0x80 == s & 0x80,
        ((s & 0x80) | (m & 0x7F)) & 0x20 == m & 0x20,
        (0x40 | ((s & 0x7F) & 0x20) | (m & 0x1F)) & 0x20 == s & 0x20,
        (s & 0x7F) & 0x20 == s & 0x20,
        ((s & 0x20) | (m & 0x1F)) & 0x20 == s & 0x20,
{
}

proof fn lemma_overflow1(v: Seq<u8>, regs: Seq<u8>, line: int)
    ensures
        overflow1(v, regs, line) matches Some(s) ==> 0 <= s < 32,
    decreases 192 - line,
{
    if line < 192 {
        lemma_nth1(v, regs, line, 0, 5);
        lemma_overflow1(v, regs, line + 1);
    }
}

proof fn lemma_nth1(v: Seq<u8>, regs: Seq<u8>, line: int, s: int, k: int)
    requires
        0 <= s,
    ensures
        nth_on_line1(v, regs, line, s, k) matches Some(t) ==> 0 <= t < 32,
    decreases 33 - s,
{
    if s < 32 {
        lemma_nth1(v, regs, line, s + 1, k);
        lemma_nth1(v, regs, line, s + 1, k - 1);
    }
}

/// The overflow flag sticks: until S0 is read, neither it nor the sprite number
/// changes, in either mode.
pub proof fn law_overflow_sticks(v: Seq<u8>, regs: Seq<u8>, status: Seq<u8>)
    requires
        status.len() == 10,
        status[0] & 0x40 != 0,
    ensures
        status1(v, regs, status[0]) & 0x5F == status[0] & 0x5F,
        status2(v, regs, status)[0] & 0x5F == status[0] & 0x5F,
{
    lemma_status_bits(status[0], 0, 0);
}

/// A new frame takes back neither the frame flag nor a collision, and the place
/// of a collision stays as long as the collision does.
pub proof fn law_flags_stay(v: Seq<u8>, regs: Seq<u8>, status: Seq<u8>)
    requires
        status.len() == 10,
    ensures
        status1(v, regs, status[0]) & 0x80 == status[0] & 0x80,
        status[0] & 0x20 != 0 ==> status1(v, regs, status[0]) & 0x20 != 0,
        status2(v, regs, status)[0] & 0x80 == status[0] & 0x80,
        status[0] & 0x20 != 0 ==> status2(v, regs, status)[0] & 0x20 != 0 && forall|i: int|
            1 <= i < 10 ==> status2(v, regs, status)[i] == status[i],
{
    let s0 = status[0];
    lemma_overflow1(v, regs, 0);
    let n = match overflow1(v, regs, 0) {
        Some(s) => s as u8,
        None => 0,
    };
    lemma_status_bits(s0, n, 0);
    lemma_status_bits((s0 & 0xA0) | 0x40 | n, 0, 0);
    let lo = s0 & 0x7F;
    let m = match overflow2(v, regs, 0) {
        Some(s) => s as u8,
        None => 0,
    };
    lemma_status_bits(s0, 0, m);
    let t = match overflow2(v, regs, 0) {
        Some(s) if s0 & 0xC0 == 0 => 0x40 | (lo & 0x20) | (s as u8 & 0x1F),
        _ => lo,
    };
    let last = if listed2(v, regs) < 31 {
        listed2(v, regs) as u8
    } else {
        31
    };
    lemma_status_bits(t, 0, last);
    let u = if t & 0x40 == 0 {
        (t & 0x20) | (last & 0x1F)
    } else {
        t
    };
    lemma_status_bits(s0, 0, u);
    lemma_status_bits(overflow_status2(v, regs, s0), 0, 0);
}

} // verus!
