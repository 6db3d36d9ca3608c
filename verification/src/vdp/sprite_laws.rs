//! Where the dots of sprites lie, and what the status registers say of them.
#[allow(unused_imports)]
use crate::vdp::sprites;
use vstd::prelude::*;

verus! {

/// Bit `k` of a byte, by division.
pub open spec fn bit(b: u8, k: int) -> bool {
    let weight: int = if k == 0 {
        1
    } else if k == 1 {
        2
    } else if k == 2 {
        4
    } else if k == 3 {
        8
    } else if k == 4 {
        16
    } else if k == 5 {
        32
    } else if k == 6 {
        64
    } else {
        128
    };
    (b as int / weight) % 2 == 1
}

proof fn lemma_shifts(b: u8)
    by (bit_vector)
    ensures
        (b >> 0u8) & 1 == b % 2,
        (b >> 1u8) & 1 == (b / 2) % 2,
        (b >> 2u8) & 1 == (b / 4) % 2,
        (b >> 3u8) & 1 == (b / 8) % 2,
        (b >> 4u8) & 1 == (b / 16) % 2,
        (b >> 5u8) & 1 == (b / 32) % 2,
        (b >> 6u8) & 1 == (b / 64) % 2,
        (b >> 7u8) & 1 == b / 128,
        (b & 0x01 != 0) == (b % 2 == 1),
        (b & 0x02 != 0) == ((b / 2) % 2 == 1),
        (b & 0x0F != 0) == (b % 16 != 0),
        (b & 0x20 != 0) == ((b / 32) % 2 == 1),
        (b & 0x40 != 0) == ((b / 64) % 2 == 1),
        (b & 0x60 == 0) == ((b / 32) % 4 == 0),
        (b & 0x80 != 0) == (b >= 128),
{
}

proof fn lemma_bit(b: u8, k: int)
    requires
        0 <= k < 8,
    ensures
        sprites::bit_of(b, k) == bit(b, k),
{
    lemma_shifts(b);
}

/// An unmagnified 16 x 16 sprite is 32 bytes of the generator table, which starts at
/// 2048 times the low six bits of R6, from 8 times the pattern number rounded down to
/// a multiple of four: the left half from top to bottom, then the right half. The
/// leftmost dot of a byte is its highest bit.
pub proof fn law_large_pattern(v: Seq<u8>, regs: Seq<u8>, pattern: u8, dx: int, dy: int)
    requires
        (regs[1] / 2) % 2 == 1,
        regs[1] % 2 == 0,
        0 <= dx < 16,
        0 <= dy < 16,
    ensures
        sprites::dot(v, regs, pattern, dx, dy) == bit(
            v[2048 * (regs[6] % 64) + 8 * (pattern - pattern % 4) + dy + 16 * (dx / 8)],
            7 - dx % 8,
        ),
{
    lemma_shifts(regs[1]);
    let a = 2048 * (regs[6] % 64) + 8 * (pattern - pattern % 4) + dy + 16 * (dx / 8);
    lemma_bit(v[a], 7 - dx % 8);
}

/// An unmagnified 8 x 8 sprite is the eight bytes of its pattern, from top to bottom.
pub proof fn law_small_pattern(v: Seq<u8>, regs: Seq<u8>, pattern: u8, dx: int, dy: int)
    requires
        (regs[1] / 2) % 2 == 0,
        regs[1] % 2 == 0,
        0 <= dx < 8,
        0 <= dy < 8,
    ensures
        sprites::dot(v, regs, pattern, dx, dy) == bit(
            v[2048 * (regs[6] % 64) + 8 * pattern + dy],
            7 - dx,
        ),
{
    lemma_shifts(regs[1]);
    lemma_bit(v[2048 * (regs[6] % 64) + 8 * pattern + dy], 7 - dx);
}

/// Bit 0 of R1 makes every dot of a sprite two wide and two high.
pub proof fn law_magnified_pattern(v: Seq<u8>, regs: Seq<u8>, pattern: u8, dx: int, dy: int)
    requires
        regs.len() == 64,
        regs[1] % 2 == 1,
        0 <= dx < 32,
        0 <= dy < 32,
    ensures
        ({
            let plain = regs.update(1, (regs[1] - 1) as u8);
            &&& sprites::dot(v, regs, pattern, dx, dy) == sprites::dot(
                v,
                plain,
                pattern,
                dx / 2,
                dy / 2,
            )
            &&& sprites::edge(regs) == 2 * sprites::edge(plain)
        }),
{
    lemma_shifts(regs[1]);
    lemma_shifts((regs[1] - 1) as u8);
}

/// Dots across and down: 8, or 16 with bit 1 of R1 up, and twice that with bit 0 up.
pub open spec fn size(regs: Seq<u8>) -> int {
    (if (regs[1] / 2) % 2 == 1 {
        16int
    } else {
        8
    }) * (if regs[1] % 2 == 1 {
        2int
    } else {
        1
    })
}

/// Dot `(dx, dy)` of a pattern as it stands on the screen.
pub open spec fn shape(v: Seq<u8>, regs: Seq<u8>, pattern: u8, dx: int, dy: int) -> bool {
    let x = if regs[1] % 2 == 1 {
        dx / 2
    } else {
        dx
    };
    let y = if regs[1] % 2 == 1 {
        dy / 2
    } else {
        dy
    };
    let table = 2048 * (regs[6] % 64);
    if (regs[1] / 2) % 2 == 1 {
        bit(v[table + 8 * (pattern - pattern % 4) + y + 16 * (x / 8)], 7 - x % 8)
    } else {
        bit(v[table + 8 * pattern + y], 7 - x)
    }
}

/// Patterns come from the generator table in every size.
pub proof fn law_patterns(v: Seq<u8>, regs: Seq<u8>, pattern: u8, dx: int, dy: int)
    requires
        0 <= dx < size(regs),
        0 <= dy < size(regs),
    ensures
        sprites::edge(regs) == size(regs),
        sprites::dot(v, regs, pattern, dx, dy) == shape(v, regs, pattern, dx, dy),
{
    lemma_shifts(regs[1]);
    let x = if regs[1] % 2 == 1 {
        dx / 2
    } else {
        dx
    };
    let y = if regs[1] % 2 == 1 {
        dy / 2
    } else {
        dy
    };
    let table = 2048 * (regs[6] % 64);
    lemma_bit(v[table + 8 * (pattern - pattern % 4) + y + 16 * (x / 8)], 7 - x % 8);
    lemma_bit(v[table + 8 * pattern + y], 7 - x % 8);
}

/// Sprite `s` comes before the first Y that ends the list.
pub open spec fn in_list(v: Seq<u8>, table: int, mark: u8, s: int) -> bool {
    &&& 0 <= s < 32
    &&& forall|q: int| 0 <= q <= s ==> #[trigger] v[table + 4 * q] != mark
}

proof fn lemma_in_list(v: Seq<u8>, table: int, mark: u8, from: int)
    requires
        0 <= from <= 32,
        forall|q: int| 0 <= q < from ==> #[trigger] v[table + 4 * q] != mark,
    ensures
        from <= sprites::listed(v, table, mark, from) <= 32,
        forall|s: int|
            #[trigger] in_list(v, table, mark, s) <==> 0 <= s < sprites::listed(
                v,
                table,
                mark,
                from,
            ),
    decreases 32 - from,
{
    if from < 32 {
        if v[table + 4 * from] != mark {
            lemma_in_list(v, table, mark, from + 1);
        }
    }
}

/// The attributes of sprite `s` in mode 1: R5 times 128, and the low two bits of R11
/// above that.
pub open spec fn entry1(regs: Seq<u8>, s: int) -> int {
    32768 * (regs[11] % 4) + 128 * regs[5] + 4 * s
}

/// Row of sprite `s` on a line in mode 1. The first byte is one less than the top
/// line, and counts from -17 on once it is above 238.
pub open spec fn row1(v: Seq<u8>, regs: Seq<u8>, s: int, line: int) -> int {
    let y = v[entry1(regs, s)];
    if y > 238 {
        line - (y - 256) - 1
    } else {
        line - y - 1
    }
}

/// Sprite `s` is listed and takes up part of a line in mode 1. A Y of 208 ends the
/// list.
pub open spec fn stands1(v: Seq<u8>, regs: Seq<u8>, s: int, line: int) -> bool {
    in_list(v, entry1(regs, 0), 208, s) && 0 <= row1(v, regs, s, line) < size(regs)
}

/// Sprite `s` has a visible dot at a place of the screen in mode 1: the second byte
/// is its left column, the third its pattern, the fourth its colour, with bit 7 up
/// for 32 columns to the left. Colour 0 is invisible.
pub open spec fn shows1(v: Seq<u8>, regs: Seq<u8>, s: int, x: int, line: int) -> bool {
    let a = entry1(regs, s);
    let dx = x - v[a + 1] + (if v[a + 3] >= 128 {
        32int
    } else {
        0
    });
    &&& stands1(v, regs, s, line)
    &&& v[a + 3] % 16 != 0
    &&& 0 <= dx < size(regs)
    &&& shape(v, regs, v[a + 2], dx, row1(v, regs, s, line))
}

/// Two sprites have a visible dot at one place of the screen.
pub open spec fn touch1(v: Seq<u8>, regs: Seq<u8>) -> bool {
    exists|s: int, t: int, x: int, line: int|
        s != t && 0 <= x < 256 && 0 <= line < 192 && #[trigger] shows1(v, regs, s, x, line)
            && #[trigger] shows1(v, regs, t, x, line)
}

/// Sprites before sprite `n` on a line in mode 1.
pub open spec fn crowd1(v: Seq<u8>, regs: Seq<u8>, line: int, n: int) -> int
    decreases n,
{
    if n <= 0 {
        0
    } else {
        crowd1(v, regs, line, n - 1) + (if stands1(v, regs, n - 1, line) {
            1int
        } else {
            0
        })
    }
}

/// Sprite `s` is the fifth on a line.
pub open spec fn fifth(v: Seq<u8>, regs: Seq<u8>, line: int, s: int) -> bool {
    stands1(v, regs, s, line) && crowd1(v, regs, line, s) == 4
}

proof fn lemma_mode1(v: Seq<u8>, regs: Seq<u8>)
    ensures
        0 <= sprites::listed1(v, regs) <= 32,
        forall|s: int, line: int|
            #[trigger] stands1(v, regs, s, line) <==> 0 <= s < sprites::listed1(v, regs)
                && sprites::on_line1(v, regs, s, line),
        forall|s: int, x: int, y: int|
            #[trigger] shows1(v, regs, s, x, y) <==> 0 <= s < sprites::listed1(v, regs)
                && sprites::covers1(v, regs, s, x, y),
{
    lemma_in_list(v, entry1(regs, 0), 208, 0);
    lemma_shifts(regs[1]);
    assert forall|s: int, x: int, y: int| #[trigger]
        shows1(v, regs, s, x, y) <==> 0 <= s < sprites::listed1(v, regs) && sprites::covers1(
            v,
            regs,
            s,
            x,
            y,
        ) by {
        let a = entry1(regs, s);
        lemma_shifts(v[a + 3]);
        let dx = x - sprites::left1(v, regs, s);
        let dy = y - sprites::top1(v, regs, s);
        if 0 <= dx < size(regs) && 0 <= dy < size(regs) {
            law_patterns(v, regs, v[a + 2], dx, dy);
        }
    }
}

proof fn lemma_covered1(v: Seq<u8>, regs: Seq<u8>, n: int, x: int, y: int)
    ensures
        sprites::covered1(v, regs, n, x, y) <==> exists|t: int|
            0 <= t < n && #[trigger] sprites::covers1(v, regs, t, x, y),
    decreases n,
{
    if n > 0 {
        lemma_covered1(v, regs, n - 1, x, y);
        if sprites::covers1(v, regs, n - 1, x, y) {
        } else if exists|t: int| 0 <= t < n && #[trigger] sprites::covers1(v, regs, t, x, y) {
            let t = choose|t: int| 0 <= t < n && #[trigger] sprites::covers1(v, regs, t, x, y);
            assert(0 <= t < n - 1);
        }
    }
}

proof fn lemma_collision1(v: Seq<u8>, regs: Seq<u8>)
    ensures
        sprites::collision1(v, regs) <==> touch1(v, regs),
{
    lemma_mode1(v, regs);
    if sprites::collision1(v, regs) {
        let (s, x, y) = choose|s: int, x: int, y: int|
            0 <= s < sprites::listed1(v, regs) && #[trigger] sprites::hits1(v, regs, s, x, y);
        lemma_covered1(v, regs, s, x, y);
        let t = choose|t: int| 0 <= t < s && #[trigger] sprites::covers1(v, regs, t, x, y);
        assert(shows1(v, regs, s, x, y) && shows1(v, regs, t, x, y));
    }
    if touch1(v, regs) {
        let (s, t, x, y) = choose|s: int, t: int, x: int, line: int|
            s != t && 0 <= x < 256 && 0 <= line < 192 && #[trigger] shows1(v, regs, s, x, line)
                && #[trigger] shows1(v, regs, t, x, line);
        if s < t {
            lemma_covered1(v, regs, t, x, y);
            assert(sprites::covers1(v, regs, s, x, y));
            assert(sprites::hits1(v, regs, t, x, y));
        } else {
            lemma_covered1(v, regs, s, x, y);
            assert(sprites::covers1(v, regs, t, x, y));
            assert(sprites::hits1(v, regs, s, x, y));
        }
    }
}

proof fn lemma_crowd1(v: Seq<u8>, regs: Seq<u8>, line: int, n: int, m: int)
    requires
        0 <= n <= m,
    ensures
        0 <= crowd1(v, regs, line, n) <= crowd1(v, regs, line, m),
    decreases m,
{
    if n < m {
        lemma_crowd1(v, regs, line, n, m - 1);
    } else if n > 0 {
        lemma_crowd1(v, regs, line, n - 1, n - 1);
    }
}

proof fn lemma_nth1(v: Seq<u8>, regs: Seq<u8>, line: int, s: int, k: int)
    requires
        0 <= s <= 32,
        k >= 1,
    ensures
        match sprites::nth_on_line1(v, regs, line, s, k) {
            Some(t) => s <= t && stands1(v, regs, t, line) && crowd1(v, regs, line, t)
                == crowd1(v, regs, line, s) + k - 1,
            None => crowd1(v, regs, line, 32) < crowd1(v, regs, line, s) + k,
        },
    decreases 32 - s,
{
    lemma_mode1(v, regs);
    if s >= 32 {
    } else if s >= sprites::listed1(v, regs) {
        lemma_crowd_ends1(v, regs, line, s, 32);
    } else {
        assert(stands1(v, regs, s, line) == sprites::on_line1(v, regs, s, line));
        assert(crowd1(v, regs, line, s + 1) == crowd1(v, regs, line, s) + (if stands1(
            v,
            regs,
            s,
            line,
        ) {
            1int
        } else {
            0
        }));
        if sprites::on_line1(v, regs, s, line) {
            if k > 1 {
                lemma_nth1(v, regs, line, s + 1, k - 1);
            }
        } else {
            lemma_nth1(v, regs, line, s + 1, k);
        }
    }
}

proof fn lemma_crowd_ends1(v: Seq<u8>, regs: Seq<u8>, line: int, n: int, m: int)
    requires
        0 <= n <= m,
        n >= sprites::listed1(v, regs),
    ensures
        crowd1(v, regs, line, n) == crowd1(v, regs, line, m),
    decreases m,
{
    lemma_mode1(v, regs);
    if n < m {
        lemma_crowd_ends1(v, regs, line, n, m - 1);
        assert(!stands1(v, regs, m - 1, line));
    }
}

/// The only fifth sprite of a line is the one that the scan finds.
proof fn lemma_fifth(v: Seq<u8>, regs: Seq<u8>, line: int)
    ensures
        sprites::nth_on_line1(v, regs, line, 0, 5) matches Some(t) ==> fifth(v, regs, line, t),
        sprites::nth_on_line1(v, regs, line, 0, 5) is None ==> forall|s: int|
            !#[trigger] fifth(v, regs, line, s),
{
    lemma_nth1(v, regs, line, 0, 5);
    if sprites::nth_on_line1(v, regs, line, 0, 5) is None {
        assert forall|s: int| !#[trigger] fifth(v, regs, line, s) by {
            if fifth(v, regs, line, s) {
                lemma_crowd1(v, regs, line, s + 1, 32);
                assert(crowd1(v, regs, line, s + 1) == 5);
            }
        }
    }
}

/// Sprite `s` is the fifth on the first line, from `from` on, that has five.
pub open spec fn first_fifth(v: Seq<u8>, regs: Seq<u8>, from: int, s: int) -> bool {
    exists|line: int|
        from <= line < 192 && #[trigger] fifth(v, regs, line, s) && forall|l: int, q: int|
            from <= l < line ==> !#[trigger] fifth(v, regs, l, q)
}

proof fn lemma_overflow1(v: Seq<u8>, regs: Seq<u8>, from: int)
    ensures
        match sprites::overflow1(v, regs, from) {
            Some(s) => first_fifth(v, regs, from, s),
            None => forall|l: int, q: int|
                from <= l < 192 ==> !#[trigger] fifth(v, regs, l, q),
        },
    decreases 192 - from,
{
    if from < 192 {
        lemma_fifth(v, regs, from);
        lemma_overflow1(v, regs, from + 1);
        match sprites::overflow1(v, regs, from) {
            Some(s) => if sprites::nth_on_line1(v, regs, from, 0, 5) is None {
                let line = choose|line: int|
                    from + 1 <= line < 192 && #[trigger] fifth(v, regs, line, s) && forall|
                        l: int,
                        q: int,
                    |
                        from + 1 <= l < line ==> !#[trigger] fifth(v, regs, l, q);
                assert(fifth(v, regs, line, s));
                assert forall|l: int, q: int| from <= l < line implies !#[trigger] fifth(
                    v,
                    regs,
                    l,
                    q,
                ) by {
                    if l > from {
                        assert(from + 1 <= l);
                    }
                }
            } else {
                assert(fifth(v, regs, from, s));
            },
            None => {},
        }
    }
}

proof fn lemma_status_sum(s: u8, n: u8)
    by (bit_vector)
    requires
        n < 32,
    ensures
        (s & 0xA0) | 0x40 | n == (s / 128) * 128 + 64 + ((s / 32) % 2) * 32 + n,
        s | 0x20 == (s / 64) * 64 + 32 + s % 32,
{
}

/// Some line of the screen has five sprites.
pub open spec fn overfull1(v: Seq<u8>, regs: Seq<u8>) -> bool {
    exists|l: int, q: int| 0 <= l < 192 && #[trigger] fifth(v, regs, l, q)
}

proof fn lemma_overfull1(v: Seq<u8>, regs: Seq<u8>)
    ensures
        sprites::overflow1(v, regs, 0) is Some <==> overfull1(v, regs),
        sprites::overflow1(v, regs, 0) matches Some(s) ==> 0 <= s < 32 && first_fifth(
            v,
            regs,
            0,
            s,
        ),
{
    lemma_overflow1(v, regs, 0);
}

proof fn lemma_sum1(s0: u8, n: u8, over: bool, touch: bool)
    requires
        n < 32,
    ensures
        ({
            let a = if s0 & 0x40 != 0 || !over {
                s0
            } else {
                (s0 & 0xA0) | 0x40 | n
            };
            let t = if touch {
                a | 0x20
            } else {
                a
            };
            &&& t / 128 == s0 / 128
            &&& bit(t, 5) <==> bit(s0, 5) || touch
            &&& bit(t, 6) <==> bit(s0, 6) || over
            &&& t % 32 == if !bit(s0, 6) && over {
                n
            } else {
                s0 % 32
            }
        }),
{
    lemma_shifts(s0);
    lemma_status_sum(s0, n);
    lemma_status_sum((s0 & 0xA0) | 0x40 | n, 0);
}

/// S0 after a frame in mode 1. Bit 7 stays. Bit 5 comes up when two sprites have a
/// visible dot at one place of the screen. Bit 6, once down, comes up when some line
/// has five sprites; the low bits then number the fifth sprite of the first such
/// line, and stay otherwise.
#[verifier::rlimit(50)]
pub proof fn law_status_of_mode1(v: Seq<u8>, regs: Seq<u8>, s0: u8)
    ensures
        ({
            let t = sprites::status1(v, regs, s0);
            &&& t / 128 == s0 / 128
            &&& bit(t, 5) <==> bit(s0, 5) || touch1(v, regs)
            &&& bit(t, 6) <==> bit(s0, 6) || overfull1(v, regs)
            &&& if !bit(s0, 6) && overfull1(v, regs) {
                first_fifth(v, regs, 0, (t % 32) as int)
            } else {
                t % 32 == s0 % 32
            }
        }),
{
    lemma_collision1(v, regs);
    lemma_overfull1(v, regs);
    let n = match sprites::overflow1(v, regs, 0) {
        Some(s) => s as u8,
        None => 0,
    };
    lemma_sum1(s0, n, overfull1(v, regs), touch1(v, regs));
}

/// The attributes of sprite `s` in mode 2: R5 without its low two bits times 128,
/// and the low two bits of R11 above that.
pub open spec fn entry2(regs: Seq<u8>, s: int) -> int {
    32768 * (regs[11] % 4) + 128 * (regs[5] - regs[5] % 4) + 4 * s
}

/// Row of sprite `s` on a line in mode 2, around the 256 lines that R23 scrolls.
pub open spec fn turn2(v: Seq<u8>, regs: Seq<u8>, s: int, line: int) -> int {
    (line + regs[23] - v[entry2(regs, s)] - 1) % 256
}

/// Lines of the screen: 212 with bit 7 of R9 up, and else 192.
pub open spec fn screen_lines(regs: Seq<u8>) -> int {
    if regs[9] >= 128 {
        212
    } else {
        192
    }
}

/// Sprite `s` is listed and takes up part of a line in mode 2. A Y of 216 ends the
/// list.
pub open spec fn stands2(v: Seq<u8>, regs: Seq<u8>, s: int, line: int) -> bool {
    in_list(v, entry2(regs, 0), 216, s) && turn2(v, regs, s, line) < size(regs)
}

/// Sprites before sprite `n` on a line in mode 2.
pub open spec fn crowd2(v: Seq<u8>, regs: Seq<u8>, line: int, n: int) -> int
    decreases n,
{
    if n <= 0 {
        0
    } else {
        crowd2(v, regs, line, n - 1) + (if stands2(v, regs, n - 1, line) {
            1int
        } else {
            0
        })
    }
}

/// Sprite `s` is the ninth on a line.
pub open spec fn ninth(v: Seq<u8>, regs: Seq<u8>, line: int, s: int) -> bool {
    stands2(v, regs, s, line) && crowd2(v, regs, line, s) == 8
}

/// Colour and flags of sprite `s` on a line: 16 bytes for each sprite, one for each
/// row of the pattern, in the 512 bytes before the attributes.
pub open spec fn paint2(v: Seq<u8>, regs: Seq<u8>, s: int, line: int) -> u8 {
    let row = turn2(v, regs, s, line);
    v[(entry2(regs, 0) - 512 + 16 * s + (if regs[1] % 2 == 1 {
        row / 2
    } else {
        row
    })) % 131072]
}

/// Sprite `s` has a dot in column `x` of a line that counts for collisions. It is
/// among the first eight of the line; bits 5 and 6 of its colour byte are down; its
/// colour is not 0, unless bit 5 of R8 makes that one count; bit 7 moves it 32
/// columns to the left.
pub open spec fn shows2(v: Seq<u8>, regs: Seq<u8>, s: int, line: int, x: int) -> bool {
    let a = entry2(regs, s);
    let c = paint2(v, regs, s, line);
    let dx = x - v[a + 1] + (if c >= 128 {
        32int
    } else {
        0
    });
    &&& stands2(v, regs, s, line)
    &&& crowd2(v, regs, line, s) < 8
    &&& (c / 32) % 4 == 0
    &&& c % 16 != 0 || (regs[8] / 32) % 2 == 1
    &&& 0 <= dx < size(regs)
    &&& shape(v, regs, v[a + 2], dx, turn2(v, regs, s, line))
}

/// Two sprites have a dot in column `x` of a line.
pub open spec fn touch2(v: Seq<u8>, regs: Seq<u8>, line: int, x: int) -> bool {
    exists|s: int, t: int|
        s != t && #[trigger] shows2(v, regs, s, line, x) && #[trigger] shows2(v, regs, t, line, x)
}

proof fn lemma_crowd2(v: Seq<u8>, regs: Seq<u8>, line: int, n: int)
    requires
        0 <= n <= sprites::listed2(v, regs),
    ensures
        crowd2(v, regs, line, n) == sprites::rank2(v, regs, line, n),
    decreases n,
{
    if n > 0 {
        lemma_crowd2(v, regs, line, n - 1);
        lemma_in_list(v, entry2(regs, 0), 216, 0);
        lemma_shifts(regs[1]);
        assert(in_list(v, entry2(regs, 0), 216, n - 1));
    }
}

proof fn lemma_stands2(v: Seq<u8>, regs: Seq<u8>)
    ensures
        0 <= sprites::listed2(v, regs) <= 32,
        forall|s: int, line: int|
            #[trigger] stands2(v, regs, s, line) <==> 0 <= s < sprites::listed2(v, regs)
                && sprites::on_line2(v, regs, s, line),
{
    lemma_in_list(v, entry2(regs, 0), 216, 0);
    lemma_shifts(regs[1]);
}

proof fn lemma_paint2(v: Seq<u8>, regs: Seq<u8>, s: int, line: int)
    ensures
        paint2(v, regs, s, line) == sprites::colour2(v, regs, s, line),
{
    lemma_shifts(regs[1]);
    let b = entry2(regs, 0) - 512 + 16 * s + sprites::table_row2(v, regs, s, line);
    assert((b + 131072) % 131072 == b % 131072);
}

/// The dots that a sprite would have on a line, had it any there.
#[verifier::rlimit(50)]
proof fn lemma_dots2(v: Seq<u8>, regs: Seq<u8>, s: int, line: int, x: int)
    requires
        turn2(v, regs, s, line) < size(regs),
    ensures
        ({
            let a = entry2(regs, s);
            let dx = x - v[a + 1] + (if paint2(v, regs, s, line) >= 128 {
                32int
            } else {
                0
            });
            let row = turn2(v, regs, s, line);
            &&& dx == x - sprites::left2(v, regs, s, line)
            &&& row == sprites::row2(v, regs, s, line)
            &&& sprites::edge(regs) == size(regs)
            &&& 0 <= dx < size(regs) ==> shape(v, regs, v[a + 2], dx, row) == sprites::dot(
                v,
                regs,
                v[sprites::attributes2(regs) + 4 * s + 2],
                dx,
                row,
            )
        }),
{
    let c = paint2(v, regs, s, line);
    lemma_paint2(v, regs, s, line);
    lemma_shifts(c);
    lemma_shifts(regs[1]);
    let dx = x - sprites::left2(v, regs, s, line);
    if 0 <= dx < size(regs) {
        law_patterns(v, regs, v[entry2(regs, s) + 2], dx, turn2(v, regs, s, line));
    }
}

#[verifier::rlimit(50)]
proof fn lemma_shows2(v: Seq<u8>, regs: Seq<u8>, s: int, line: int, x: int)
    ensures
        shows2(v, regs, s, line, x) <==> 0 <= s < sprites::listed2(v, regs) && sprites::covers2(
            v,
            regs,
            s,
            line,
            x,
        ),
{
    lemma_stands2(v, regs);
    assert(stands2(v, regs, s, line) <==> 0 <= s < sprites::listed2(v, regs) && sprites::on_line2(
        v,
        regs,
        s,
        line,
    ));
    if stands2(v, regs, s, line) {
        lemma_crowd2(v, regs, line, s);
        lemma_paint2(v, regs, s, line);
        lemma_shifts(paint2(v, regs, s, line));
        lemma_shifts(regs[8]);
        lemma_dots2(v, regs, s, line, x);
    }
}

proof fn lemma_touch2(v: Seq<u8>, regs: Seq<u8>, line: int, x: int)
    ensures
        sprites::meet2(v, regs, line, x) <==> touch2(v, regs, line, x),
{
    assert forall|s: int| #[trigger]
        shows2(v, regs, s, line, x) <==> 0 <= s < sprites::listed2(v, regs) && sprites::covers2(
            v,
            regs,
            s,
            line,
            x,
        ) by {
        lemma_shows2(v, regs, s, line, x);
    }
    if sprites::meet2(v, regs, line, x) {
        let (s, t) = choose|s: int, t: int|
            0 <= s < t < sprites::listed2(v, regs) && #[trigger] sprites::covers2(
                v,
                regs,
                s,
                line,
                x,
            ) && #[trigger] sprites::covers2(v, regs, t, line, x);
        assert(shows2(v, regs, s, line, x) && shows2(v, regs, t, line, x));
    }
    if touch2(v, regs, line, x) {
        let (s, t) = choose|s: int, t: int|
            s != t && #[trigger] shows2(v, regs, s, line, x) && #[trigger] shows2(
                v,
                regs,
                t,
                line,
                x,
            );
        if s < t {
            assert(sprites::covers2(v, regs, s, line, x) && sprites::covers2(v, regs, t, line, x));
        } else {
            assert(sprites::covers2(v, regs, t, line, x) && sprites::covers2(v, regs, s, line, x));
        }
    }
}

/// The first place of the screen, line after line and from the left, where two
/// sprites have a dot.
pub open spec fn first_touch2(v: Seq<u8>, regs: Seq<u8>, x: int, line: int) -> bool {
    &&& 0 <= x < 256
    &&& 0 <= line < screen_lines(regs)
    &&& touch2(v, regs, line, x)
    &&& forall|x2: int, l2: int|
        0 <= x2 < 256 && 0 <= l2 && (l2 < line || (l2 == line && x2 < x)) ==> !#[trigger] touch2(
            v,
            regs,
            l2,
            x2,
        )
}

proof fn lemma_meeting2(v: Seq<u8>, regs: Seq<u8>, line: int, from: int)
    requires
        0 <= from,
    ensures
        match sprites::meeting2(v, regs, line, from) {
            Some(x) => from <= x < 256 && touch2(v, regs, line, x) && forall|x2: int|
                from <= x2 < x ==> !#[trigger] touch2(v, regs, line, x2),
            None => forall|x2: int| from <= x2 < 256 ==> !#[trigger] touch2(v, regs, line, x2),
        },
    decreases 256 - from,
{
    if from < 256 {
        lemma_touch2(v, regs, line, from);
        lemma_meeting2(v, regs, line, from + 1);
    }
}

proof fn lemma_collision2(v: Seq<u8>, regs: Seq<u8>, from: int)
    requires
        0 <= from,
        forall|x2: int, l2: int|
            0 <= x2 < 256 && 0 <= l2 < from ==> !#[trigger] touch2(v, regs, l2, x2),
    ensures
        match sprites::collision2(v, regs, from) {
            Some((x, line)) => first_touch2(v, regs, x, line),
            None => forall|x2: int, l2: int|
                0 <= x2 < 256 && 0 <= l2 < screen_lines(regs) ==> !#[trigger] touch2(
                    v,
                    regs,
                    l2,
                    x2,
                ),
        },
    decreases 212 - from,
{
    lemma_shifts(regs[9]);
    if from < 212 && from < sprites::lines2(regs) {
        lemma_meeting2(v, regs, from, 0);
        if sprites::meeting2(v, regs, from, 0) is None {
            lemma_collision2(v, regs, from + 1);
        }
    }
}

/// Sprite `s` is the ninth on the first line that has nine.
pub open spec fn first_ninth(v: Seq<u8>, regs: Seq<u8>, s: int) -> bool {
    exists|line: int|
        0 <= line < screen_lines(regs) && #[trigger] ninth(v, regs, line, s) && forall|
            l: int,
            q: int,
        |
            0 <= l < line ==> !#[trigger] ninth(v, regs, l, q)
}

/// Some line of the screen has nine sprites.
pub open spec fn overfull2(v: Seq<u8>, regs: Seq<u8>) -> bool {
    exists|l: int, q: int| 0 <= l < screen_lines(regs) && #[trigger] ninth(v, regs, l, q)
}

proof fn lemma_ninth2(v: Seq<u8>, regs: Seq<u8>, line: int, from: int)
    requires
        0 <= from <= 32,
        crowd2(v, regs, line, from) <= 8,
        forall|q: int| q < from ==> !#[trigger] ninth(v, regs, line, q),
    ensures
        match sprites::ninth_on_line2(v, regs, line, from) {
            Some(s) => ninth(v, regs, line, s),
            None => forall|q: int| !#[trigger] ninth(v, regs, line, q),
        },
    decreases 32 - from,
{
    lemma_stands2(v, regs);
    if from < sprites::listed2(v, regs) {
        lemma_crowd2(v, regs, line, from);
        assert(crowd2(v, regs, line, from + 1) == crowd2(v, regs, line, from) + (if stands2(
            v,
            regs,
            from,
            line,
        ) {
            1int
        } else {
            0
        }));
        if !(sprites::on_line2(v, regs, from, line) && sprites::rank2(v, regs, line, from) >= 8) {
            lemma_ninth2(v, regs, line, from + 1);
        }
    } else {
        assert forall|q: int| !#[trigger] ninth(v, regs, line, q) by {
            assert(stands2(v, regs, q, line) ==> q < from);
        }
    }
}

proof fn lemma_overflow2(v: Seq<u8>, regs: Seq<u8>, from: int)
    requires
        0 <= from,
        forall|l: int, q: int| 0 <= l < from ==> !#[trigger] ninth(v, regs, l, q),
    ensures
        match sprites::overflow2(v, regs, from) {
            Some(s) => 0 <= s < 32 && first_ninth(v, regs, s) && overfull2(v, regs),
            None => !overfull2(v, regs),
        },
    decreases 212 - from,
{
    lemma_shifts(regs[9]);
    if from < 212 && from < sprites::lines2(regs) {
        lemma_ninth2(v, regs, from, 0);
        if sprites::ninth_on_line2(v, regs, from, 0) is None {
            lemma_overflow2(v, regs, from + 1);
        }
    }
}

/// The number of the first sprite with the end mark, or 31 without one.
pub open spec fn last_looked_at(v: Seq<u8>, regs: Seq<u8>, n: int) -> bool {
    ||| n == 31 && forall|q: int|
        0 <= q < 31 ==> #[trigger] v[entry2(regs, 0) + 4 * q] != 216
    ||| 0 <= n < 31 && v[entry2(regs, 0) + 4 * n] == 216 && forall|q: int|
        0 <= q < n ==> #[trigger] v[entry2(regs, 0) + 4 * q] != 216
}

proof fn lemma_last2(v: Seq<u8>, regs: Seq<u8>, from: int)
    requires
        0 <= from <= 32,
        forall|q: int| 0 <= q < from ==> #[trigger] v[entry2(regs, 0) + 4 * q] != 216,
    ensures
        ({
            let n = sprites::listed(v, entry2(regs, 0), 216, from);
            0 <= n <= 32 && last_looked_at(
                v,
                regs,
                if n < 31 {
                    n
                } else {
                    31
                },
            )
        }),
    decreases 32 - from,
{
    if from < 32 && v[entry2(regs, 0) + 4 * from] != 216 {
        lemma_last2(v, regs, from + 1);
    }
}

proof fn lemma_sum2(s0: u8, n: u8, last: u8, over: bool, t: u8, u: u8, r: u8)
    by (bit_vector)
    requires
        n < 32,
        last < 32,
        over && s0 & 0xC0 == 0 ==> t == 0x40 | ((s0 & 0x7F) & 0x20) | (n & 0x1F),
        !(over && s0 & 0xC0 == 0) ==> t == s0 & 0x7F,
        t & 0x40 == 0 ==> u == (t & 0x20) | (last & 0x1F),
        t & 0x40 != 0 ==> u == t,
        r == (s0 & 0x80) | (u & 0x7F),
    ensures
        r / 128 == s0 / 128,
        (r / 32) % 2 == (s0 / 32) % 2,
        (r / 64) % 2 == 1 <==> (s0 / 64) % 2 == 1 || (over && s0 < 64),
        over && s0 < 64 ==> r % 32 == n,
        !(over && s0 < 64) && (s0 / 64) % 2 == 1 ==> r % 32 == s0 % 32,
        !(over && s0 < 64) && (s0 / 64) % 2 == 0 ==> r % 32 == last,
        (r & 0x20 != 0) == ((r / 32) % 2 == 1),
        r | 0x20 == (r / 64) * 64 + 32 + r % 32,
{
}

/// Two sprites have a dot at some place of the screen.
pub open spec fn any_touch2(v: Seq<u8>, regs: Seq<u8>) -> bool {
    exists|x: int, l: int|
        0 <= x < 256 && 0 <= l < screen_lines(regs) && #[trigger] touch2(v, regs, l, x)
}

proof fn lemma_any_touch2(v: Seq<u8>, regs: Seq<u8>)
    ensures
        match sprites::collision2(v, regs, 0) {
            Some((x, line)) => first_touch2(v, regs, x, line) && any_touch2(v, regs),
            None => !any_touch2(v, regs),
        },
{
    lemma_collision2(v, regs, 0);
}

#[verifier::rlimit(50)]
proof fn lemma_status2(v: Seq<u8>, regs: Seq<u8>, s0: u8)
    ensures
        ({
            let r = sprites::overflow_status2(v, regs, s0);
            let over = overfull2(v, regs) && s0 < 64;
            &&& r / 128 == s0 / 128
            &&& (r / 32) % 2 == (s0 / 32) % 2
            &&& (r / 64) % 2 == 1 <==> (s0 / 64) % 2 == 1 || over
            &&& over ==> first_ninth(v, regs, (r % 32) as int)
            &&& !over && (s0 / 64) % 2 == 1 ==> r % 32 == s0 % 32
            &&& !over && (s0 / 64) % 2 == 0 ==> last_looked_at(v, regs, (r % 32) as int)
            &&& (r & 0x20 != 0) == ((r / 32) % 2 == 1)
            &&& r | 0x20 == (r / 64) * 64 + 32 + r % 32
        }),
{
    let n = match sprites::overflow2(v, regs, 0) {
        Some(s) => s as u8,
        None => 0,
    };
    lemma_overflow2(v, regs, 0);
    lemma_last2(v, regs, 0);
    let last = if sprites::listed2(v, regs) < 31 {
        sprites::listed2(v, regs) as u8
    } else {
        31
    };
    let over = sprites::overflow2(v, regs, 0) is Some;
    let lo = s0 & 0x7F;
    let t = if over && s0 & 0xC0 == 0 {
        0x40 | (lo & 0x20) | (n & 0x1F)
    } else {
        lo
    };
    let u = if t & 0x40 == 0 {
        (t & 0x20) | (last & 0x1F)
    } else {
        t
    };
    lemma_sum2(s0, n, last, over, t, u, (s0 & 0x80) | (u & 0x7F));
}

/// S0 after a frame in mode 2, collisions apart. Bit 7 stays. Bit 6 comes up when
/// some line has nine sprites and neither bit 7 nor bit 6 was up; the low bits then
/// number the ninth sprite of the first such line. With bit 6 down they number the
/// sprite that ended the list.
pub proof fn law_overflow_of_mode2(v: Seq<u8>, regs: Seq<u8>, status: Seq<u8>)
    requires
        status.len() == 10,
    ensures
        ({
            let s0 = status[0];
            let t = sprites::status2(v, regs, status)[0];
            let over = overfull2(v, regs) && s0 < 64;
            &&& t / 128 == s0 / 128
            &&& bit(t, 6) <==> bit(s0, 6) || over
            &&& over ==> first_ninth(v, regs, (t % 32) as int)
            &&& !over && bit(s0, 6) ==> t % 32 == s0 % 32
            &&& !over && !bit(s0, 6) ==> last_looked_at(v, regs, (t % 32) as int)
        }),
{
    lemma_status2(v, regs, status[0]);
}

/// What a collision at a place does to the status registers.
proof fn lemma_report2(v: Seq<u8>, regs: Seq<u8>, status: Seq<u8>)
    requires
        status.len() == 10,
    ensures
        ({
            let t = sprites::status2(v, regs, status);
            let r = sprites::overflow_status2(v, regs, status[0]);
            let hit = sprites::collision2(v, regs, 0);
            &&& t.len() == 10
            &&& forall|i: int| 1 <= i < 10 && !(3 <= i <= 6) ==> t[i] == status[i]
            &&& r & 0x20 != 0 || hit is None ==> t[0] == r && t[3] == status[3] && t[4]
                == status[4] && t[5] == status[5] && t[6] == status[6]
            &&& r & 0x20 == 0 && hit is Some && 0 <= hit->Some_0.0 < 256 && 0 <= hit->Some_0.1
                < 212 ==> t[0] == r | 0x20 && t[3] + 256 * (t[4] - 0xFE) == hit->Some_0.0 + 12
                && t[5] + 256 * (t[6] - 0xFC) == hit->Some_0.1 + 8
        }),
{
}

/// A collision of mode 2 is reported while bit 5 of S0 is down: the bit comes up, S3
/// and S4 tell the column of the first place where two sprites have a dot, 12 to the
/// right, and S5 and S6 its line, 8 further down. Everything else stays.
#[verifier::rlimit(50)]
pub proof fn law_collision_of_mode2(v: Seq<u8>, regs: Seq<u8>, status: Seq<u8>)
    requires
        status.len() == 10,
    ensures
        ({
            let t = sprites::status2(v, regs, status);
            let any = any_touch2(v, regs);
            &&& t.len() == 10
            &&& bit(t[0], 5) <==> bit(status[0], 5) || any
            &&& t[1] == status[1] && t[2] == status[2]
            &&& t[7] == status[7] && t[8] == status[8] && t[9] == status[9]
            &&& bit(status[0], 5) || !any ==> t[3] == status[3] && t[4] == status[4] && t[5]
                == status[5] && t[6] == status[6]
            &&& !bit(status[0], 5) && any ==> exists|x: int, line: int| #[trigger]
                first_touch2(v, regs, x, line) && t[3] + 256 * (t[4] - 0xFE) == x + 12 && t[5]
                    + 256 * (t[6] - 0xFC) == line + 8
        }),
{
    lemma_report2(v, regs, status);
    lemma_status2(v, regs, status[0]);
    lemma_any_touch2(v, regs);
    let hit = sprites::collision2(v, regs, 0);
    if hit is Some {
        assert(first_touch2(v, regs, hit->Some_0.0, hit->Some_0.1));
    }
}

} // verus!
