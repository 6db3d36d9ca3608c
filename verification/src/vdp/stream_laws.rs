//! What the transfers through the CPU move, and when they end.
#[allow(unused_imports)]
use crate::vdp::engine;
#[allow(unused_imports)]
use crate::vdp::engine::{CpuXfer, EngineState, PixelLayout};
#[allow(unused_imports)]
use crate::vdp::engine_laws::{apart, law_dots_land, lemma_status_bits};
use vstd::prelude::*;

verus! {

#[allow(unused_imports)]
use vstd::arithmetic::div_mod::{lemma_fundamental_div_mod, lemma_fundamental_div_mod_converse};

/// Units in one row of a transfer: bytes for HMMC, pixels for the others.
pub open spec fn row_units(s: EngineState, l: PixelLayout) -> int {
    let nx = engine::at_least(s.nx(), 1);
    if s.xfer == CpuXfer::Hmmc {
        l.columns_for(nx)
    } else {
        nx
    }
}

/// Units that a transfer still has to move.
pub open spec fn units_left(s: EngineState, l: PixelLayout) -> int {
    (engine::at_least(s.ny(), 1) - s.y) * row_units(s, l) - s.x
}

/// A transfer in progress, somewhere inside its rectangle.
pub open spec fn streaming(s: EngineState, l: PixelLayout) -> bool {
    &&& s.layout() == Some(l)
    &&& s.regs.len() == 64
    &&& s.status.len() == 10
    &&& 0 <= s.x < row_units(s, l)
    &&& 0 <= s.y < engine::at_least(s.ny(), 1)
}

proof fn lemma_units_step(n: int, rows: int, x: int, y: int)
    requires
        0 <= x < n,
        0 <= y < rows,
    ensures
        (rows - y) * n - x >= 1,
        x + 1 < n ==> (rows - y) * n - x > 1,
        x + 1 == n ==> (rows - (y + 1)) * n - 0 == (rows - y) * n - x - 1,
        x + 1 == n && y + 1 < rows ==> (rows - y) * n - x > 1,
        x + 1 == n && y + 1 == rows ==> (rows - y) * n - x == 1,
{
    assert((rows - y) * n >= n) by (nonlinear_arith)
        requires
            rows - y >= 1,
            n >= 1,
    ;
    assert((rows - (y + 1)) * n == (rows - y) * n - n) by (nonlinear_arith);
    if y + 1 < rows {
        assert((rows - (y + 1)) * n >= n) by (nonlinear_arith)
            requires
                rows - (y + 1) >= 1,
                n >= 1,
        ;
    }
    if y + 1 == rows {
        assert((rows - y) * n == n) by (nonlinear_arith)
            requires
                rows - y == 1,
        ;
    }
}

/// Each R44 write moves one unit of an LMMC or HMMC transfer; the last one, and
/// no earlier one, ends it and drops TR and CE.
pub proof fn law_write_moves_one_unit(s: EngineState, l: PixelLayout, value: u8)
    requires
        streaming(s, l),
        s.xfer is Lmmc || s.xfer is Hmmc,
    ensures
        units_left(s, l) >= 1,
        units_left(s, l) > 1 ==> {
            let t = s.pumped(value);
            &&& streaming(t, l)
            &&& t.xfer == s.xfer
            &&& t.status == s.status
            &&& units_left(t, l) == units_left(s, l) - 1
        },
        units_left(s, l) == 1 ==> s.pumped(value).xfer == CpuXfer::Idle && s.pumped(
            value,
        ).status[2] & 0x81 == 0,
{
    lemma_units_step(row_units(s, l), engine::at_least(s.ny(), 1), s.x, s.y);
    lemma_status_bits(s.status[2]);
    let t = s.pumped(value);
    if units_left(s, l) > 1 {
        assert(t.regs == s.regs);
    }
}

/// Each S7 read moves one pixel of an LMCM transfer; the last one, and no
/// earlier one, ends it and drops TR and CE.
pub proof fn law_read_moves_one_pixel(s: EngineState, l: PixelLayout)
    requires
        streaming(s, l),
        s.xfer is Lmcm,
    ensures
        units_left(s, l) >= 1,
        units_left(s, l) > 1 ==> {
            let t = s.drained();
            &&& streaming(t, l)
            &&& t.xfer == s.xfer
            &&& t.status[2] == s.status[2]
            &&& units_left(t, l) == units_left(s, l) - 1
        },
        units_left(s, l) == 1 ==> s.drained().xfer == CpuXfer::Idle && s.drained().status[2] & 0x81
            == 0,
{
    lemma_units_step(row_units(s, l), engine::at_least(s.ny(), 1), s.x, s.y);
    lemma_status_bits(s.status[2]);
    let t = s.drained();
    if units_left(s, l) > 1 {
        assert(t.regs == s.regs);
    }
}

/// Units that a transfer has moved.
pub open spec fn units_done(s: EngineState, l: PixelLayout) -> int {
    s.y * row_units(s, l) + s.x
}

/// Place in its row of the unit that comes after `i` more.
pub open spec fn unit_x(s: EngineState, l: PixelLayout, i: int) -> int {
    (units_done(s, l) + i) % row_units(s, l)
}

/// Row of the unit that comes after `i` more.
pub open spec fn unit_y(s: EngineState, l: PixelLayout, i: int) -> int {
    (units_done(s, l) + i) / row_units(s, l)
}

/// The transfer counters follow the count of units.
proof fn lemma_count(n: int, rows: int, j: int)
    requires
        n >= 1,
        j >= 0,
    ensures
        0 <= j % n < n,
        0 <= j / n,
        j == (j / n) * n + j % n,
        (j % n) + 1 >= n ==> (j + 1) % n == 0 && (j + 1) / n == j / n + 1,
        (j % n) + 1 < n ==> (j + 1) % n == j % n + 1 && (j + 1) / n == j / n,
        j / n >= rows <==> j >= rows * n,
{
    let q = j / n;
    let r = j % n;
    lemma_fundamental_div_mod(j, n);
    assert(n * q == q * n) by (nonlinear_arith);
    assert((q + 1) * n == q * n + n) by (nonlinear_arith);
    assert(q >= 0) by (nonlinear_arith)
        requires
            j == q * n + r,
            0 <= j,
            r < n,
            n >= 1,
    ;
    if r + 1 >= n {
        lemma_fundamental_div_mod_converse(j + 1, n, q + 1, 0);
    } else {
        lemma_fundamental_div_mod_converse(j + 1, n, q, r + 1);
    }
    if q >= rows {
        assert(q * n >= rows * n) by (nonlinear_arith)
            requires
                q >= rows,
                n >= 1,
        ;
    } else {
        assert(rows * n >= (q + 1) * n) by (nonlinear_arith)
            requires
                rows >= q + 1,
                n >= 1,
        ;
    }
}

/// The counters of a transfer are those of the units it has moved.
proof fn lemma_counters(s: EngineState, l: PixelLayout)
    requires
        streaming(s, l),
    ensures
        units_done(s, l) >= 0,
        unit_x(s, l, 0) == s.x,
        unit_y(s, l, 0) == s.y,
        units_left(s, l) == engine::at_least(s.ny(), 1) * row_units(s, l) - units_done(s, l),
{
    let n = row_units(s, l);
    let rows = engine::at_least(s.ny(), 1);
    assert(s.y * n >= 0) by (nonlinear_arith)
        requires
            s.y >= 0,
            n >= 1,
    ;
    assert((rows - s.y) * n == rows * n - s.y * n) by (nonlinear_arith);
    lemma_fundamental_div_mod_converse(s.y * n + s.x, n, s.y, s.x);
}

/// A write to R44: the register takes the value, and the running transfer too.
pub open spec fn given(s: EngineState, value: u8) -> EngineState {
    EngineState { regs: s.regs.update(44, value), ..s }.pumped(value)
}

/// The state after a series of writes to R44.
pub open spec fn given_all(s: EngineState, values: Seq<u8>) -> EngineState
    decreases values.len(),
{
    if values.len() == 0 {
        s
    } else {
        given(given_all(s, values.drop_last()), values.last())
    }
}

/// All registers but R44 are the same.
spec fn same_but_44(a: Seq<u8>, b: Seq<u8>) -> bool {
    a.len() == 64 && b.len() == 64 && forall|i: int|
        0 <= i < 64 && i != 44 ==> #[trigger] b[i] == a[i]
}

/// A transfer that is not done yet after some writes.
proof fn lemma_given(s: EngineState, l: PixelLayout, values: Seq<u8>)
    requires
        streaming(s, l),
        s.xfer is Lmmc || s.xfer is Hmmc,
        values.len() < units_left(s, l),
    ensures
        ({
            let t = given_all(s, values);
            &&& streaming(t, l)
            &&& t.xfer == s.xfer
            &&& t.status == s.status
            &&& t.vram.len() == s.vram.len()
            &&& same_but_44(s.regs, t.regs)
            &&& t.x == unit_x(s, l, values.len() as int)
            &&& t.y == unit_y(s, l, values.len() as int)
        }),
    decreases values.len(),
{
    lemma_counters(s, l);
    if values.len() > 0 {
        let rest = values.drop_last();
        lemma_given(s, l, rest);
        let t = given_all(s, rest);
        let u = EngineState { regs: t.regs.update(44, values.last()), ..t };
        assert(same_but_44(s.regs, u.regs));
        assert(streaming(u, l));
        lemma_count(
            row_units(s, l),
            engine::at_least(s.ny(), 1),
            units_done(s, l) + rest.len(),
        );
        lemma_count(
            row_units(s, l),
            engine::at_least(s.ny(), 1),
            units_done(s, l) + values.len(),
        );
    }
}

/// A transfer takes exactly as many R44 writes as it has units left; the last one
/// drops TR and CE.
pub proof fn law_transfer_takes_all_units(s: EngineState, l: PixelLayout, values: Seq<u8>)
    requires
        streaming(s, l),
        s.xfer is Lmmc || s.xfer is Hmmc,
        values.len() <= units_left(s, l),
    ensures
        given_all(s, values).xfer == CpuXfer::Idle <==> values.len() == units_left(s, l),
        values.len() == units_left(s, l) ==> given_all(s, values).status[2] & 0x81 == 0,
{
    if values.len() < units_left(s, l) {
        lemma_given(s, l, values);
    } else {
        law_write_moves_one_unit(s, l, 0);
        let rest = values.drop_last();
        lemma_given(s, l, rest);
        lemma_counters(s, l);
        let t = given_all(s, rest);
        let u = EngineState { regs: t.regs.update(44, values.last()), ..t };
        assert(streaming(u, l));
        lemma_counters(u, l);
        lemma_count(
            row_units(s, l),
            engine::at_least(s.ny(), 1),
            units_done(s, l) + rest.len(),
        );
        assert(units_left(u, l) == 1);
        law_write_moves_one_unit(u, l, values.last());
    }
}

/// Column and row of the pixel or byte that a write goes to, after `i` others.
pub open spec fn write_place(s: EngineState, l: PixelLayout, i: int) -> (int, int) {
    let column = if s.xfer is Hmmc {
        l.column(s.dx())
    } else {
        s.dx()
    };
    (
        engine::moved(column, s.dix(), unit_x(s, l, i)),
        engine::moved(s.dy(), s.diy(), unit_y(s, l, i)),
    )
}

/// Different units of a transfer have different places.
proof fn lemma_places_differ(s: EngineState, l: PixelLayout, i: int, j: int)
    requires
        streaming(s, l),
        0 <= i < j,
    ensures
        write_place(s, l, i) != write_place(s, l, j),
{
    lemma_counters(s, l);
    lemma_count(row_units(s, l), 0, units_done(s, l) + i);
    lemma_count(row_units(s, l), 0, units_done(s, l) + j);
}

/// The pixels that a series of values sets in an LMMC transfer.
pub open spec fn write_dots(
    s: EngineState,
    l: PixelLayout,
    values: Seq<u8>,
) -> Seq<(int, int, u8)> {
    Seq::new(
        values.len(),
        |i: int| (write_place(s, l, i).0, write_place(s, l, i).1, values[i] & l.mask()),
    )
}

proof fn lemma_given_dots(s: EngineState, l: PixelLayout, values: Seq<u8>)
    requires
        streaming(s, l),
        s.xfer is Lmmc,
        values.len() <= units_left(s, l),
    ensures
        given_all(s, values).vram == engine::plots(
            s.vram,
            l,
            s.xfer->logic_op,
            write_dots(s, l, values),
        ),
    decreases values.len(),
{
    if values.len() > 0 {
        let rest = values.drop_last();
        lemma_given(s, l, rest);
        lemma_given_dots(s, l, rest);
        let t = given_all(s, rest);
        let u = EngineState { regs: t.regs.update(44, values.last()), ..t };
        assert(same_but_44(s.regs, u.regs));
        assert(write_dots(s, l, values).drop_last() =~= write_dots(s, l, rest));
    }
}

/// Each value that goes through an LMMC transfer is combined into its own pixel:
/// from DX and DY on along the row, then row by row. Every other pixel stays as
/// it was.
pub proof fn law_written_pixels_land(
    s: EngineState,
    l: PixelLayout,
    values: Seq<u8>,
    x: int,
    y: int,
)
    requires
        streaming(s, l),
        s.xfer is Lmmc,
        values.len() <= units_left(s, l),
        0 <= x < l.width,
        0 <= y,
        l.address(x, y) < s.vram.len(),
    ensures
        ({
            let old_pixel = engine::pixel_at(s.vram, l, x, y);
            let new_pixel = engine::pixel_at(given_all(s, values).vram, l, x, y);
            &&& forall|i: int|
                0 <= i < values.len() && #[trigger] write_place(s, l, i) == (x, y) ==> new_pixel
                    == engine::logic_result(
                    values[i] & l.mask(),
                    old_pixel,
                    s.xfer->logic_op,
                    l.mask(),
                )
            &&& (forall|i: int|
                0 <= i < values.len() ==> #[trigger] write_place(s, l, i) != (x, y)) ==> new_pixel
                == old_pixel
        }),
{
    let dots = write_dots(s, l, values);
    lemma_given_dots(s, l, values);
    assert forall|i: int, j: int| 0 <= i < j < dots.len() implies #[trigger] dots[i].0
        != #[trigger] dots[j].0 || dots[i].1 != dots[j].1 by {
        lemma_places_differ(s, l, i, j);
    }
    law_dots_land(s.vram, l, s.xfer->logic_op, dots, x, y);
    assert forall|i: int|
        0 <= i < values.len() && #[trigger] write_place(s, l, i) == (x, y) implies engine::pixel_at(
        given_all(s, values).vram,
        l,
        x,
        y,
    ) == engine::logic_result(
        values[i] & l.mask(),
        engine::pixel_at(s.vram, l, x, y),
        s.xfer->logic_op,
        l.mask(),
    ) by {
        assert(dots[i] == (x, y, values[i] & l.mask()));
    }
    if forall|i: int| 0 <= i < values.len() ==> #[trigger] write_place(s, l, i) != (x, y) {
        assert forall|i: int| 0 <= i < dots.len() implies (#[trigger] dots[i]).0 != x || dots[i].1
            != y by {
            assert(write_place(s, l, i) != (x, y));
        }
    }
}

/// Where the next byte of an HMMC transfer goes.
spec fn next_place(s: EngineState, l: PixelLayout) -> (int, int) {
    (
        engine::moved(l.column(s.dx()), s.dix(), s.x),
        engine::moved(s.dy(), s.diy(), s.y),
    )
}

/// One byte through an HMMC transfer.
proof fn lemma_byte_given(s: EngineState, l: PixelLayout, value: u8, x: int, y: int)
    requires
        l.wf(),
        s.layout() == Some(l),
        s.xfer is Hmmc,
        0 <= x < l.pitch,
        0 <= y,
        l.row_start(y) + x < s.vram.len(),
    ensures
        s.pumped(value).vram.len() == s.vram.len(),
        s.pumped(value).vram[l.row_start(y) + x] == (if next_place(s, l) == (x, y) {
            value
        } else {
            s.vram[l.row_start(y) + x]
        }),
{
    let (c, r) = next_place(s, l);
    let a = l.row_start(r) + c;
    if 0 <= c < l.pitch && 0 <= r && a < s.vram.len() && a == l.row_start(y) + x {
        assert(c == x && r == y);
    }
}

/// What holds of a byte after a series of values.
spec fn byte_landed(
    s: EngineState,
    l: PixelLayout,
    values: Seq<u8>,
    x: int,
    y: int,
    old_byte: u8,
    new_byte: u8,
) -> bool {
    &&& forall|i: int|
        0 <= i < values.len() && #[trigger] write_place(s, l, i) == (x, y) ==> new_byte == values[i]
    &&& (forall|i: int| 0 <= i < values.len() ==> #[trigger] write_place(s, l, i) != (x, y))
        ==> new_byte == old_byte
}

proof fn lemma_byte_landed(
    s: EngineState,
    l: PixelLayout,
    values: Seq<u8>,
    value: u8,
    at: (int, int),
    bytes: (u8, u8),
)
    requires
        streaming(s, l),
        byte_landed(s, l, values, at.0, at.1, bytes.0, bytes.1),
    ensures
        byte_landed(
            s,
            l,
            values.push(value),
            at.0,
            at.1,
            bytes.0,
            if write_place(s, l, values.len() as int) == at {
                value
            } else {
                bytes.1
            },
        ),
{
    let n = values.len() as int;
    let longer = values.push(value);
    assert forall|i: int|
        0 <= i < longer.len() && #[trigger] write_place(s, l, i) == at implies (if write_place(
        s,
        l,
        n,
    ) == at {
        value
    } else {
        bytes.1
    }) == longer[i] by {
        if i < n {
            lemma_places_differ(s, l, i, n);
        }
    }
}

/// The registers that a transfer goes by are the same.
proof fn lemma_next_place(s: EngineState, t: EngineState, l: PixelLayout, value: u8, n: int)
    requires
        streaming(s, l),
        s.xfer is Hmmc,
        same_but_44(s.regs, t.regs),
        t.x == unit_x(s, l, n),
        t.y == unit_y(s, l, n),
    ensures
        ({
            let u = EngineState { regs: t.regs.update(44, value), ..t };
            next_place(u, l) == write_place(s, l, n) && u.layout() == Some(l)
        }),
{
}

/// Each byte that goes through an HMMC transfer goes to its own place: from the
/// byte of DX and DY on along the row, then row by row. Places off the page take
/// none, and every other byte stays as it was.
pub proof fn law_written_bytes_land(s: EngineState, l: PixelLayout, values: Seq<u8>, x: int, y: int)
    requires
        streaming(s, l),
        s.xfer is Hmmc,
        values.len() <= units_left(s, l),
        0 <= x < l.pitch,
        0 <= y,
        l.row_start(y) + x < s.vram.len(),
    ensures
        ({
            let old_byte = s.vram[l.row_start(y) + x];
            let new_byte = given_all(s, values).vram[l.row_start(y) + x];
            &&& forall|i: int|
                0 <= i < values.len() && #[trigger] write_place(s, l, i) == (x, y) ==> new_byte
                    == values[i]
            &&& (forall|i: int|
                0 <= i < values.len() ==> #[trigger] write_place(s, l, i) != (x, y)) ==> new_byte
                == old_byte
        }),
        given_all(s, values).vram.len() == s.vram.len(),
    decreases values.len(),
{
    if values.len() > 0 {
        let rest = values.drop_last();
        let value = values.last();
        let a = l.row_start(y) + x;
        lemma_given(s, l, rest);
        law_written_bytes_land(s, l, rest, x, y);
        let t = given_all(s, rest);
        assert(byte_landed(s, l, rest, x, y, s.vram[a], t.vram[a]));
        lemma_next_place(s, t, l, value, rest.len() as int);
        lemma_byte_given(EngineState { regs: t.regs.update(44, value), ..t }, l, value, x, y);
        lemma_byte_landed(s, l, rest, value, (x, y), (s.vram[a], t.vram[a]));
        assert(rest.push(value) =~= values);
        assert(byte_landed(s, l, values, x, y, s.vram[a], given_all(s, values).vram[a]));
    }
}

/// The state after `n` reads of S7.
pub open spec fn taken(s: EngineState, n: int) -> EngineState
    decreases n,
{
    if n <= 0 {
        s
    } else {
        taken(s, n - 1).drained()
    }
}

/// The pixel that an LMCM transfer comes to after `i` others: from SX and SY on
/// along the row, then row by row; 0 off the page.
pub open spec fn source_pixel(s: EngineState, l: PixelLayout, i: int) -> u8 {
    let x = engine::moved(s.sx(), s.dix(), unit_x(s, l, i));
    let y = engine::moved(s.sy(), s.diy(), unit_y(s, l, i));
    if 0 <= x < l.width && 0 <= y {
        engine::pixel_at(s.vram, l, x, y)
    } else {
        0
    }
}

/// The read after `n` others of an LMCM transfer gives the pixel that it has come
/// to, and the last one ends the transfer and drops TR and CE. VRAM stays as it
/// was.
#[verifier::spinoff_prover]
#[verifier::rlimit(50)]
pub proof fn law_read_pixels_in_order(s: EngineState, l: PixelLayout, n: int)
    requires
        streaming(s, l),
        s.xfer is Lmcm,
        s.status[7] == source_pixel(s, l, 0),
        0 <= n <= units_left(s, l),
    ensures
        ({
            let t = taken(s, n);
            &&& t.vram == s.vram
            &&& n < units_left(s, l) ==> {
                &&& t.status[7] == source_pixel(s, l, n)
                &&& t.status[2] == s.status[2]
                &&& t.xfer == s.xfer
                &&& t.regs == s.regs
                &&& t.status.len() == 10
                &&& t.x == unit_x(s, l, n)
                &&& t.y == unit_y(s, l, n)
            }
            &&& n == units_left(s, l) ==> t.xfer == CpuXfer::Idle && t.status[2] & 0x81 == 0
        }),
    decreases n,
{
    lemma_counters(s, l);
    law_read_moves_one_pixel(s, l);
    if n > 0 {
        let rows = engine::at_least(s.ny(), 1);
        law_read_pixels_in_order(s, l, n - 1);
        lemma_count(row_units(s, l), rows, units_done(s, l) + n - 1);
        lemma_count(row_units(s, l), rows, units_done(s, l) + n);
        lemma_status_bits(s.status[2]);
    }
}

/// LMCM starts with all its pixels to come, the first of them in S7.
pub proof fn law_read_stream_starts(s: EngineState, l: PixelLayout, op: u8)
    requires
        s.layout() == Some(l),
        s.regs.len() == 64,
        s.status.len() == 10,
    ensures
        ({
            let t = s.commanded(0xA, op);
            &&& streaming(t, l)
            &&& t.xfer is Lmcm
            &&& units_done(t, l) == 0
            &&& units_left(t, l) == engine::at_least(s.nx(), 1) * engine::at_least(s.ny(), 1)
            &&& t.status[7] == source_pixel(t, l, 0)
            &&& t.status[2] & 0x81 == 0x81
            &&& t.regs == s.regs
            &&& t.vram == s.vram
        }),
{
    let t = s.commanded(0xA, op);
    let nx = engine::at_least(s.nx(), 1);
    let ny = engine::at_least(s.ny(), 1);
    let b = s.status[2];
    assert((b | 0x81) & 0x81 == 0x81) by (bit_vector);
    assert(0 * nx == 0 && ny * nx == nx * ny) by (nonlinear_arith);
    lemma_counters(t, l);
}

/// LMMC and HMMC start with all their units to come, and what R44 held goes
/// through as the first of them.
pub proof fn law_write_stream_starts(s: EngineState, l: PixelLayout, op: u8, values: Seq<u8>)
    requires
        s.layout() == Some(l),
        s.regs.len() == 64,
        s.status.len() == 10,
    ensures
        forall|kind: CpuXfer|
            {
                let t = #[trigger] s.started(kind);
                &&& streaming(t, l)
                &&& t.xfer == kind
                &&& units_done(t, l) == 0
                &&& units_left(t, l) == row_units(t, l) * engine::at_least(s.ny(), 1)
                &&& t.regs == s.regs
                &&& t.vram == s.vram
            },
        given_all(s.commanded(0xB, op), values) == given_all(
            s.started(CpuXfer::Lmmc { logic_op: op }),
            seq![s.regs[44]] + values,
        ),
        given_all(s.commanded(0xF, op), values) == given_all(
            s.started(CpuXfer::Hmmc),
            seq![s.regs[44]] + values,
        ),
{
    assert forall|kind: CpuXfer|
        {
            let t = #[trigger] s.started(kind);
            &&& streaming(t, l)
            &&& t.xfer == kind
            &&& units_done(t, l) == 0
            &&& units_left(t, l) == row_units(t, l) * engine::at_least(s.ny(), 1)
            &&& t.regs == s.regs
            &&& t.vram == s.vram
        } by {
        let t = s.started(kind);
        let n = row_units(t, l);
        let ny = engine::at_least(s.ny(), 1);
        assert(0 * n == 0 && ny * n == n * ny) by (nonlinear_arith);
    }
    lemma_first_value(s.started(CpuXfer::Lmmc { logic_op: op }), values);
    lemma_first_value(s.started(CpuXfer::Hmmc), values);
}

proof fn lemma_first_value(s: EngineState, values: Seq<u8>)
    requires
        s.regs.len() == 64,
    ensures
        given_all(s.pumped(s.regs[44]), values) == given_all(s, seq![s.regs[44]] + values),
    decreases values.len(),
{
    let first = seq![s.regs[44]];
    let all = first + values;
    if values.len() == 0 {
        assert(all =~= first);
        assert(first.drop_last() =~= Seq::<u8>::empty());
        assert(s.regs.update(44, s.regs[44]) =~= s.regs);
        assert(given_all(s, first.drop_last()) == s);
    } else {
        lemma_first_value(s, values.drop_last());
        assert(all.drop_last() =~= first + values.drop_last());
    }
}

} // verus!
