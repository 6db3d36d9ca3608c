//! What the CPU does to the video processor through its ports.
#[allow(unused_imports)]
use crate::vdp::engine::{CpuXfer, EngineState};
#[allow(unused_imports)]
use crate::vdp::sprites;
#[allow(unused_imports)]
use crate::vdp::{
    demo_byte, demo_regs, display_mode, line_words, packed, power_on_palette, snapshot_of,
    sprite_hardware, VdpState,
};
use vstd::prelude::*;

verus! {

proof fn lemma_bits(b: u8)
    by (bit_vector)
    ensures
        (b & 0x0C != 0) == ((b / 4) % 4 != 0),
        (b & 0x10 != 0) == ((b / 16) % 2 == 1),
        (b & 0x20 != 0) == ((b / 32) % 2 == 1),
        (b & 0x80 != 0) == (b >= 128),
        b | 0x80 == b % 128 + 128,
        b | 0x40 == (b / 128) * 128 + 64 + b % 64,
        b | 0x20 == (b / 64) * 64 + 32 + b % 32,
        b & !0x01u8 == b - b % 2,
{
}

/// Two writes to the control port, the second with bit 7 up, set the register in the low
/// six bits of the second to the first, and change nothing else. Registers 24 to 31 and
/// from 47 on do not exist; 44 and 46 also reach the command engine.
pub proof fn law_control_pair_sets_register(s: VdpState, value: u8, second: u8)
    requires
        s.wf(),
        !s.has_latched,
        second >= 128,
    ensures
        ({
            let t = s.after_control(value).after_control(second);
            let reg = second as int % 64;
            let there = reg < 24 || 32 <= reg < 47;
            &&& !t.has_latched
            &&& t.address == s.address
            &&& t.palette == s.palette
            &&& there && reg != 44 && reg != 46 ==> t.engine == (EngineState {
                regs: s.engine.regs.update(reg, value),
                ..s.engine
            })
            &&& !there ==> t.engine == s.engine
            &&& reg == 46 ==> t.engine == (EngineState {
                regs: s.engine.regs.update(46, value),
                ..s.engine
            }).executed()
            &&& reg == 44 ==> t.engine == (EngineState {
                regs: s.engine.regs.update(44, value),
                ..s.engine
            }).pumped(value)
        }),
{
}

/// VRAM address that two bytes and R14 give: R14 holds bits 16 to 14.
pub open spec fn address_of(r14: u8, lo: u8, hi: u8) -> int {
    16384 * (r14 % 8) + 256 * (hi % 64) + lo
}

/// Two writes to the control port, the second with bit 7 down, set the low 14 bits of the
/// address. A data read then gives the byte at that address and R14, and a data write
/// stores there and changes no other byte.
pub proof fn law_control_pair_sets_address(s: VdpState, lo: u8, hi: u8, value: u8, a: int)
    requires
        s.wf(),
        !s.has_latched,
        hi < 128,
        0 <= a < 131072,
    ensures
        ({
            let t = s.after_control(lo).after_control(hi);
            let at = address_of(s.engine.regs[14], lo, hi);
            let w = t.after_data_write(value);
            &&& t.engine == s.engine
            &&& t.data() == s.engine.vram[at]
            &&& w.engine.vram[a] == (if a == at {
                value
            } else {
                s.engine.vram[a]
            })
            &&& t.after_data_read().engine.vram == s.engine.vram
        }),
{
}

/// The address of the data port moves on by one with every access. With bit 2 or 3 of R0
/// up it goes through all 128 KiB; otherwise it stays in the 16 KiB of R14.
pub proof fn law_data_port_moves_on(s: VdpState, value: u8)
    requires
        s.wf(),
    ensures
        ({
            let wide = (s.engine.regs[0] / 4) % 4 != 0;
            let here = 16384 * (s.engine.regs[14] % 8) + s.address;
            let next = if wide {
                (here + 1) % 131072
            } else {
                16384 * (s.engine.regs[14] % 8) + (s.address + 1) % 16384
            };
            let r = s.after_data_read();
            let w = s.after_data_write(value);
            &&& 16384 * (r.engine.regs[14] % 8) + r.address == next
            &&& 16384 * (w.engine.regs[14] % 8) + w.address == next
            &&& !r.has_latched && !w.has_latched
            &&& forall|i: int|
                0 <= i < 64 && i != 14 ==> r.engine.regs[i] == s.engine.regs[i] && w.engine.regs[i]
                    == s.engine.regs[i]
        }),
{
    lemma_bits(s.engine.regs[0]);
}

/// Every access to the data port and every status read forgets the first byte of a pair on
/// the control port.
pub proof fn law_accesses_drop_the_latch(s: VdpState, value: u8)
    requires
        s.wf(),
    ensures
        !s.after_data_read().has_latched,
        !s.after_data_write(value).has_latched,
        !s.after_status_read().has_latched,
        s.after_palette(value).has_latched == s.has_latched,
        s.after_palette(value).latched == s.latched,
{
}

/// Two writes to the palette port set the entry in the low four bits of R16: the first
/// byte has red in bits 6 to 4 and blue in bits 2 to 0, the second green in bits 2 to 0.
/// R16 goes on to the next entry, from the last to the first.
pub proof fn law_palette_pair(s: VdpState, first: u8, second: u8, i: int)
    requires
        s.wf(),
        s.pending is None,
        0 <= i < 16,
    ensures
        ({
            let t = s.after_palette(first).after_palette(second);
            let here = s.engine.regs[16] as int % 16;
            &&& s.after_palette(first).palette == s.palette
            &&& t.palette[here].r == (first / 16) % 8
            &&& t.palette[here].g == second % 8
            &&& t.palette[here].b == first % 8
            &&& t.palette[here].opaque
            &&& i != here ==> t.palette[i] == s.palette[i]
            &&& t.engine == (EngineState {
                regs: s.engine.regs.update(
                    16,
                    (if here == 15 {
                        0
                    } else {
                        here + 1
                    }) as u8,
                ),
                ..s.engine
            })
        }),
{
}

/// A write to the indirect port sets the register in the low six bits of R17. With bit 7
/// of R17 down it then goes on to the next register; with bit 7 up it stays.
pub proof fn law_indirect_port(s: VdpState, value: u8)
    requires
        s.wf(),
        ({
            let reg = s.engine.regs[17] as int % 64;
            reg != 17 && reg != 44 && reg != 46 && (reg < 24 || 32 <= reg < 47)
        }),
    ensures
        ({
            let r17 = s.engine.regs[17];
            let t = s.after_indirect(value);
            &&& t.engine.regs[r17 as int % 64] == value
            &&& t.engine.regs[17] == (if r17 >= 128 {
                r17
            } else {
                (r17 + 1) as u8 % 64
            })
            &&& forall|i: int|
                0 <= i < 64 && i != 17 && i != r17 as int % 64 ==> t.engine.regs[i]
                    == s.engine.regs[i]
            &&& t.engine.vram == s.engine.vram
            &&& t.has_latched == s.has_latched && t.address == s.address
        }),
{
}

/// The status port gives the status register in the low four bits of R15, and 0xFF from
/// 10 on. Bit 5 of S2 is up from T-state 170 of a line on.
pub proof fn law_status_port(s: VdpState)
    requires
        s.wf(),
    ensures
        ({
            let n = s.engine.regs[15] as int % 16;
            &&& n >= 10 ==> s.status() == 0xFF
            &&& n < 10 && n != 2 ==> s.status() == s.engine.status[n]
            &&& n == 2 && s.phase < 170 ==> s.status() == s.engine.status[2]
            &&& n == 2 && s.phase >= 170 ==> (s.status() / 32) % 2 == 1 && s.status() % 32
                == s.engine.status[2] % 32 && s.status() / 64 == s.engine.status[2] / 64
        }),
{
    lemma_bits(s.engine.status[2]);
}

/// A read of S0 clears it, and a read of S1 drops its bit 0 and the line interrupt. A read
/// of another register changes none of the status registers, but for S7 of a transfer.
pub proof fn law_status_reads_change(s: VdpState)
    requires
        s.wf(),
    ensures
        ({
            let n = s.engine.regs[15] as int % 16;
            let t = s.after_status_read();
            &&& n == 0 ==> t.engine.status == s.engine.status.update(0, 0) && t.line_irq
                == s.line_irq
            &&& n == 1 ==> t.engine.status == s.engine.status.update(
                1,
                (s.engine.status[1] - s.engine.status[1] % 2) as u8,
            ) && !t.line_irq
            &&& n > 1 && (n != 7 || s.engine.xfer != CpuXfer::Lmcm) ==> t.engine == s.engine
                && t.line_irq == s.line_irq
            &&& t.engine.vram == s.engine.vram
        }),
{
    lemma_bits(s.engine.status[1]);
}

/// The interrupt line is up while bit 5 of R1 and bit 7 of S0 are, or while bit 4 of R0 is
/// and a line interrupt is pending.
pub proof fn law_interrupt_line(s: VdpState)
    ensures
        s.irq() <==> ((s.engine.regs[1] / 32) % 2 == 1 && s.engine.status[0] >= 128) || ((
        s.engine.regs[0] / 16) % 2 == 1 && s.line_irq),
{
    lemma_bits(s.engine.regs[1]);
    lemma_bits(s.engine.regs[0]);
    lemma_bits(s.engine.status[0]);
}

/// At the end of the visible scan what VRAM holds goes on display, bit 7 of S0 and bit 6
/// of S2 come up, and the sprites of the frame are reported: those of mode 1 in SCREEN 1
/// to 3, those of mode 2 from SCREEN 4 on, and none in the text modes.
#[verifier::rlimit(50)]
pub proof fn law_end_of_scan(s: VdpState)
    requires
        s.wf(),
    ensures
        ({
            let e = s.engine;
            let t = s.after_vblank();
            let high = (e.regs[0] / 2) % 8;
            let m2 = (e.regs[1] / 8) % 2 == 1;
            let m1 = (e.regs[1] / 16) % 2 == 1;
            let one = !m1 && (high == 0 || (high == 1 && !m2));
            let two = !m1 && !m2 && (high == 2 || high == 3 || high == 4 || high == 5 || high
                == 7);
            let first = if one {
                sprites::status1(e.vram, e.regs, e.status[0])
            } else if two {
                sprites::status2(e.vram, e.regs, e.status)[0]
            } else {
                e.status[0]
            };
            &&& t.display == e.vram
            &&& t.engine.vram == e.vram && t.engine.regs == e.regs
            &&& t.engine.status[0] >= 128 && t.engine.status[0] % 128 == first % 128
            &&& (t.engine.status[2] / 64) % 2 == 1
            &&& t.engine.status[2] % 64 == e.status[2] % 64
            &&& two ==> forall|i: int|
                3 <= i < 10 ==> t.engine.status[i] == sprites::status2(e.vram, e.regs, e.status)[i]
            &&& !two ==> forall|i: int| 3 <= i < 10 ==> t.engine.status[i] == e.status[i]
            &&& t.palette == s.palette && t.address == s.address
        }),
{
    let e = s.engine;
    let n = sprite_hardware(display_mode(e.regs));
    let a = sprites::status1(e.vram, e.regs, e.status[0]);
    let b = sprites::status2(e.vram, e.regs, e.status);
    lemma_sprite_modes(e.regs);
    lemma_report_keeps(e.vram, e.regs, e.status);
    lemma_scan_status(s, n, a, b);
    let first = if n == 1 {
        a
    } else if n == 2 {
        b[0]
    } else {
        e.status[0]
    };
    let t = s.after_vblank().engine.status;
    lemma_raised(first, e.status[2], t[0], t[2]);
}

/// The status registers at the end of the scan, by the report of the sprites.
#[verifier::rlimit(50)]
proof fn lemma_scan_status(s: VdpState, n: int, a: u8, b: Seq<u8>)
    requires
        s.wf(),
        n == sprite_hardware(display_mode(s.engine.regs)),
        a == sprites::status1(s.engine.vram, s.engine.regs, s.engine.status[0]),
        b == sprites::status2(s.engine.vram, s.engine.regs, s.engine.status),
        b.len() == 10,
        b[2] == s.engine.status[2],
    ensures
        ({
            let e = s.engine;
            let t = s.after_vblank();
            let first = if n == 1 {
                a
            } else if n == 2 {
                b[0]
            } else {
                e.status[0]
            };
            &&& t == (VdpState {
                display: e.vram,
                engine: EngineState { status: t.engine.status, ..e },
                ..s
            })
            &&& t.engine.status.len() == 10
            &&& t.engine.status[0] == first | 0x80
            &&& t.engine.status[2] == e.status[2] | 0x40
            &&& n == 2 ==> forall|i: int| 3 <= i < 10 ==> t.engine.status[i] == b[i]
            &&& n != 2 ==> forall|i: int| 3 <= i < 10 ==> t.engine.status[i] == e.status[i]
        }),
{
}

proof fn lemma_raised(first: u8, second: u8, x: u8, y: u8)
    by (bit_vector)
    requires
        x == first | 0x80,
        y == second | 0x40,
    ensures
        x >= 128,
        x % 128 == first % 128,
        (y / 64) % 2 == 1,
        y % 64 == second % 64,
{
}

proof fn lemma_sprite_modes(regs: Seq<u8>)
    ensures
        ({
            let high = (regs[0] / 2) % 8;
            let m2 = (regs[1] / 8) % 2 == 1;
            let m1 = (regs[1] / 16) % 2 == 1;
            let n = sprite_hardware(display_mode(regs));
            &&& n == 1 <==> !m1 && (high == 0 || (high == 1 && !m2))
            &&& n == 2 <==> !m1 && !m2 && (high == 2 || high == 3 || high == 4 || high == 5 || high
                == 7)
        }),
{
}

proof fn lemma_report_keeps(v: Seq<u8>, regs: Seq<u8>, status: Seq<u8>)
    requires
        status.len() == 10,
    ensures
        sprites::status2(v, regs, status).len() == 10,
        sprites::status2(v, regs, status)[2] == status[2],
{
}

/// The beam is at as many T-states of its line as have passed, a line having 228.
pub proof fn law_beam_moves(s: VdpState, a: int, b: int)
    requires
        s.wf(),
        0 <= s.phase,
        0 <= a,
        0 <= b,
    ensures
        s.after_tick(a).phase == (s.phase + a) % 228,
        s.after_tick(a).after_tick(b).phase == s.after_tick(a + b).phase,
        s.after_tick(a).engine.vram == s.engine.vram,
        s.after_tick(a).engine.regs == s.engine.regs,
{
}

/// A reset clears registers, status registers and VRAM, stops every transfer, and takes
/// the palette of power-on. What is on display stays.
pub proof fn law_reset_clears(s: VdpState, i: int)
    requires
        s.wf(),
    ensures
        ({
            let t = s.after_reset();
            &&& 0 <= i < 64 ==> t.engine.regs[i] == 0
            &&& 0 <= i < 10 ==> t.engine.status[i] == 0
            &&& 0 <= i < 131072 ==> t.engine.vram[i] == 0
            &&& t.engine.xfer == CpuXfer::Idle && t.engine.busy == 0
            &&& t.display == s.display
            &&& t.palette == power_on_palette()
            &&& !t.has_latched && t.pending is None && !t.line_irq && !t.irq()
            &&& t.address == 0
            &&& t.wf()
        }),
{
    lemma_bits(0);
}

/// Colours of the palette at power-on: the first is transparent black, the last is white,
/// and all but the first are opaque.
pub proof fn law_palette_at_power_on(i: int)
    requires
        0 <= i < 16,
    ensures
        ({
            let p = power_on_palette();
            let white = p[15];
            let green = p[2];
            let blue = p[4];
            let red = p[8];
            &&& p.len() == 16
            &&& p[i].opaque == (i != 0)
            &&& p[i].r < 8 && p[i].g < 8 && p[i].b < 8
            &&& p[0].r == 0 && p[0].g == 0 && p[0].b == 0
            &&& white.r == 7 && white.g == 7 && white.b == 7
            &&& green.g > green.r && green.g > green.b
            &&& blue.b > blue.r && blue.b > blue.g
            &&& red.r > red.g && red.r > red.b
        }),
{
}

/// The border has the palette entry in the low four bits of R7, and in SCREEN 6 that in
/// the low two.
pub proof fn law_border_colour(s: VdpState)
    requires
        s.wf(),
    ensures
        ({
            let r = s.engine.regs;
            let screen6 = (r[0] / 2) % 8 == 4 && (r[1] / 8) % 4 == 0;
            let c = s.palette[if screen6 {
                r[7] as int % 4
            } else {
                r[7] as int % 16
            }];
            &&& s.backdrop().r == c.r && s.backdrop().g == c.g && s.backdrop().b == c.b
            &&& s.backdrop().opaque
        }),
{
}

/// The demo picture: in the middle third of the screen four columns each of eight bars, all dots
/// of a bar set and in its colour; above and below, and around the bars, no dot is set.
pub proof fn law_demo_bars(row: int, column: int, line: int)
    requires
        0 <= row < 24,
        0 <= column < 32,
        0 <= line < 8,
    ensures
        ({
            let tile = demo_byte(0x1800 + 32 * row + column);
            let bank = row / 8;
            let pattern = demo_byte(0x800 * bank + 8 * tile + line);
            let hue = demo_byte(0x2000 + 0x800 * bank + 8 * tile + line);
            &&& demo_regs().len() == 8
            &&& bank != 1 ==> tile == 0 && pattern == 0
            &&& bank == 1 ==> pattern == 0xFF && hue % 16 == 0
            &&& bank == 1 ==> hue / 16 == seq![2int, 3, 5, 7, 8, 11, 13, 15][column / 4]
        }),
{
}

/// Four bytes in a word come out again, the first lowest.
pub proof fn law_packed_bytes(a: u8, b: u8, c: u8, d: u8)
    ensures
        packed(a, b, c, d) % 256 == a,
        (packed(a, b, c, d) / 256) % 256 == b,
        (packed(a, b, c, d) / 65536) % 256 == c,
        packed(a, b, c, d) / 16777216 == d,
{
}

/// Byte `k` of a word, the first lowest.
pub open spec fn byte_of(w: int, k: int) -> int {
    if k == 0 {
        w % 256
    } else if k == 1 {
        (w / 256) % 256
    } else if k == 2 {
        (w / 65536) % 256
    } else {
        w / 16777216
    }
}

/// The renderer gets R5, R6, R11 and R23 of a line in its first word, R2, R0, R1 and R7 in the
/// second, and R3, R4, R10 and R8 in the third.
pub proof fn law_line_words(r: Seq<u8>)
    ensures
        ({
            let (a, b, c) = line_words(snapshot_of(r));
            &&& byte_of(a, 0) == r[5] && byte_of(a, 1) == r[6] && byte_of(a, 2) == r[11]
            &&& byte_of(a, 3) == r[23]
            &&& byte_of(b, 0) == r[2] && byte_of(b, 1) == r[0] && byte_of(b, 2) == r[1]
            &&& byte_of(b, 3) == r[7]
            &&& byte_of(c, 0) == r[3] && byte_of(c, 1) == r[4] && byte_of(c, 2) == r[10]
            &&& byte_of(c, 3) == r[8]
        }),
{
    law_packed_bytes(r[5], r[6], r[11], r[23]);
    law_packed_bytes(r[2], r[0], r[1], r[7]);
    law_packed_bytes(r[3], r[4], r[10], r[8]);
}

} // verus!
