//! When lines start and the vertical blank begins in a frame.
#[allow(unused_imports)]
use crate::frame::{frame_begun, line_started, lines_started, FrameState};
#[allow(unused_imports)]
use crate::vdp::{snapshot_of, VdpState};
use vstd::prelude::*;

verus! {

proof fn lemma_bits(b: u8)
    by (bit_vector)
    ensures
        (b & 0x02 != 0) == ((b / 2) % 2 == 1),
        (b & 0x10 == 0) == ((b / 16) % 2 == 0),
        b | 0x01 == b - b % 2 + 1,
        b & !0x01u8 == b - b % 2,
{
}

/// With bit 1 of R9 up, for 50 Hz, a frame has 313 lines of 228 T-states. Without it, it is a
/// sixtieth of a second at 3579545 T-states per second, rounded down.
pub proof fn law_frame_length(v: VdpState)
    ensures
        (v.engine.regs[9] / 2) % 2 == 1 ==> FrameState::start(v).length == 228 * 313,
        (v.engine.regs[9] / 2) % 2 == 0 ==> FrameState::start(v).length == 3579545int / 60,
        FrameState::start(v).clock == 0,
        FrameState::start(v).lines == 0,
        !FrameState::start(v).vblank,
{
    lemma_bits(v.engine.regs[9]);
}

/// Line `n` has started once 228 T-states times `n` have passed, up to the 212th; none is
/// taken back.
pub proof fn law_lines_start_on_time(f: FrameState, n: int)
    requires
        f.wf(),
        !f.over(),
        0 <= n < 212,
    ensures
        f.clock >= 228 * n ==> f.settled().lines > n,
        f.lines <= n && f.clock < 228 * n ==> f.settled().lines <= n,
        f.lines <= f.settled().lines <= 212,
        f.settled().clock == f.clock && f.settled().length == f.length,
{
}

/// The vertical blank begins once, when 212 lines of 228 T-states have passed.
pub proof fn law_blank_begins_on_time(f: FrameState)
    requires
        f.wf(),
    ensures
        f.blanks() <==> !f.vblank && f.clock >= 212 * 228,
        f.settled().vblank <==> f.vblank || f.clock >= 212 * 228,
        !f.settled().blanks(),
        f.over() <==> f.clock >= f.length,
{
}

/// At the vertical blank the processor ends its scan, and not before.
pub proof fn law_blank_reaches_processor(f: FrameState, v: VdpState)
    requires
        f.wf(),
        v.wf(),
    ensures
        ({
            let w = if f.over() {
                v
            } else {
                lines_started(v, f.lines, f.settled().lines)
            };
            &&& !f.vblank && f.clock >= 212 * 228 ==> f.settled_vdp(v) == w.after_vblank()
            &&& f.vblank || f.clock < 212 * 228 ==> f.settled_vdp(v) == w
        }),
{
}

/// A line that starts has its registers kept. It is the line of the line interrupt where it
/// comes, scrolled by R23, two after the one in R19: bit 0 of S1 and the interrupt come
/// up. On any other line both go down, unless bit 4 of R0 lets them wait for a read.
pub proof fn law_line_starts(v: VdpState, line: int, k: int)
    requires
        v.wf(),
        0 <= line < 212,
        0 <= k < 256,
    ensures
        ({
            let t = line_started(v, line);
            let r = v.engine.regs;
            let hit = (line + r[23] - r[19] - 2) % 256 == 0;
            let waits = (r[0] / 16) % 2 == 1;
            &&& t.engine.regs == r && t.engine.vram == v.engine.vram
            &&& t.snaps[k] == (if k == line {
                snapshot_of(r)
            } else {
                v.snaps[k]
            })
            &&& hit ==> t.line_irq && t.engine.status[1] % 2 == 1
            &&& !hit && !waits ==> !t.line_irq && t.engine.status[1] % 2 == 0
            &&& !hit && waits ==> t.line_irq == v.line_irq && t.engine.status == v.engine.status
            &&& t.engine.status[1] / 2 == v.engine.status[1] / 2
            &&& t.engine.status[0] == v.engine.status[0] && t.engine.status[2]
                == v.engine.status[2]
        }),
{
    lemma_bits(v.engine.regs[0]);
    lemma_bits(v.engine.status[1]);
}

/// Lines start one after the other.
pub proof fn law_lines_in_order(v: VdpState, from: int, to: int)
    requires
        from < to,
    ensures
        lines_started(v, from, to) == line_started(lines_started(v, from, to - 1), to - 1),
        lines_started(v, from, from) == v,
{
}

/// A snapshot holds R0 to R8, R10, R11 and R23 as they were.
pub proof fn law_snapshot_holds(r: Seq<u8>)
    ensures
        ({
            let s = snapshot_of(r);
            &&& s.r0 == r[0] && s.r1 == r[1] && s.r2 == r[2] && s.r3 == r[3]
            &&& s.r4 == r[4] && s.r5 == r[5] && s.r6 == r[6] && s.r7 == r[7]
            &&& s.r8 == r[8] && s.r10 == r[10] && s.r11 == r[11] && s.r23 == r[23]
        }),
{
}

/// A frame starts with bit 6 of S2 down and the beam at the start of a line; nothing else changes.
pub proof fn law_frame_begins(v: VdpState, i: int)
    requires
        v.wf(),
        0 <= i < 10,
    ensures
        ({
            let t = frame_begun(v);
            let b = v.engine.status[2];
            &&& t.phase == 0
            &&& t.engine.status[2] == b - 64 * ((b / 64) % 2)
            &&& i != 2 ==> t.engine.status[i] == v.engine.status[i]
            &&& t.engine.regs == v.engine.regs && t.engine.vram == v.engine.vram
            &&& t.line_irq == v.line_irq && t.irq() == v.irq()
            &&& t.display == v.display && t.palette == v.palette && t.snaps == v.snaps
        }),
{
    let b = v.engine.status[2];
    assert(b & !0x40u8 == b - 64 * ((b / 64) % 2)) by (bit_vector);
}

} // verus!
