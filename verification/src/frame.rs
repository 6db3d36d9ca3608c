//! One video frame: when scanlines start, when their interrupts fire, and when
//! the vertical blank begins, between the instructions of the CPU.
pub mod beam_laws;

use crate::vdp::Vdp;
use vstd::prelude::*;

verus! {

#[allow(unused_imports)]
use crate::vdp::{snapshot_of, VdpState};

/// T-states of a 60 Hz frame.
pub const FRAME_TSTATES: i32 = 59659;

/// T-states of a 50 Hz frame: 313 scanlines.
pub const PAL_FRAME_TSTATES: i32 = 71364;

/// T-states of a scanline.
pub const SCANLINE_TSTATES: i32 = 228;

/// Scanlines that are scanned out.
pub const VISIBLE_LINES: i32 = 212;

/// T-states until the last visible scanline is out.
pub const VISIBLE_TSTATES: i32 = 48336;

/// The processor as a frame starts: VR is down, and the beam is at the start of a scanline.
pub open spec fn frame_begun(v: VdpState) -> VdpState {
    (VdpState { phase: 0, ..v }).with_engine(v.engine.with_status(2, v.engine.status[2] & !0x40u8))
}

/// The processor as a scanline starts: its registers are kept, and FH tells
/// whether the line is that of the line interrupt. With the interrupt enabled,
/// FH stays up until it is acknowledged.
pub open spec fn line_started(v: VdpState, line: int) -> VdpState {
    let s = VdpState { snaps: v.snaps.update(line, snapshot_of(v.engine.regs)), ..v };
    let e = v.engine;
    if (line + e.regs[23] - e.regs[19]) % 256 == 2 {
        (VdpState { line_irq: true, ..s }).with_engine(e.with_status(1, e.status[1] | 0x01))
    } else if e.regs[0] & 0x10 == 0 {
        (VdpState { line_irq: false, ..s }).with_engine(e.with_status(1, e.status[1] & !0x01u8))
    } else {
        s
    }
}

/// The processor after the scanlines from `from` up to `to` have started.
pub open spec fn lines_started(v: VdpState, from: int, to: int) -> VdpState
    decreases to - from,
{
    if from >= to {
        v
    } else {
        line_started(lines_started(v, from, to - 1), to - 1)
    }
}

/// How far a frame has come.
pub struct FrameState {
    /// T-states of the whole frame.
    pub length: int,
    /// T-states since its start.
    pub clock: int,
    /// Scanlines that have started.
    pub lines: int,
    /// Whether the vertical blank has begun.
    pub vblank: bool,
}

impl FrameState {
    pub open spec fn wf(self) -> bool {
        &&& VISIBLE_TSTATES < self.length <= PAL_FRAME_TSTATES
        &&& 0 <= self.clock <= i32::MAX
        &&& 0 <= self.lines <= VISIBLE_LINES
    }

    /// The start of a frame, with 50 Hz as R9 selects it.
    pub open spec fn start(v: VdpState) -> FrameState {
        FrameState {
            length: if v.engine.regs[9] & 0x02 != 0 {
                PAL_FRAME_TSTATES as int
            } else {
                FRAME_TSTATES as int
            },
            clock: 0,
            lines: 0,
            vblank: false,
        }
    }

    pub open spec fn over(self) -> bool {
        self.clock >= self.length
    }

    /// Scanlines that have started by the clock, but no fewer than already have.
    pub open spec fn due(self) -> int {
        let n = if self.clock < VISIBLE_TSTATES {
            self.clock / 228 + 1
        } else {
            VISIBLE_LINES as int
        };
        if n < self.lines {
            self.lines
        } else {
            n
        }
    }

    /// Whether the vertical blank begins now.
    pub open spec fn blanks(self) -> bool {
        !self.vblank && self.clock >= VISIBLE_TSTATES
    }

    /// The frame once everything due by the clock has happened. Where the frame
    /// is over, only the vertical blank is still owed.
    pub open spec fn settled(self) -> FrameState {
        FrameState {
            lines: if self.over() {
                self.lines
            } else {
                self.due()
            },
            vblank: self.vblank || self.blanks(),
            ..self
        }
    }

    /// The processor once everything due by the clock has happened.
    pub open spec fn settled_vdp(self, v: VdpState) -> VdpState {
        let w = if self.over() {
            v
        } else {
            lines_started(v, self.lines, self.due())
        };
        if self.blanks() {
            w.after_vblank()
        } else {
            w
        }
    }

    /// An instruction of `dt` T-states later.
    pub open spec fn advanced(self, dt: int) -> FrameState {
        FrameState { clock: self.clock + dt, ..self }
    }
}

/// A frame in progress.
pub struct Frame {
    length: i32,
    clock: i32,
    lines: i32,
    vblank: bool,
}

impl View for Frame {
    type V = FrameState;

    closed spec fn view(&self) -> FrameState {
        FrameState {
            length: self.length as int,
            clock: self.clock as int,
            lines: self.lines as int,
            vblank: self.vblank,
        }
    }
}

impl Frame {
    pub open spec fn wf(&self) -> bool {
        self@.wf()
    }

    /// Start a frame: VR drops, and the beam is at the start of a scanline.
    pub fn begin(vdp: &mut Vdp) -> (r: Frame)
        requires
            old(vdp).wf(),
        ensures
            r.wf(),
            r@ == FrameState::start(old(vdp)@),
            final(vdp).wf(),
            final(vdp)@ == (VdpState { phase: 0, ..old(vdp)@ }).with_engine(
                old(vdp)@.engine.with_status(2, old(vdp)@.engine.status[2] & !0x40u8),
            ),
            final(vdp)@ == frame_begun(old(vdp)@),
    {
        let length = if vdp.is_pal() {
            PAL_FRAME_TSTATES
        } else {
            FRAME_TSTATES
        };
        vdp.clear_vblank_flag();
        vdp.reset_scanline_phase();
        Frame { length, clock: 0, lines: 0, vblank: false }
    }

    /// T-states since the start of the frame.
    pub fn clock(&self) -> (r: i32)
        ensures
            r == self@.clock,
    {
        self.clock
    }

    /// T-states of the whole frame.
    pub fn length(&self) -> (r: i32)
        ensures
            r == self@.length,
    {
        self.length
    }

    /// Do what is due before the next instruction: start scanlines, and begin
    /// the vertical blank. Returns whether there is a next instruction, or the
    /// frame is over.
    pub fn settle(&mut self, vdp: &mut Vdp) -> (r: bool)
        requires
            old(self).wf(),
            old(vdp).wf(),
        ensures
            final(self).wf(),
            final(vdp).wf(),
            r == !old(self)@.over(),
            final(self)@ == old(self)@.settled(),
            final(vdp)@ == old(self)@.settled_vdp(old(vdp)@),
    {
        let more = self.clock < self.length;
        if more {
            let due: i32 = if self.clock < VISIBLE_TSTATES {
                self.clock / SCANLINE_TSTATES + 1
            } else {
                VISIBLE_LINES
            };
            let ghost v = vdp@;
            let ghost from = self.lines as int;
            let ghost f = self@;
            while self.lines < due
                invariant
                    0 <= from <= self.lines <= VISIBLE_LINES,
                    0 <= due <= VISIBLE_LINES,
                    self.lines <= due || self.lines == from,
                    self@ == (FrameState { lines: self.lines as int, ..f }),
                    vdp.wf(),
                    vdp@ == lines_started(v, from, self.lines as int),
                decreases due - self.lines,
            {
                let line = self.lines;
                let ghost before = vdp@;
                vdp.snapshot_scanline(line as usize);
                if vdp.line_irq_target(line as u8) {
                    vdp.fire_line_irq();
                } else if vdp.regs()[0] & 0x10 == 0 {
                    vdp.clear_line_irq_flag();
                }
                self.lines = line + 1;
                assert(vdp@ == line_started(before, line as int));
            }
        }
        if !self.vblank && self.clock >= VISIBLE_TSTATES {
            vdp.start_vblank();
            self.vblank = true;
        }
        more
    }

    /// Account for an instruction that took `dt` T-states.
    pub fn advance(&mut self, vdp: &mut Vdp, dt: i32)
        requires
            old(self).wf(),
            old(vdp).wf(),
            0 <= dt,
            old(self)@.clock + dt + SCANLINE_TSTATES <= i32::MAX,
        ensures
            final(self).wf(),
            final(vdp).wf(),
            final(self)@ == old(self)@.advanced(dt as int),
            final(vdp)@ == (if dt > 0 {
                old(vdp)@.after_tick(dt as int)
            } else {
                old(vdp)@
            }),
    {
        self.clock = self.clock + dt;
        if dt > 0 {
            vdp.tick(dt);
        }
    }
}

/// A frame after instructions of the given lengths, each preceded by what was
/// due.
pub open spec fn after_instructions(f: FrameState, dts: Seq<int>) -> FrameState
    decreases dts.len(),
{
    if dts.len() == 0 {
        f
    } else {
        after_instructions(f, dts.drop_last()).settled().advanced(dts.last())
    }
}

/// How often the vertical blank begins before the last of these instructions.
pub open spec fn blanks_begun(f: FrameState, dts: Seq<int>) -> int
    decreases dts.len(),
{
    if dts.len() == 0 {
        0
    } else {
        blanks_begun(f, dts.drop_last()) + if after_instructions(f, dts.drop_last()).blanks() {
            1int
        } else {
            0
        }
    }
}

/// Instructions have a length, and none starts after the end of the frame.
pub open spec fn fits(f: FrameState, dts: Seq<int>) -> bool {
    &&& forall|i: int| 0 <= i < dts.len() ==> dts[i] >= 0
    &&& forall|i: int|
        0 <= i < dts.len() ==> !(#[trigger] after_instructions(f, dts.take(i))).over()
}

proof fn lemma_blanks(v: VdpState, dts: Seq<int>)
    ensures
        blanks_begun(FrameState::start(v), dts) == if after_instructions(
            FrameState::start(v),
            dts,
        ).vblank {
            1int
        } else {
            0
        },
        after_instructions(FrameState::start(v), dts).length == FrameState::start(v).length,
    decreases dts.len(),
{
    if dts.len() > 0 {
        lemma_blanks(v, dts.drop_last());
    }
}

/// However long its instructions are, a frame that has come to its end begins
/// the vertical blank exactly once.
pub proof fn law_one_vertical_blank(v: VdpState, dts: Seq<int>)
    requires
        after_instructions(FrameState::start(v), dts).over(),
    ensures
        after_instructions(FrameState::start(v), dts).settled().vblank,
        blanks_begun(FrameState::start(v), dts) + (if after_instructions(
            FrameState::start(v),
            dts,
        ).blanks() {
            1int
        } else {
            0
        }) == 1,
{
    lemma_blanks(v, dts);
}

proof fn lemma_lines(v: VdpState, dts: Seq<int>)
    requires
        fits(FrameState::start(v), dts),
        forall|i: int|
            0 <= i < dts.len() ==> dts[i] < FrameState::start(v).length - VISIBLE_TSTATES,
    ensures
        ({
            let f = after_instructions(FrameState::start(v), dts);
            &&& f.length == FrameState::start(v).length
            &&& f.clock >= 0
            &&& 0 <= f.lines <= VISIBLE_LINES
            &&& f.clock >= f.length ==> f.lines == VISIBLE_LINES
        }),
    decreases dts.len(),
{
    if dts.len() > 0 {
        let n = dts.len() - 1;
        let head = dts.drop_last();
        assert(head =~= dts.take(n));
        assert forall|i: int| 0 <= i < head.len() implies !(#[trigger] after_instructions(
            FrameState::start(v),
            head.take(i),
        )).over() by {
            assert(head.take(i) =~= dts.take(i));
        }
        lemma_lines(v, head);
        let f = after_instructions(FrameState::start(v), head);
        assert(!after_instructions(FrameState::start(v), dts.take(n)).over());
        assert(f.clock + dts.last() >= f.length ==> f.clock >= VISIBLE_TSTATES);
    }
}

/// Every visible scanline has started by the end of a frame, as long as no
/// instruction lasts for the whole of the vertical blank.
pub proof fn law_all_lines_start(v: VdpState, dts: Seq<int>)
    requires
        fits(FrameState::start(v), dts),
        forall|i: int|
            0 <= i < dts.len() ==> dts[i] < FrameState::start(v).length - VISIBLE_TSTATES,
        after_instructions(FrameState::start(v), dts).over(),
    ensures
        after_instructions(FrameState::start(v), dts).settled().lines == VISIBLE_LINES,
{
    lemma_lines(v, dts);
}

proof fn lemma_started_frame(v: VdpState, from: int, to: int)
    requires
        0 <= from <= to <= VISIBLE_LINES,
        v.wf(),
    ensures
        ({
            let w = lines_started(v, from, to);
            &&& w.wf()
            &&& w.engine.regs == v.engine.regs
            &&& w.engine.vram == v.engine.vram
            &&& forall|k: int|
                0 <= k < 256 ==> #[trigger] w.snaps[k] == if from <= k < to {
                    snapshot_of(v.engine.regs)
                } else {
                    v.snaps[k]
                }
        }),
    decreases to - from,
{
    if from < to {
        lemma_started_frame(v, from, to - 1);
    }
}

/// Starting scanlines keeps the registers of the processor for each of them,
/// and touches no other line's, nor any register, nor VRAM.
pub proof fn law_lines_keep_registers(v: VdpState, from: int, to: int, k: int)
    requires
        0 <= from <= to <= VISIBLE_LINES,
        v.wf(),
        0 <= k < 256,
    ensures
        lines_started(v, from, to).snaps[k] == if from <= k < to {
            snapshot_of(v.engine.regs)
        } else {
            v.snaps[k]
        },
        lines_started(v, from, to).engine.regs == v.engine.regs,
        lines_started(v, from, to).engine.vram == v.engine.vram,
{
    lemma_started_frame(v, from, to);
}

/// With the line interrupt off, FH shows whether the last line that started is
/// that of the interrupt.
pub proof fn law_line_flag_pulses(v: VdpState, line: int)
    requires
        v.wf(),
        0 <= line < VISIBLE_LINES,
        v.engine.regs[0] & 0x10 == 0,
    ensures
        (line_started(v, line).engine.status[1] & 0x01 != 0) == ((line + v.engine.regs[23]
            - v.engine.regs[19]) % 256 == 2),
        !line_started(v, line).irq() || v.engine.regs[1] & 0x20 != 0,
{
    let b = v.engine.status[1];
    assert((b | 0x01) & 0x01 != 0 && (b & !0x01u8) & 0x01 == 0) by (bit_vector);
}

} // verus!
