//! The SCC, the five-channel wavetable chip of Konami's cartridges.
//!
//! Of its 256 registers 0x00-0x7F hold four waves of 32 signed bytes, the last
//! for two channels; 0x80-0x89 hold the 12-bit period of each channel, low byte
//! first; 0x8A-0x8E the volumes, and 0x8F switches channels on.
pub mod voice_laws;

use vstd::prelude::*;

verus! {

/// Number of 12-bit periods.
pub const PERIODS: usize = 4096;

/// A register write on its way to the chip.
#[derive(Copy, Clone, PartialEq, Eq, Structural, Debug)]
pub struct SccWrite {
    pub reg: u8,
    pub value: u8,
}

/// Everything the chip holds, as values.
#[verifier::ext_equal]
pub struct SccState {
    pub regs: Seq<u8>,
    /// Position in the wave, in the top five bits.
    pub phase: Seq<u32>,
    /// What a sample adds to the position.
    pub step: Seq<u32>,
    /// The step of each period.
    pub steps: Seq<u32>,
}

/// A byte as a signed number.
pub open spec fn signed(b: u8) -> int {
    if b < 128 {
        b as int
    } else {
        b - 256
    }
}

impl SccState {
    pub open spec fn wf(self) -> bool {
        self.regs.len() == 256 && self.phase.len() == 5 && self.step.len() == 5 && self.steps.len()
            == PERIODS
    }

    /// The chip with everything at 0.
    pub open spec fn cleared(steps: Seq<u32>) -> SccState {
        SccState {
            regs: Seq::new(256, |i: int| 0u8),
            phase: Seq::new(5, |i: int| 0u32),
            step: Seq::new(5, |i: int| 0u32),
            steps,
        }
    }

    /// Period of a channel.
    pub open spec fn period(self, c: int) -> int {
        self.regs[0x80 + 2 * c] + 256 * (self.regs[0x81 + 2 * c] % 16)
    }

    /// A register written. A new period starts the wave over.
    pub open spec fn written(self, addr: u8, value: u8) -> SccState {
        let s = SccState { regs: self.regs.update(addr as int, value), ..self };
        if 0x80 <= addr <= 0x89 {
            let c = (addr - 0x80) / 2;
            SccState {
                phase: s.phase.update(c, 0),
                step: s.step.update(c, s.steps[s.period(c)]),
                ..s
            }
        } else {
            s
        }
    }

    /// Volume of a channel; 0 while it is off.
    pub open spec fn volume(self, c: int) -> int {
        if self.regs[0x8F] & (1u8 << (c as u8)) != 0 {
            (self.regs[0x8A + c] % 16) as int
        } else {
            0
        }
    }

    /// Position of a channel after the next sample.
    pub open spec fn next_phase(self, c: int) -> int {
        (self.phase[c] + self.step[c]) % 0x1_0000_0000
    }

    /// What a channel adds to the next sample; the last two share a wave.
    pub open spec fn output(self, c: int) -> int {
        let wave: int = if c > 3 {
            3
        } else {
            c
        };
        signed(self.regs[32 * wave + self.next_phase(c) / 0x800_0000]) * self.volume(c)
    }

    /// The next sample.
    pub open spec fn mix(self) -> int {
        self.output(0) + self.output(1) + self.output(2) + self.output(3) + self.output(4)
    }

    /// The chip one sample on.
    pub open spec fn sampled(self) -> SccState {
        SccState { phase: Seq::new(5, |c: int| self.next_phase(c) as u32), ..self }
    }
}

/// The chip.
pub struct Scc {
    regs: [u8; 256],
    phase: [u32; 5],
    step: [u32; 5],
    steps: Vec<u32>,
}

impl View for Scc {
    type V = SccState;

    closed spec fn view(&self) -> SccState {
        SccState {
            regs: self.regs@,
            phase: self.phase@,
            step: self.step@,
            steps: self.steps@,
        }
    }
}

impl Scc {
    pub open spec fn wf(&self) -> bool {
        self@.wf()
    }

    /// A chip for a sample rate: `steps` has what each period adds to the
    /// position in the wave with one sample, in units of 2^-27.
    pub fn new(steps: Vec<u32>) -> (r: Self)
        requires
            steps.len() == PERIODS,
        ensures
            r.wf(),
            r@ == SccState::cleared(steps@),
    {
        Scc { regs: [0; 256], phase: [0; 5], step: [0; 5], steps }
    }

    /// Clear everything, so that no note rings on.
    pub fn reset(&mut self)
        requires
            old(self).wf(),
        ensures
            final(self).wf(),
            final(self)@ == SccState::cleared(old(self)@.steps),
    {
        self.regs = [0; 256];
        self.phase = [0; 5];
        self.step = [0; 5];
    }

    /// Write a register.
    pub fn write_reg(&mut self, addr: u8, value: u8)
        requires
            old(self).wf(),
        ensures
            final(self).wf(),
            final(self)@ == old(self)@.written(addr, value),
    {
        self.regs[addr as usize] = value;
        if 0x80 <= addr && addr <= 0x89 {
            let c: usize = ((addr - 0x80) / 2) as usize;
            self.phase[c] = 0;
            self.step[c] = self.compute_step(c);
        }
    }

    fn compute_step(&self, c: usize) -> (r: u32)
        requires
            self.wf(),
            c < 5,
        ensures
            r == self@.steps[self@.period(c as int)],
    {
        let lo = self.regs[0x80 + 2 * c] as usize;
        let hi = (self.regs[0x81 + 2 * c] % 16) as usize;
        self.steps[lo + 256 * hi]
    }

    /// The next sample, between -9600 and 9600.
    pub fn next_sample(&mut self) -> (r: i32)
        requires
            old(self).wf(),
        ensures
            r == old(self)@.mix(),
            -9600 <= r <= 9600,
            final(self).wf(),
            final(self)@ == old(self)@.sampled(),
    {
        let ghost before = self@;
        let a = self.step_channel(0);
        let b = self.step_channel(1);
        let c = self.step_channel(2);
        let d = self.step_channel(3);
        let e = self.step_channel(4);
        assert(self@.phase =~= before.sampled().phase);
        a + b + c + d + e
    }

    fn step_channel(&mut self, c: usize) -> (r: i32)
        requires
            old(self).wf(),
            c < 5,
        ensures
            r == old(self)@.output(c as int),
            -1920 <= r <= 1920,
            final(self).wf(),
            final(self)@ == (SccState {
                phase: old(self)@.phase.update(c as int, old(self)@.next_phase(c as int) as u32),
                ..old(self)@
            }),
    {
        self.phase[c] = self.phase[c].wrapping_add(self.step[c]);
        let pos: usize = (self.phase[c] / 0x800_0000) as usize;
        let wave_chan: usize = if c > 3 {
            3
        } else {
            c
        };
        let byte = self.regs[32 * wave_chan + pos];
        let wave: i32 = if byte < 128 {
            byte as i32
        } else {
            byte as i32 - 256
        };
        let vol = self.volume(c) as i32;
        assert(-1920 <= wave * vol <= 1920) by (nonlinear_arith)
            requires
                -128 <= wave <= 127,
                0 <= vol <= 15,
        ;
        wave * vol
    }

    fn volume(&self, c: usize) -> (r: u8)
        requires
            c < 5,
        ensures
            r == self@.volume(c as int),
            r <= 15,
    {
        if self.regs[0x8F] & (1u8 << (c as u8)) != 0 {
            self.regs[0x8A + c] % 16
        } else {
            0
        }
    }
}

/// A chip with every channel off is silent, whatever its waves.
pub proof fn law_off_is_silent(s: SccState)
    requires
        s.wf(),
        s.regs[0x8F] == 0,
    ensures
        s.mix() == 0,
{
    assert(forall|c: u8| 0u8 & #[trigger] (1u8 << c) == 0) by (bit_vector);
    assert(forall|c: int| 0 <= c < 5 ==> s.regs[0x8F] & #[trigger] (1u8 << (c as u8)) == 0);
    assert(s.volume(0) == 0 && s.volume(1) == 0 && s.volume(2) == 0 && s.volume(3) == 0
        && s.volume(4) == 0);
}

/// Writing both bytes of a period starts the channel's wave over at the speed of
/// that period, and leaves the other channels running.
pub proof fn law_period_restarts_wave(s: SccState, c: int, lo: u8, hi: u8, other: int)
    requires
        s.wf(),
        0 <= c < 5,
        0 <= other < 5,
        other != c,
    ensures
        ({
            let t = s.written((0x80 + 2 * c) as u8, lo).written((0x81 + 2 * c) as u8, hi);
            &&& t.phase[c] == 0
            &&& t.step[c] == s.steps[lo + 256 * (hi % 16)]
            &&& t.phase[other] == s.phase[other]
            &&& t.step[other] == s.step[other]
        }),
{
}

} // verus!
