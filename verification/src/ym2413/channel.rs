//! A channel of the FM sound generator: a modulator and a carrier.
use crate::ym2413::operator::{self, Operator};
use crate::ym2413::tables;
use vstd::prelude::*;

verus! {

#[allow(unused_imports)]
use crate::ym2413::operator::{blank_operator, frequency};

/// Two operators that share a note.
#[derive(Copy, Clone, PartialEq, Eq, Structural)]
pub struct Channel {
    pub modulator: Operator,
    pub carrier: Operator,
    /// Octave and frequency number, three and nine bits.
    pub block_fnum: u32,
    pub fc: u32,
    pub ksl_base: u32,
    pub kcode: u32,
    pub sus: bool,
}

/// A channel with everything at 0.
pub open spec fn blank_channel() -> Channel {
    Channel {
        modulator: blank_operator(),
        carrier: blank_operator(),
        block_fnum: 0,
        fc: 0,
        ksl_base: 0,
        kcode: 0,
        sus: false,
    }
}

impl Channel {
    pub open spec fn wf(self) -> bool {
        &&& self.modulator.wf()
        &&& self.carrier.wf()
        &&& self.block_fnum < 4096
        &&& self.fc <= 4_190_208
        &&& self.ksl_base <= 112
        &&& self.kcode <= 15
    }

    /// Byte `i` of an instrument applied. Even bytes are for the modulator and
    /// odd ones for the carrier, but for the two bytes of levels.
    pub open spec fn with_byte(self, i: int, v: u8) -> Channel {
        let m = self.modulator;
        let c = self.carrier;
        if i == 0 {
            let m = m.with_flags(v).tuned(self.fc as int, self.kcode as int, self.sus);
            Channel { modulator: m, ..self }
        } else if i == 1 {
            let c = c.with_flags(v).tuned(self.fc as int, self.kcode as int, self.sus);
            Channel { carrier: c, ..self }
        } else if i == 2 {
            let m = m.with_levels((v / 64) as int, (v % 64) * 2, self.ksl_base as int);
            Channel { modulator: m, ..self }
        } else if i == 3 {
            let m = m.with_wave((v / 8) % 2 == 1, (v % 8) as int);
            let c = c.with_wave((v / 16) % 2 == 1, 0).with_levels(
                (v / 64) as int,
                c.tl as int,
                self.ksl_base as int,
            );
            Channel { modulator: m, carrier: c, ..self }
        } else if i == 4 {
            Channel { modulator: m.with_attack_decay(v), ..self }
        } else if i == 5 {
            Channel { carrier: c.with_attack_decay(v), ..self }
        } else if i == 6 {
            Channel { modulator: m.with_sustain_release(v), ..self }
        } else {
            Channel { carrier: c.with_sustain_release(v), ..self }
        }
    }

    /// The first `n` bytes of an instrument applied.
    pub open spec fn loaded(self, inst: Seq<u8>, n: int) -> Channel
        decreases n,
    {
        if n <= 0 {
            self
        } else {
            self.loaded(inst, n - 1).with_byte(n - 1, inst[n - 1])
        }
    }

    /// A new octave and frequency number.
    pub open spec fn at_pitch(self, block_fnum: int) -> Channel {
        if self.block_fnum == block_fnum {
            self
        } else {
            let kcode = block_fnum / 256;
            let base = tables::key_scale(block_fnum / 512, (block_fnum / 32) % 16);
            let fc = frequency(2 * block_fnum);
            Channel {
                modulator: self.modulator.leveled(base).tuned(fc, kcode, self.sus),
                carrier: self.carrier.leveled(base).tuned(fc, kcode, self.sus),
                block_fnum: block_fnum as u32,
                fc: fc as u32,
                ksl_base: base as u32,
                kcode: kcode as u32,
                sus: self.sus,
            }
        }
    }

    /// The low eight bits of the frequency number.
    pub open spec fn with_low(self, v: u8) -> Channel {
        self.at_pitch((self.block_fnum / 256) * 256 + v)
    }

    /// Sustain, key, octave and the high bit of the frequency number.
    pub open spec fn with_high(self, v: u8) -> Channel {
        let down = (v / 16) % 2 == 1;
        Channel { sus: (v / 32) % 2 == 1, ..self.keyed(false, down, down) }.at_pitch(
            (v % 16) * 256 + self.block_fnum % 256,
        )
    }

    /// Keys of the two operators, by a note or by a drum.
    pub open spec fn keyed(self, drum: bool, modulator: bool, carrier: bool) -> Channel {
        Channel {
            modulator: if modulator {
                self.modulator.keyed_on(drum)
            } else {
                self.modulator.keyed_off(drum)
            },
            carrier: if carrier {
                self.carrier.keyed_on(drum)
            } else {
                self.carrier.keyed_off(drum)
            },
            ..self
        }
    }

    /// A new volume, in the low four bits.
    pub open spec fn with_volume(self, v: u8) -> Channel {
        let c = self.carrier;
        Channel {
            carrier: c.with_levels(c.ksl as int, (v % 16) * 8, self.ksl_base as int),
            ..self
        }
    }

    /// A new volume of the drum that the modulator is, in the high four bits.
    pub open spec fn with_drum_volume(self, v: u8) -> Channel {
        let m = self.modulator;
        Channel {
            modulator: m.with_levels(m.ksl as int, (v / 16) * 8, self.ksl_base as int),
            ..self
        }
    }

    /// Output: the carrier, at an angle that the modulator shifts.
    pub open spec fn output(self, am: int) -> int {
        self.carrier.output(self.carrier.angle() + 2 * self.modulator.out1, am)
    }

    /// The modulator feeds its outputs back.
    pub open spec fn fed(self, am: int) -> Channel {
        Channel { modulator: self.modulator.fed(am), ..self }
    }

    /// One step of envelopes and oscillators. A carrier that starts its attack
    /// restarts both oscillators.
    pub open spec fn advanced(self, cnt: u32, drums: bool, pm: int) -> Channel {
        let m = self.modulator.enveloped(cnt, drums, self.sus);
        let c = self.carrier.enveloped(cnt, true, self.sus);
        let (m, c) = if self.carrier.starts() {
            (m.restarted(), c.restarted())
        } else {
            (m, c)
        };
        Channel {
            modulator: m.turned(self.block_fnum as int, pm),
            carrier: c.turned(self.block_fnum as int, pm),
            ..self
        }
    }

    /// A channel as it is after a reset: both operators off.
    pub open spec fn silenced(self) -> Channel {
        Channel {
            modulator: self.modulator.silenced(),
            carrier: self.carrier.silenced(),
            ..self
        }
    }
}

impl Channel {
    pub fn blank() -> (r: Channel)
        ensures
            r == blank_channel(),
            r.wf(),
    {
        Channel {
            modulator: Operator::blank(),
            carrier: Operator::blank(),
            block_fnum: 0,
            fc: 0,
            ksl_base: 0,
            kcode: 0,
            sus: false,
        }
    }

    /// Apply byte `i` of an instrument.
    pub fn set_byte(&mut self, i: usize, v: u8)
        requires
            old(self).wf(),
            i < 8,
        ensures
            *final(self) == old(self).with_byte(i as int, v),
            final(self).wf(),
    {
        match i {
            0 => {
                self.modulator.set_flags(v);
                self.modulator.tune(self.fc, self.kcode, self.sus);
            },
            1 => {
                self.carrier.set_flags(v);
                self.carrier.tune(self.fc, self.kcode, self.sus);
            },
            2 => {
                self.modulator.set_levels((v / 64) as u32, (v % 64) as u32 * 2, self.ksl_base);
            },
            3 => {
                let tl = self.carrier.total_level();
                self.modulator.set_wave((v / 8) % 2 == 1, (v % 8) as u32);
                self.carrier.set_wave((v / 16) % 2 == 1, 0);
                self.carrier.set_levels((v / 64) as u32, tl, self.ksl_base);
            },
            4 => self.modulator.set_ar_dr(v),
            5 => self.carrier.set_ar_dr(v),
            6 => self.modulator.set_sl_rr(v),
            _ => self.carrier.set_sl_rr(v),
        }
    }

    /// Apply a whole instrument.
    pub fn load_instrument(&mut self, inst: &[u8; 8])
        requires
            old(self).wf(),
        ensures
            *final(self) == old(self).loaded(inst@, 8),
            final(self).wf(),
    {
        let mut i: usize = 0;
        while i < 8
            invariant
                i <= 8,
                *self == old(self).loaded(inst@, i as int),
                self.wf(),
            decreases 8 - i,
        {
            self.set_byte(i, inst[i]);
            i = i + 1;
        }
    }

    fn set_pitch(&mut self, block_fnum: u32)
        requires
            old(self).wf(),
            block_fnum < 4096,
        ensures
            *final(self) == old(self).at_pitch(block_fnum as int),
            final(self).wf(),
    {
        if self.block_fnum != block_fnum {
            self.block_fnum = block_fnum;
            self.kcode = block_fnum / 256;
            self.ksl_base = tables::key_scale_of(block_fnum / 512, (block_fnum / 32) % 16);
            self.fc = operator::frequency_of(2 * block_fnum);
            self.modulator.apply_level(self.ksl_base);
            self.carrier.apply_level(self.ksl_base);
            self.modulator.tune(self.fc, self.kcode, self.sus);
            self.carrier.tune(self.fc, self.kcode, self.sus);
        }
    }

    /// The low eight bits of the frequency number.
    pub fn set_low(&mut self, v: u8)
        requires
            old(self).wf(),
        ensures
            *final(self) == old(self).with_low(v),
            final(self).wf(),
    {
        self.set_pitch((self.block_fnum / 256) * 256 + v as u32);
    }

    /// Sustain, key, octave and the high bit of the frequency number.
    pub fn set_high(&mut self, v: u8)
        requires
            old(self).wf(),
        ensures
            *final(self) == old(self).with_high(v),
            final(self).wf(),
    {
        let down = (v / 16) % 2 == 1;
        self.set_keys(false, down, down);
        self.sus = (v / 32) % 2 == 1;
        self.set_pitch((v % 16) as u32 * 256 + self.block_fnum % 256);
    }

    /// Keys of the two operators.
    pub fn set_keys(&mut self, drum: bool, modulator: bool, carrier: bool)
        requires
            old(self).wf(),
        ensures
            *final(self) == old(self).keyed(drum, modulator, carrier),
            final(self).wf(),
    {
        if modulator {
            self.modulator.key_on(drum);
        } else {
            self.modulator.key_off(drum);
        }
        if carrier {
            self.carrier.key_on(drum);
        } else {
            self.carrier.key_off(drum);
        }
    }

    pub fn set_volume(&mut self, v: u8)
        requires
            old(self).wf(),
        ensures
            *final(self) == old(self).with_volume(v),
            final(self).wf(),
    {
        let ksl = self.carrier.key_scaling();
        self.carrier.set_levels(ksl, (v % 16) as u32 * 8, self.ksl_base);
    }

    pub fn set_drum_volume(&mut self, v: u8)
        requires
            old(self).wf(),
        ensures
            *final(self) == old(self).with_drum_volume(v),
            final(self).wf(),
    {
        let ksl = self.modulator.key_scaling();
        self.modulator.set_levels(ksl, (v / 16) as u32 * 8, self.ksl_base);
    }

    /// One sample of the channel; the modulator feeds its output back.
    pub fn chan_calc(&mut self, am: u32) -> (r: i32)
        requires
            old(self).wf(),
            am <= 13,
        ensures
            r == old(self).output(am as int),
            *final(self) == old(self).fed(am as int),
            final(self).wf(),
            -2042 <= r <= 2042,
    {
        proof {
            reveal(Operator::output);
        }
        // 4096 is a multiple of a full turn and keeps the angle positive.
        let angle = (self.carrier.angle_now() as i32 + 2 * self.modulator.modulation() + 4096) as u32;
        let out = self.carrier.output_at(angle, am);
        self.modulator.step_feedback(am);
        out
    }

    /// One step of envelopes and oscillators.
    pub fn advance(&mut self, cnt: u32, drums: bool, pm: u32)
        requires
            old(self).wf(),
            pm < 8,
        ensures
            *final(self) == old(self).advanced(cnt, drums, pm as int),
            final(self).wf(),
    {
        self.modulator.step_envelope(cnt, drums, self.sus);
        if self.carrier.step_envelope(cnt, true, self.sus) {
            self.modulator.restart();
            self.carrier.restart();
        }
        self.modulator.step_phase(self.block_fnum, pm);
        self.carrier.step_phase(self.block_fnum, pm);
    }

    /// Both operators off.
    pub fn silence(&mut self)
        requires
            old(self).wf(),
        ensures
            *final(self) == old(self).silenced(),
            final(self).wf(),
    {
        self.modulator.silence();
        self.carrier.silence();
    }
}

} // verus!
