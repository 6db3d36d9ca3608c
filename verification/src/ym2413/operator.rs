//! One operator of the FM sound generator: a sine oscillator with an envelope.
use crate::ym2413::tables::{self, Rate};
use vstd::prelude::*;

verus! {

/// Stage of an envelope.
#[derive(Copy, Clone, PartialEq, Eq, Structural)]
pub enum Stage {
    Off,
    Release,
    Sustain,
    Decay,
    Attack,
    /// Falling silent before a new note starts.
    Damp,
}

/// An oscillator with an envelope.
#[derive(Copy, Clone, PartialEq, Eq, Structural)]
pub struct Operator {
    /// Rate numbers of attack, decay and release.
    pub ar: u32,
    pub dr: u32,
    pub rr: u32,
    /// How much of the key code goes into the rates: all of it, or a quarter.
    pub full_key_rate: bool,
    /// Key scale level: 0 for none.
    pub ksl: u32,
    /// What the key adds to the rates.
    pub ksr: u32,
    pub mul: u32,
    pub phase: u32,
    pub freq: u32,
    /// Feedback: 0 for none, else a power of two.
    pub feedback: u32,
    /// The last two outputs.
    pub out0: i32,
    pub out1: i32,
    /// Whether the level holds while the key is down.
    pub holds: bool,
    pub stage: Stage,
    /// Total level, alone and with key scaling.
    pub tl: u32,
    pub tll: u32,
    /// Envelope attenuation.
    pub volume: u32,
    /// Sustain level.
    pub sl: u32,
    pub damp: Rate,
    pub attack: Rate,
    pub decay: Rate,
    pub release: Rate,
    /// Release rate of a percussive or sustained note.
    pub fade: Rate,
    /// Keyed by a note, and by the rhythm register.
    pub key_note: bool,
    pub key_drum: bool,
    pub tremolo: bool,
    pub vibrato: bool,
    pub half_wave: bool,
}

/// An operator with everything at 0.
pub open spec fn blank_operator() -> Operator {
    let still = Rate { shift: 0, row: 0 };
    Operator {
        ar: 0,
        dr: 0,
        rr: 0,
        full_key_rate: true,
        ksl: 3,
        ksr: 0,
        mul: 0,
        phase: 0,
        freq: 0,
        feedback: 0,
        out0: 0,
        out1: 0,
        holds: false,
        stage: Stage::Off,
        tl: 0,
        tll: 0,
        volume: 0,
        sl: 0,
        damp: still,
        attack: still,
        decay: still,
        release: still,
        fade: still,
        key_note: false,
        key_drum: false,
        tremolo: false,
        vibrato: false,
        half_wave: false,
    }
}

/// The silent end of the envelope, up to the last steps.
pub open spec fn silent(volume: int) -> bool {
    124 <= volume < 128
}

/// A step of rate `r` falls on sample `cnt`.
pub open spec fn due(r: Rate, cnt: u32) -> bool {
    cnt as int % tables::power(r.shift as int) == 0
}

/// Which of its 16 steps the rate is at.
pub open spec fn step_of(r: Rate, cnt: u32) -> int {
    (cnt as int / tables::power(r.shift as int)) % 16
}

/// An attack step of rate `r` falls on sample `cnt`: the last two bits do not
/// count.
pub open spec fn attack_due(r: Rate, cnt: u32) -> bool {
    r.shift <= 2 || (cnt as int / 4) % tables::power(r.shift - 2) == 0
}

impl Operator {
    #[verifier::opaque]
    pub open spec fn wf(self) -> bool {
        &&& self.ar <= 76
        &&& self.dr <= 76
        &&& self.rr <= 76
        &&& self.ksl <= 3
        &&& self.ksr <= 15
        &&& self.mul <= 30
        &&& self.freq <= 125_706_240
        &&& self.feedback <= 15
        &&& -2042 <= self.out0 <= 2042
        &&& -2042 <= self.out1 <= 2042
        &&& self.tl <= 126
        &&& self.tll <= 238
        &&& self.volume <= 127
        &&& self.stage is Decay || self.stage is Sustain || self.stage is Release ==> self.volume
            < 124
        &&& self.sl <= 120
        &&& self.damp.shift <= 13
        &&& self.attack.shift <= 13
        &&& self.decay.shift <= 13
        &&& self.release.shift <= 13
        &&& self.fade.shift <= 13
        &&& self.attack.row <= 16
    }

    /// The key goes down.
    #[verifier::opaque]
    pub open spec fn keyed_on(self, drum: bool) -> Operator {
        Operator {
            stage: if self.key_note || self.key_drum {
                self.stage
            } else {
                Stage::Damp
            },
            key_note: self.key_note || !drum,
            key_drum: self.key_drum || drum,
            ..self
        }
    }

    /// The key goes up. Once nothing holds the operator it is released.
    #[verifier::opaque]
    pub open spec fn keyed_off(self, drum: bool) -> Operator {
        let note = self.key_note && drum;
        let beat = self.key_drum && !drum;
        Operator {
            stage: if (self.key_note || self.key_drum) && !note && !beat {
                if silent(self.volume as int) {
                    Stage::Off
                } else {
                    Stage::Release
                }
            } else {
                self.stage
            },
            key_note: note,
            key_drum: beat,
            ..self
        }
    }

    /// Frequency and rates for a new key. The rates that the instrument sets
    /// change only with what the key adds to them.
    #[verifier::opaque]
    pub open spec fn tuned(self, fc: int, kcode: int, sus: bool) -> Operator {
        let ksr = if self.full_key_rate {
            kcode
        } else {
            kcode / 4
        };
        let op = Operator { freq: (fc * self.mul) as u32, ..self };
        let op = if self.ksr == ksr {
            op
        } else {
            Operator {
                ksr: ksr as u32,
                attack: tables::eg_attack_rate(self.ar + ksr),
                decay: tables::eg_rate(self.dr + ksr),
                release: tables::eg_rate(self.rr + ksr),
                ..op
            }
        };
        let base: int = if sus {
            36
        } else {
            44
        };
        Operator { fade: tables::eg_rate(base + ksr), damp: tables::eg_rate(64 + ksr), ..op }
    }

    /// The first instrument byte: tremolo, vibrato, hold, key rate, multiple.
    #[verifier::opaque]
    pub open spec fn with_flags(self, v: u8) -> Operator {
        Operator {
            mul: tables::multiple((v % 16) as int) as u32,
            full_key_rate: (v / 16) % 2 == 1,
            holds: (v / 32) % 2 == 1,
            vibrato: (v / 64) % 2 == 1,
            tremolo: v / 128 == 1,
            ..self
        }
    }

    /// The total level with key scaling, by the level of the key.
    #[verifier::opaque]
    pub open spec fn leveled(self, ksl_base: int) -> Operator {
        let scale = if self.ksl == 0 {
            0
        } else if self.ksl == 1 {
            ksl_base / 4
        } else if self.ksl == 2 {
            ksl_base / 2
        } else {
            ksl_base
        };
        Operator { tll: (self.tl + scale) as u32, ..self }
    }

    /// Attack and decay rates.
    #[verifier::opaque]
    pub open spec fn with_attack_decay(self, v: u8) -> Operator {
        let ar = tables::rate_number((v / 16) as int);
        let dr = tables::rate_number((v % 16) as int);
        Operator {
            ar: ar as u32,
            attack: tables::eg_attack_rate(ar + self.ksr),
            dr: dr as u32,
            decay: tables::eg_rate(dr + self.ksr),
            ..self
        }
    }

    /// Sustain level and release rate.
    #[verifier::opaque]
    pub open spec fn with_sustain_release(self, v: u8) -> Operator {
        let rr = tables::rate_number((v % 16) as int);
        Operator {
            sl: (8 * (v / 16)) as u32,
            rr: rr as u32,
            release: tables::eg_rate(rr + self.ksr),
            ..self
        }
    }

    /// A step of rate `r` towards silence, where the envelope ends.
    #[verifier::opaque]
    pub open spec fn faded(self, r: Rate, cnt: u32) -> Operator {
        if due(r, cnt) {
            let volume = self.volume + tables::eg_increment(r.row as int, step_of(r, cnt));
            Operator {
                volume: volume as u32,
                stage: if silent(volume) {
                    Stage::Off
                } else {
                    self.stage
                },
                ..self
            }
        } else {
            self
        }
    }

    /// One step of the envelope. `releases` is up where a released operator
    /// falls silent by itself: carriers and drums. `sus` is the sustain flag of
    /// the channel.
    #[verifier::opaque]
    pub open spec fn enveloped(self, cnt: u32, releases: bool, sus: bool) -> Operator {
        match self.stage {
            Stage::Damp => if silent(self.volume as int) {
                Operator {
                    stage: Stage::Attack,
                    volume: if self.ar + self.ksr >= 76 {
                        0
                    } else {
                        self.volume
                    },
                    ..self
                }
            } else if due(self.damp, cnt) {
                Operator {
                    volume: (self.volume + tables::eg_increment(
                        self.damp.row as int,
                        step_of(self.damp, cnt),
                    )) as u32,
                    ..self
                }
            } else {
                self
            },
            Stage::Attack => if self.volume == 0 {
                Operator { stage: Stage::Decay, ..self }
            } else if attack_due(self.attack, cnt) {
                let f = tables::attack_factor(
                    self.attack.row as int,
                    step_of(self.attack, cnt),
                );
                Operator { volume: attacked(self.volume as int, f) as u32, ..self }
            } else {
                self
            },
            Stage::Decay => if self.volume - self.volume % 8 == self.sl {
                Operator { stage: Stage::Sustain, ..self }
            } else {
                self.faded(self.decay, cnt)
            },
            Stage::Sustain => if self.holds {
                self
            } else {
                self.faded(self.release, cnt)
            },
            Stage::Release => if !releases {
                self
            } else if self.holds && !sus {
                self.faded(self.release, cnt)
            } else {
                self.faded(self.fade, cnt)
            },
            Stage::Off => Operator { volume: 127, ..self },
        }
    }

    /// Whether this envelope step starts the attack.
    pub open spec fn starts(self) -> bool {
        self.stage is Damp && silent(self.volume as int)
    }

    /// One step of the oscillator, with the vibrato at step `pm`.
    #[verifier::opaque]
    pub open spec fn turned(self, block_fnum: int, pm: int) -> Operator {
        let offset = tables::vibrato((block_fnum / 64) % 8, pm);
        let f = if self.vibrato && offset != 0 {
            frequency(2 * block_fnum + offset) * self.mul
        } else {
            self.freq as int
        };
        Operator { phase: ((self.phase + f) % 0x1_0000_0000) as u32, ..self }
    }

    /// Envelope level, with the tremolo at depth `am`; 176 and above is silence.
    pub open spec fn level(self, am: int) -> int {
        if self.stage is Off {
            176
        } else {
            self.tll + self.volume + if self.tremolo {
                am
            } else {
                0
            }
        }
    }

    /// Output at an angle.
    #[verifier::opaque]
    pub open spec fn output(self, angle: int, am: int) -> int {
        if self.level(am) < 176 {
            tables::operator_output(angle, self.level(am), self.half_wave)
        } else {
            0
        }
    }

    /// The angle that the oscillator is at.
    pub open spec fn angle(self) -> int {
        self.phase as int / 65536
    }

    /// Output with feedback of its own last two outputs.
    #[verifier::opaque]
    pub open spec fn fed_back(self, am: int) -> int {
        let fb = if self.feedback == 0 {
            0
        } else {
            (self.out0 + self.out1) * tables::power(self.feedback as int)
        };
        self.output(self.angle() + fb / 65536, am)
    }

    /// The last two outputs, one further on.
    #[verifier::opaque]
    pub open spec fn fed(self, am: int) -> Operator {
        Operator { out0: self.out1, out1: self.fed_back(am) as i32, ..self }
    }

    /// A key scale and total level, for a key of level `ksl_base`.
    #[verifier::opaque]
    pub open spec fn with_levels(self, ksl: int, tl: int, ksl_base: int) -> Operator {
        Operator { ksl: ksl as u32, tl: tl as u32, ..self }.leveled(ksl_base)
    }

    /// A wave and a feedback of 0 to 7.
    #[verifier::opaque]
    pub open spec fn with_wave(self, half_wave: bool, feedback: int) -> Operator {
        Operator {
            half_wave,
            feedback: if feedback != 0 {
                (feedback + 8) as u32
            } else {
                0
            },
            ..self
        }
    }

    /// The oscillator back at the start of its wave.
    #[verifier::opaque]
    pub open spec fn restarted(self) -> Operator {
        Operator { phase: 0, ..self }
    }

    /// Off, as after a reset.
    #[verifier::opaque]
    pub open spec fn silenced(self) -> Operator {
        Operator { half_wave: false, stage: Stage::Off, volume: 127, ..self }
    }
}

/// The attenuation after one attack step: the distance to full volume shrinks
/// by `f` sixteenths.
pub open spec fn attacked(volume: int, f: int) -> int {
    volume - ((volume + 1) * f + 15) / 16
}

/// Phase steps per sample for a frequency number with its octave above.
pub open spec fn frequency(n: int) -> int {
    (n % 1024) * 32 * tables::power((n / 1024) % 8)
}

proof fn lemma_frequency(n: int)
    ensures
        0 <= frequency(n) <= 4_190_208,
{
    reveal_with_fuel(tables::power, 8);
    let p = tables::power((n / 1024) % 8);
    assert(1 <= p <= 128);
    assert(0 <= (n % 1024) * 32 * p <= 1023 * 32 * 128) by (nonlinear_arith)
        requires
            1 <= p <= 128,
            0 <= n % 1024 <= 1023,
    ;
}

/// Phase steps per sample for a frequency number with its octave above.
pub fn frequency_of(n: u32) -> (r: u32)
    ensures
        r == frequency(n as int),
        r <= 4_190_208,
{
    let p = tables::power_of_two((n / 1024) % 8);
    proof {
        lemma_frequency(n as int);
        assert(0 <= (n % 1024) * 32 * p);
    }
    (n % 1024) * 32 * p
}

fn scaled(fc: u32, mul: u32) -> (r: u32)
    requires
        fc <= 4_190_208,
        mul <= 30,
    ensures
        r == fc * mul,
        r <= 125_706_240,
{
    assert(fc * mul <= 4_190_208 * 30) by (nonlinear_arith)
        requires
            fc <= 4_190_208,
            mul <= 30,
    ;
    fc * mul
}

fn is_due(r: Rate, cnt: u32) -> (b: bool)
    requires
        r.shift <= 13,
    ensures
        b == due(r, cnt),
{
    cnt % tables::power_of_two(r.shift) == 0
}

fn rate_step(r: Rate, cnt: u32) -> (k: u32)
    requires
        r.shift <= 13,
    ensures
        k == step_of(r, cnt),
{
    (cnt / tables::power_of_two(r.shift)) % 16
}

fn is_attack_due(r: Rate, cnt: u32) -> (b: bool)
    requires
        r.shift <= 13,
    ensures
        b == attack_due(r, cnt),
{
    r.shift <= 2 || (cnt / 4) % tables::power_of_two(r.shift - 2) == 0
}

impl Operator {
    pub fn blank() -> (r: Operator)
        ensures
            r == blank_operator(),
            r.wf(),
    {
        proof {
            reveal(Operator::wf);
        }
        let still = Rate { shift: 0, row: 0 };
        Operator {
            ar: 0,
            dr: 0,
            rr: 0,
            full_key_rate: true,
            ksl: 3,
            ksr: 0,
            mul: 0,
            phase: 0,
            freq: 0,
            feedback: 0,
            out0: 0,
            out1: 0,
            holds: false,
            stage: Stage::Off,
            tl: 0,
            tll: 0,
            volume: 0,
            sl: 0,
            damp: still,
            attack: still,
            decay: still,
            release: still,
            fade: still,
            key_note: false,
            key_drum: false,
            tremolo: false,
            vibrato: false,
            half_wave: false,
        }
    }

    /// The key goes down.
    pub fn key_on(&mut self, drum: bool)
        requires
            old(self).wf(),
        ensures
            *final(self) == old(self).keyed_on(drum),
            final(self).wf(),
    {
        proof {
            reveal(Operator::wf);
            reveal(Operator::keyed_on);
        }
        if !self.key_note && !self.key_drum {
            self.stage = Stage::Damp;
        }
        if drum {
            self.key_drum = true;
        } else {
            self.key_note = true;
        }
    }

    /// The key goes up.
    pub fn key_off(&mut self, drum: bool)
        requires
            old(self).wf(),
        ensures
            *final(self) == old(self).keyed_off(drum),
            final(self).wf(),
    {
        proof {
            reveal(Operator::wf);
            reveal(Operator::keyed_off);
        }
        if self.key_note || self.key_drum {
            if drum {
                self.key_drum = false;
            } else {
                self.key_note = false;
            }
            if !self.key_note && !self.key_drum {
                self.stage = if self.volume >= 124 {
                    Stage::Off
                } else {
                    Stage::Release
                };
            }
        }
    }

    /// Frequency and rates for a new key.
    pub fn tune(&mut self, fc: u32, kcode: u32, sus: bool)
        requires
            old(self).wf(),
            fc <= 4_190_208,
            kcode <= 15,
        ensures
            *final(self) == old(self).tuned(fc as int, kcode as int, sus),
            final(self).wf(),
    {
        proof {
            reveal(Operator::wf);
            reveal(Operator::tuned);
        }
        self.freq = scaled(fc, self.mul);
        let ksr: u32 = if self.full_key_rate {
            kcode
        } else {
            kcode / 4
        };
        if self.ksr != ksr {
            self.ksr = ksr;
            self.attack = tables::attack_rate(self.ar + ksr);
            self.decay = tables::rate(self.dr + ksr);
            self.release = tables::rate(self.rr + ksr);
        }
        let base: u32 = if sus {
            36
        } else {
            44
        };
        self.fade = tables::rate(base + ksr);
        self.damp = tables::rate(64 + ksr);
    }

    /// The first instrument byte.
    pub fn set_flags(&mut self, v: u8)
        requires
            old(self).wf(),
        ensures
            *final(self) == old(self).with_flags(v),
            final(self).wf(),
    {
        proof {
            reveal(Operator::wf);
            reveal(Operator::with_flags);
        }
        self.mul = tables::multiple_of(v % 16);
        self.full_key_rate = (v / 16) % 2 == 1;
        self.holds = (v / 32) % 2 == 1;
        self.vibrato = (v / 64) % 2 == 1;
        self.tremolo = v / 128 == 1;
    }

    /// The total level with key scaling.
    pub fn apply_level(&mut self, ksl_base: u32)
        requires
            old(self).wf(),
            ksl_base <= 112,
        ensures
            *final(self) == old(self).leveled(ksl_base as int),
            final(self).wf(),
    {
        proof {
            reveal(Operator::wf);
            reveal(Operator::leveled);
        }
        let scale: u32 = match self.ksl {
            0 => 0,
            1 => ksl_base / 4,
            2 => ksl_base / 2,
            _ => ksl_base,
        };
        self.tll = self.tl + scale;
    }

    /// Attack and decay rates.
    pub fn set_ar_dr(&mut self, v: u8)
        requires
            old(self).wf(),
        ensures
            *final(self) == old(self).with_attack_decay(v),
            final(self).wf(),
    {
        proof {
            reveal(Operator::wf);
            reveal(Operator::with_attack_decay);
        }
        self.ar = tables::number_of_rate(v / 16);
        self.attack = tables::attack_rate(self.ar + self.ksr);
        self.dr = tables::number_of_rate(v % 16);
        self.decay = tables::rate(self.dr + self.ksr);
    }

    /// Sustain level and release rate.
    pub fn set_sl_rr(&mut self, v: u8)
        requires
            old(self).wf(),
        ensures
            *final(self) == old(self).with_sustain_release(v),
            final(self).wf(),
    {
        proof {
            reveal(Operator::wf);
            reveal(Operator::with_sustain_release);
        }
        self.sl = 8 * (v / 16) as u32;
        self.rr = tables::number_of_rate(v % 16);
        self.release = tables::rate(self.rr + self.ksr);
    }

    fn fade_by(&mut self, r: Rate, cnt: u32)
        requires
            old(self).wf(),
            old(self).volume < 124,
            r.shift <= 13,
        ensures
            *final(self) == old(self).faded(r, cnt),
            final(self).wf(),
    {
        proof {
            reveal(Operator::wf);
            reveal(Operator::faded);
        }
        if is_due(r, cnt) {
            self.volume = self.volume + tables::increment(r.row, rate_step(r, cnt));
            if self.volume >= 124 {
                self.stage = Stage::Off;
            }
        }
    }

    /// One step of the envelope; tells whether the attack starts.
    pub fn step_envelope(&mut self, cnt: u32, releases: bool, sus: bool) -> (started: bool)
        requires
            old(self).wf(),
        ensures
            *final(self) == old(self).enveloped(cnt, releases, sus),
            started == old(self).starts(),
            final(self).wf(),
    {
        proof {
            reveal(Operator::wf);
            reveal(Operator::enveloped);
        }
        match self.stage {
            Stage::Damp => {
                if self.volume >= 124 {
                    self.stage = Stage::Attack;
                    if self.ar + self.ksr >= 76 {
                        self.volume = 0;
                    }
                    return true;
                }
                let r = self.damp;
                if is_due(r, cnt) {
                    self.volume = self.volume + tables::increment(r.row, rate_step(r, cnt));
                }
            },
            Stage::Attack => {
                if self.volume == 0 {
                    self.stage = Stage::Decay;
                } else {
                    let r = self.attack;
                    if is_attack_due(r, cnt) {
                        let f = tables::factor(r.row, rate_step(r, cnt));
                        let v = self.volume;
                        assert(0 <= (v + 1) * f && (v + 1) * f <= 8 * (v + 1)) by (nonlinear_arith)
                            requires
                                0 <= f <= 8,
                                v >= 0,
                        ;
                        self.volume = v - ((v + 1) * f + 15) / 16;
                    }
                }
            },
            Stage::Decay => {
                if self.volume - self.volume % 8 == self.sl {
                    self.stage = Stage::Sustain;
                } else {
                    let r = self.decay;
                    self.fade_by(r, cnt);
                }
            },
            Stage::Sustain => {
                if !self.holds {
                    let r = self.release;
                    self.fade_by(r, cnt);
                }
            },
            Stage::Release => {
                if releases {
                    let r = if self.holds && !sus {
                        self.release
                    } else {
                        self.fade
                    };
                    self.fade_by(r, cnt);
                }
            },
            Stage::Off => {
                self.volume = 127;
            },
        }
        false
    }

    /// One step of the oscillator.
    pub fn step_phase(&mut self, block_fnum: u32, pm: u32)
        requires
            old(self).wf(),
            block_fnum < 4096,
            pm < 8,
        ensures
            *final(self) == old(self).turned(block_fnum as int, pm as int),
            final(self).wf(),
    {
        proof {
            reveal(Operator::wf);
            reveal(Operator::turned);
        }
        let mut f: u32 = self.freq;
        if self.vibrato {
            let offset = tables::vibrato_at((block_fnum / 64) % 8, pm);
            if offset != 0 {
                let n = (2 * block_fnum as i32 + offset) as u32;
                f = scaled(frequency_of(n), self.mul);
            }
        }
        self.phase = self.phase.wrapping_add(f);
    }

    /// Output at an angle.
    pub fn output_at(&self, angle: u32, am: u32) -> (r: i32)
        requires
            self.wf(),
            am <= 13,
        ensures
            r == self.output(angle as int, am as int),
            -2042 <= r <= 2042,
    {
        proof {
            reveal(Operator::wf);
            reveal(Operator::output);
        }
        match self.stage {
            Stage::Off => 0,
            _ => {
                let env: u32 = self.tll + self.volume + if self.tremolo {
                    am
                } else {
                    0
                };
                if env < 176 {
                    tables::wave(angle % 1024, env, self.half_wave)
                } else {
                    0
                }
            },
        }
    }

    /// The angle that the oscillator is at.
    pub fn angle_now(&self) -> (r: u32)
        ensures
            r == self.angle(),
            r <= 65535,
    {
        self.phase / 65536
    }

    /// Output with feedback of its own last two outputs, which it becomes one of.
    pub fn step_feedback(&mut self, am: u32)
        requires
            old(self).wf(),
            am <= 13,
        ensures
            *final(self) == old(self).fed(am as int),
            final(self).wf(),
    {
        proof {
            reveal(Operator::wf);
            reveal(Operator::fed_back);
            reveal(Operator::fed);
            reveal(Operator::output);
        }
        let mut angle: u32 = self.phase / 65536;
        if self.feedback != 0 {
            let sum = self.out0 + self.out1;
            let p = tables::power_of_two(self.feedback) as i32;
            assert(-134_000_000 <= sum * p <= 134_000_000) by (nonlinear_arith)
                requires
                    -4084 <= sum <= 4084,
                    1 <= p <= 32768,
            ;
            angle = angle + ((sum * p + 0x1000_0000) / 65536) as u32;
        }
        let out = self.output_at(angle, am);
        assert(out == self.fed_back(am as int));
        self.out0 = self.out1;
        self.out1 = out;
    }

    /// What this operator adds to the angle of the next, in half turns of 512.
    pub fn modulation(&self) -> (r: i32)
        requires
            self.wf(),
        ensures
            r == self.out1,
            -2042 <= r <= 2042,
    {
        proof {
            reveal(Operator::wf);
        }
        self.out1
    }

    pub fn total_level(&self) -> (r: u32)
        requires
            self.wf(),
        ensures
            r == self.tl,
            r <= 126,
    {
        proof {
            reveal(Operator::wf);
        }
        self.tl
    }

    pub fn key_scaling(&self) -> (r: u32)
        requires
            self.wf(),
        ensures
            r == self.ksl,
            r <= 3,
    {
        proof {
            reveal(Operator::wf);
        }
        self.ksl
    }

    pub fn set_levels(&mut self, ksl: u32, tl: u32, ksl_base: u32)
        requires
            old(self).wf(),
            ksl <= 3,
            tl <= 126,
            ksl_base <= 112,
        ensures
            *final(self) == old(self).with_levels(ksl as int, tl as int, ksl_base as int),
            final(self).wf(),
    {
        proof {
            reveal(Operator::wf);
            reveal(Operator::with_levels);
        }
        self.ksl = ksl;
        self.tl = tl;
        self.apply_level(ksl_base);
    }

    pub fn set_wave(&mut self, half_wave: bool, feedback: u32)
        requires
            old(self).wf(),
            feedback <= 7,
        ensures
            *final(self) == old(self).with_wave(half_wave, feedback as int),
            final(self).wf(),
    {
        proof {
            reveal(Operator::wf);
            reveal(Operator::with_wave);
        }
        self.half_wave = half_wave;
        self.feedback = if feedback != 0 {
            feedback + 8
        } else {
            0
        };
    }

    pub fn restart(&mut self)
        requires
            old(self).wf(),
        ensures
            *final(self) == old(self).restarted(),
            final(self).wf(),
    {
        proof {
            reveal(Operator::wf);
            reveal(Operator::restarted);
        }
        self.phase = 0;
    }

    pub fn silence(&mut self)
        requires
            old(self).wf(),
        ensures
            *final(self) == old(self).silenced(),
            final(self).wf(),
    {
        proof {
            reveal(Operator::wf);
            reveal(Operator::silenced);
        }
        self.half_wave = false;
        self.stage = Stage::Off;
        self.volume = 127;
    }
}

/// An operator that is off stays off until it is keyed, and is silent.
pub proof fn law_off_stays_off(op: Operator, cnt: u32, releases: bool, sus: bool, angle: int, am: int)
    requires
        op.stage is Off,
    ensures
        op.enveloped(cnt, releases, sus).stage is Off,
        op.output(angle, am) == 0,
        op.fed_back(am) == 0,
{
    reveal(Operator::enveloped);
    reveal(Operator::output);
    reveal(Operator::fed_back);
}

/// Damping and release only ever lower the volume, the attack only raises it.
pub proof fn law_envelope_direction(op: Operator, cnt: u32, releases: bool, sus: bool)
    requires
        op.wf(),
    ensures
        op.stage is Attack ==> op.enveloped(cnt, releases, sus).volume <= op.volume,
        op.stage !is Attack && !op.starts() ==> op.volume <= op.enveloped(
            cnt,
            releases,
            sus,
        ).volume,
{
    reveal(Operator::wf);
    reveal(Operator::enveloped);
    reveal(Operator::faded);
    let v = op.volume as int;
    let f = tables::attack_factor(op.attack.row as int, step_of(op.attack, cnt));
    assert(0 <= (v + 1) * f && (v + 1) * f <= 8 * (v + 1)) by (nonlinear_arith)
        requires
            0 <= f <= 8,
            v >= 0,
    ;
}

} // verus!
