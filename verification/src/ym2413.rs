//! The YM2413 FM sound generator of MSX-MUSIC.
//!
//! Nine channels of two operators each, or six and five drums. The chip gives
//! one sample per 72 clock cycles, about 49716 per second, and takes one step
//! of its envelopes, oscillators and noise with each.
pub mod channel;
pub mod chip_laws;
pub mod note_laws;
pub mod operator;
pub mod tables;

use crate::ym2413::channel::Channel;
use vstd::prelude::*;

verus! {

#[allow(unused_imports)]
use crate::ym2413::channel::blank_channel;
#[allow(unused_imports)]
use crate::ym2413::operator::Stage;

/// Everything the chip holds, as values.
#[verifier::ext_equal]
pub struct FmState {
    pub ch: Seq<Channel>,
    /// Instrument and volume of each channel.
    pub instvol: Seq<u8>,
    /// The user's instrument.
    pub user: Seq<u8>,
    pub cnt: u32,
    pub rhythm: u8,
    pub am_cnt: u32,
    pub pm_cnt: u32,
    pub noise: u32,
    pub address: u8,
    /// Whether there is output.
    pub on: bool,
}

/// Whether the rhythm register selects drums.
pub open spec fn drums(rhythm: u8) -> bool {
    (rhythm / 32) % 2 == 1
}

/// The noise generator one step on: a shift register of 23 bits.
pub open spec fn noise_step(n: u32) -> u32 {
    if n % 2 == 1 {
        (n ^ 0x800302) / 2
    } else {
        n / 2
    }
}

/// Channel of a register: numbers past the ninth start over.
pub open spec fn channel_of(r: u8) -> int {
    if r % 16 >= 9 {
        r % 16 - 9
    } else {
        (r % 16) as int
    }
}

/// The phase bits that high hat and cymbal share.
pub open spec fn metal(hat: int, cymbal: int) -> bool {
    ||| (hat / 4) % 2 != (hat / 128) % 2
    ||| (hat / 8) % 2 == 1
    ||| (cymbal / 8) % 2 == 1
    ||| (cymbal / 32) % 2 == 1
}

/// Angle of the high hat.
pub open spec fn hat_angle(metal: bool, noise: bool) -> int {
    if metal {
        if noise {
            0x2D0
        } else {
            0x234
        }
    } else if noise {
        0x34
    } else {
        0xD0
    }
}

/// Angle of the snare drum.
pub open spec fn snare_angle(hat: int, noise: bool) -> int {
    if (hat / 256) % 2 == 1 {
        if noise {
            0x300
        } else {
            0x200
        }
    } else if noise {
        0
    } else {
        0x100
    }
}

/// Output of the first `n` channels together.
pub open spec fn melody(ch: Seq<Channel>, am: int, n: int) -> int
    decreases n,
{
    if n <= 0 {
        0
    } else {
        melody(ch, am, n - 1) + ch[n - 1].output(am)
    }
}

/// Output of the five drums together.
pub open spec fn drum_output(ch: Seq<Channel>, am: int, noise: bool) -> int {
    let hat = ch[7].modulator.angle();
    let m = metal(hat, ch[8].carrier.angle());
    let cymbal: int = if m {
        0x300
    } else {
        0x100
    };
    ch[6].output(am) + ch[7].modulator.output(hat_angle(m, noise), am) + ch[7].carrier.output(
        snare_angle(hat, noise),
        am,
    ) + ch[8].modulator.output(ch[8].modulator.angle(), am) + ch[8].carrier.output(cymbal, am)
}

impl FmState {
    pub open spec fn wf(self) -> bool {
        &&& self.ch.len() == 9
        &&& self.instvol.len() == 9
        &&& self.user.len() == 8
        &&& forall|i: int| 0 <= i < 9 ==> (#[trigger] self.ch[i]).wf()
        &&& self.am_cnt < 0xD200_0000
        &&& 0 < self.noise < 0x80_0000
    }

    pub open spec fn with_channel(self, i: int, c: Channel) -> FmState {
        FmState { ch: self.ch.update(i, c), ..self }
    }

    /// An instrument by number; 0 is the user's.
    pub open spec fn instrument(self, n: int) -> Seq<u8> {
        if n == 0 {
            self.user
        } else {
            tables::INSTRUMENT_ROM[n]@
        }
    }

    /// Byte `i` of the user's instrument set, and applied to every channel that
    /// plays it.
    pub open spec fn with_user_byte(self, i: int, v: u8) -> FmState {
        let last: int = if drums(self.rhythm) {
            6
        } else {
            9
        };
        FmState {
            user: self.user.update(i, v),
            ch: Seq::new(
                9,
                |k: int|
                    if k < last && self.instvol[k] / 16 == 0 {
                        self.ch[k].with_byte(i, v)
                    } else {
                        self.ch[k]
                    },
            ),
            ..self
        }
    }

    /// The instruments of channels 6 to 8 as the rhythm register changes.
    pub open spec fn switched(self, on: bool) -> FmState {
        let c = self.ch;
        if on && !drums(self.rhythm) {
            self.with_channel(6, c[6].loaded(self.instrument(16), 8)).with_channel(
                7,
                c[7].loaded(self.instrument(17), 8).with_drum_volume(self.instvol[7]),
            ).with_channel(
                8,
                c[8].loaded(self.instrument(18), 8).with_drum_volume(self.instvol[8]),
            )
        } else if !on && drums(self.rhythm) {
            self.with_channel(
                6,
                c[6].loaded(self.instrument((self.instvol[6] / 16) as int), 8),
            ).with_channel(
                7,
                c[7].loaded(self.instrument((self.instvol[7] / 16) as int), 8),
            ).with_channel(8, c[8].loaded(self.instrument((self.instvol[8] / 16) as int), 8))
        } else {
            self
        }
    }

    /// The rhythm register: bit 5 selects drums, the lower bits key them.
    pub open spec fn with_rhythm(self, v: u8) -> FmState {
        let on = drums(v);
        let s = self.switched(on);
        let bass = on && (v / 16) % 2 == 1;
        let snare = on && (v / 8) % 2 == 1;
        let tom = on && (v / 4) % 2 == 1;
        let cymbal = on && (v / 2) % 2 == 1;
        let hat = on && v % 2 == 1;
        FmState { rhythm: v % 64, ..s }.with_channel(
            6,
            s.ch[6].keyed(true, bass, bass),
        ).with_channel(7, s.ch[7].keyed(true, hat, snare)).with_channel(
            8,
            s.ch[8].keyed(true, tom, cymbal),
        )
    }

    /// Instrument and volume of a channel. While there are drums, channels 6 to
    /// 8 have only volumes.
    pub open spec fn with_instvol(self, i: int, v: u8) -> FmState {
        let c = self.ch[i].with_volume(v);
        if i >= 6 && drums(self.rhythm) {
            self.with_channel(
                i,
                if i >= 7 {
                    c.with_drum_volume(v)
                } else {
                    c
                },
            )
        } else if self.instvol[i] / 16 != v / 16 {
            FmState { instvol: self.instvol.update(i, v), ..self }.with_channel(
                i,
                c.loaded(self.instrument((v / 16) as int), 8),
            )
        } else {
            self.with_channel(i, c)
        }
    }

    /// Register `r` set to `v`.
    pub open spec fn written(self, r: u8, v: u8) -> FmState {
        let i = channel_of(r);
        if r < 0x08 {
            self.with_user_byte(r as int, v)
        } else if r == 0x0E {
            self.with_rhythm(v)
        } else if 0x10 <= r < 0x20 {
            self.with_channel(i, self.ch[i].with_low(v))
        } else if 0x20 <= r < 0x30 {
            self.with_channel(i, self.ch[i].with_high(v))
        } else if 0x30 <= r < 0x40 {
            self.with_instvol(i, v)
        } else {
            self
        }
    }

    /// A write to a port: the register number, its value, or the output switch.
    pub open spec fn port_written(self, port: u32, v: u8) -> FmState {
        if (port / 2) % 2 == 1 {
            FmState { on: v % 2 == 1, ..self }
        } else if port % 2 == 1 {
            self.written(self.address, v)
        } else {
            FmState { address: v, ..self }
        }
    }

    /// Registers `r` and below, down to 0x10, cleared from the top.
    pub open spec fn cleared(self, r: int) -> FmState
        decreases r,
    {
        if r < 0x10 {
            self
        } else {
            self.written(r as u8, 0).cleared(r - 1)
        }
    }

    /// The chip after a reset: registers cleared, every operator off.
    pub open spec fn after_reset(self) -> FmState {
        let s = FmState {
            cnt: 0,
            noise: 1,
            user: Seq::new(8, |i: int| 0u8),
            ..self
        }.cleared(0x3F);
        FmState { ch: s.ch.map_values(|c: Channel| c.silenced()), on: true, ..s }
    }

    /// The tremolo counter one sample on.
    pub open spec fn next_am(self) -> int {
        (self.am_cnt + 0x4_0000) % 0xD200_0000
    }

    /// The vibrato counter one sample on.
    pub open spec fn next_pm(self) -> int {
        (self.pm_cnt + 0x4000) % 0x1_0000_0000
    }

    /// Tremolo depth of the next sample.
    pub open spec fn am(self) -> int {
        tables::tremolo(self.next_am() / 0x100_0000) / 2
    }

    /// Vibrato step of the next sample.
    pub open spec fn pm(self) -> int {
        (self.next_pm() / 0x100_0000) % 8
    }

    /// The next sample. Drums are twice as loud.
    pub open spec fn output(self) -> int {
        if !self.on {
            0
        } else if drums(self.rhythm) {
            2 * (melody(self.ch, self.am(), 6) + 2 * drum_output(
                self.ch,
                self.am(),
                self.noise % 2 == 1,
            ))
        } else {
            2 * melody(self.ch, self.am(), 9)
        }
    }

    /// A channel one sample on.
    pub open spec fn next_channel(self, i: int) -> Channel {
        let c = if i >= 7 && drums(self.rhythm) {
            self.ch[i]
        } else {
            self.ch[i].fed(self.am())
        };
        c.advanced(next_count(self.cnt), i >= 6 && drums(self.rhythm), self.pm())
    }

    /// The chip one sample on.
    pub open spec fn sampled(self) -> FmState {
        FmState {
            ch: Seq::new(9, |i: int| self.next_channel(i)),
            cnt: next_count(self.cnt),
            am_cnt: self.next_am() as u32,
            pm_cnt: self.next_pm() as u32,
            noise: noise_step(self.noise),
            ..self
        }
    }
}

/// The sample counter one on; it wraps.
pub open spec fn next_count(cnt: u32) -> u32 {
    ((cnt + 1) % 0x1_0000_0000) as u32
}

/// The chip before its first reset.
pub open spec fn blank_chip() -> FmState {
    FmState {
        ch: Seq::new(9, |i: int| blank_channel()),
        instvol: Seq::new(9, |i: int| 0u8),
        user: Seq::new(8, |i: int| 0u8),
        cnt: 0,
        rhythm: 0,
        am_cnt: 0,
        pm_cnt: 0,
        noise: 1,
        address: 0,
        on: false,
    }
}

/// The FM sound generator.
pub struct Ym2413 {
    ch: [Channel; 9],
    instvol_r: [u8; 9],
    user: [u8; 8],
    eg_cnt: u32,
    rhythm: u8,
    lfo_am_cnt: u32,
    lfo_pm_cnt: u32,
    noise_rng: u32,
    address: u8,
    status: bool,
}

impl View for Ym2413 {
    type V = FmState;

    closed spec fn view(&self) -> FmState {
        FmState {
            ch: self.ch@,
            instvol: self.instvol_r@,
            user: self.user@,
            cnt: self.eg_cnt,
            rhythm: self.rhythm,
            am_cnt: self.lfo_am_cnt,
            pm_cnt: self.lfo_pm_cnt,
            noise: self.noise_rng,
            address: self.address,
            on: self.status,
        }
    }
}

impl Ym2413 {
    pub open spec fn wf(&self) -> bool {
        self@.wf()
    }

    /// A chip that was reset.
    pub fn new() -> (r: Self)
        ensures
            r.wf(),
            r@ == blank_chip().after_reset(),
    {
        let mut chip = Ym2413 {
            ch: [Channel::blank(); 9],
            instvol_r: [0; 9],
            user: [0; 8],
            eg_cnt: 0,
            rhythm: 0,
            lfo_am_cnt: 0,
            lfo_pm_cnt: 0,
            noise_rng: 1,
            address: 0,
            status: false,
        };
        assert(chip@ =~= blank_chip());
        chip.reset();
        chip
    }

    /// Clear the registers and turn every operator off. The rhythm register is
    /// not among those cleared.
    pub fn reset(&mut self)
        requires
            old(self).wf(),
        ensures
            final(self).wf(),
            final(self)@ == old(self)@.after_reset(),
    {
        self.eg_cnt = 0;
        self.noise_rng = 1;
        self.user = [0; 8];
        let ghost start = self@;
        assert(start =~= FmState {
            cnt: 0,
            noise: 1,
            user: Seq::new(8, |i: int| 0u8),
            ..old(self)@
        });
        let mut r: u8 = 0x3F;
        while r >= 0x10
            invariant
                0x0F <= r <= 0x3F,
                self.wf(),
                self@.cleared(r as int) == start.cleared(0x3F),
            decreases r,
        {
            self.write_reg(r, 0);
            r = r - 1;
        }
        let ghost s = self@;
        let mut i: usize = 0;
        while i < 9
            invariant
                i <= 9,
                s.wf(),
                self.wf(),
                self@ == (FmState { ch: self@.ch, ..s }),
                forall|k: int| 0 <= k < i ==> #[trigger] self@.ch[k] == s.ch[k].silenced(),
                forall|k: int| i <= k < 9 ==> #[trigger] self@.ch[k] == s.ch[k],
            decreases 9 - i,
        {
            self.ch[i].silence();
            i = i + 1;
        }
        self.status = true;
        assert(self@.ch =~= s.ch.map_values(|c: Channel| c.silenced()));
    }

    /// A write to a port: 0 takes the register number, 1 its value, 2 and 3
    /// switch the output.
    pub fn write(&mut self, a: u32, v: u8)
        requires
            old(self).wf(),
        ensures
            final(self).wf(),
            final(self)@ == old(self)@.port_written(a, v),
    {
        if (a / 2) % 2 == 1 {
            self.status = v % 2 == 1;
        } else if a % 2 == 1 {
            let r = self.address;
            self.write_reg(r, v);
        } else {
            self.address = v;
        }
    }

    fn load(&mut self, chan: usize, inst: u8)
        requires
            old(self).wf(),
            chan < 9,
            inst < 19,
        ensures
            final(self).wf(),
            final(self)@ == old(self)@.with_channel(
                chan as int,
                old(self)@.ch[chan as int].loaded(old(self)@.instrument(inst as int), 8),
            ),
    {
        let bytes: [u8; 8] = if inst == 0 {
            self.user
        } else {
            tables::INSTRUMENT_ROM[inst as usize]
        };
        self.ch[chan].load_instrument(&bytes);
    }

    /// Set a byte of the user's instrument.
    fn update_instrument_zero(&mut self, i: usize, v: u8)
        requires
            old(self).wf(),
            i < 8,
        ensures
            final(self).wf(),
            final(self)@ == old(self)@.with_user_byte(i as int, v),
    {
        self.user[i] = v;
        let last: usize = if (self.rhythm / 32) % 2 == 1 {
            6
        } else {
            9
        };
        let ghost goal = old(self)@.with_user_byte(i as int, v);
        let mut k: usize = 0;
        while k < last
            invariant
                k <= last <= 9,
                i < 8,
                old(self).wf(),
                self.wf(),
                goal == old(self)@.with_user_byte(i as int, v),
                last == (if drums(old(self)@.rhythm) {
                    6int
                } else {
                    9
                }),
                self@ == (FmState { ch: self@.ch, ..goal }),
                forall|j: int| 0 <= j < k ==> #[trigger] self@.ch[j] == goal.ch[j],
                forall|j: int| k <= j < 9 ==> #[trigger] self@.ch[j] == old(self)@.ch[j],
            decreases last - k,
        {
            if self.instvol_r[k] / 16 == 0 {
                self.ch[k].set_byte(i, v);
            }
            k = k + 1;
        }
        assert(self@.ch =~= goal.ch);
    }

    /// The rhythm register.
    fn set_rhythm(&mut self, v: u8)
        requires
            old(self).wf(),
        ensures
            final(self).wf(),
            final(self)@ == old(self)@.with_rhythm(v),
    {
        let on = (v / 32) % 2 == 1;
        self.switch_rhythm(on);
        let bass = on && (v / 16) % 2 == 1;
        let snare = on && (v / 8) % 2 == 1;
        let tom = on && (v / 4) % 2 == 1;
        let cymbal = on && (v / 2) % 2 == 1;
        let hat = on && v % 2 == 1;
        self.ch[6].set_keys(true, bass, bass);
        self.ch[7].set_keys(true, hat, snare);
        self.ch[8].set_keys(true, tom, cymbal);
        self.rhythm = v % 64;
    }

    fn switch_rhythm(&mut self, on: bool)
        requires
            old(self).wf(),
        ensures
            final(self).wf(),
            final(self)@ == old(self)@.switched(on),
    {
        let was = (self.rhythm / 32) % 2 == 1;
        if on && !was {
            self.load(6, 16);
            self.load(7, 17);
            let v = self.instvol_r[7];
            self.ch[7].set_drum_volume(v);
            self.load(8, 18);
            let v = self.instvol_r[8];
            self.ch[8].set_drum_volume(v);
        } else if !on && was {
            let inst = self.instvol_r[6] / 16;
            self.load(6, inst);
            let inst = self.instvol_r[7] / 16;
            self.load(7, inst);
            let inst = self.instvol_r[8] / 16;
            self.load(8, inst);
        }
        assert(self@ =~= old(self)@.switched(on));
    }

    fn set_instvol(&mut self, chan: usize, v: u8)
        requires
            old(self).wf(),
            chan < 9,
        ensures
            final(self).wf(),
            final(self)@ == old(self)@.with_instvol(chan as int, v),
    {
        self.ch[chan].set_volume(v);
        if chan >= 6 && (self.rhythm / 32) % 2 == 1 {
            if chan >= 7 {
                self.ch[chan].set_drum_volume(v);
            }
        } else if self.instvol_r[chan] / 16 != v / 16 {
            self.instvol_r[chan] = v;
            self.load(chan, v / 16);
        }
        assert(self@ =~= old(self)@.with_instvol(chan as int, v));
    }

    /// Set a register.
    pub fn write_reg(&mut self, r: u8, v: u8)
        requires
            old(self).wf(),
        ensures
            final(self).wf(),
            final(self)@ == old(self)@.written(r, v),
    {
        let chan: usize = if r % 16 >= 9 {
            (r % 16 - 9) as usize
        } else {
            (r % 16) as usize
        };
        match r / 16 {
            0 => {
                if r < 8 {
                    self.update_instrument_zero(r as usize, v);
                } else if r == 0x0E {
                    self.set_rhythm(v);
                }
            },
            1 => self.ch[chan].set_low(v),
            2 => self.ch[chan].set_high(v),
            3 => self.set_instvol(chan, v),
            _ => {},
        }
    }
}

impl Ym2413 {
    /// Output of the first `n` channels, whose modulators feed back.
    fn melody_calc(&mut self, n: usize, am: u32) -> (r: i32)
        requires
            old(self).wf(),
            n <= 9,
            am <= 13,
        ensures
            r == melody(old(self)@.ch, am as int, n as int),
            -2042 * n <= r <= 2042 * n,
            final(self).wf(),
            final(self)@ == (FmState { ch: final(self)@.ch, ..old(self)@ }),
            forall|i: int|
                0 <= i < 9 ==> #[trigger] final(self)@.ch[i] == (if i < n {
                    old(self)@.ch[i].fed(am as int)
                } else {
                    old(self)@.ch[i]
                }),
    {
        let mut sum: i32 = 0;
        let mut i: usize = 0;
        while i < n
            invariant
                i <= n <= 9,
                am <= 13,
                self.wf(),
                old(self).wf(),
                sum == melody(old(self)@.ch, am as int, i as int),
                -2042 * i <= sum <= 2042 * i,
                self@ == (FmState { ch: self@.ch, ..old(self)@ }),
                forall|k: int|
                    0 <= k < 9 ==> #[trigger] self@.ch[k] == (if k < i {
                        old(self)@.ch[k].fed(am as int)
                    } else {
                        old(self)@.ch[k]
                    }),
            decreases n - i,
        {
            let out = self.ch[i].chan_calc(am);
            sum = sum + out;
            i = i + 1;
        }
        sum
    }

    /// Output of the five drums; the modulator of the bass drum feeds back.
    fn rhythm_calc(&mut self, am: u32) -> (r: i32)
        requires
            old(self).wf(),
            am <= 13,
        ensures
            r == drum_output(old(self)@.ch, am as int, old(self)@.noise % 2 == 1),
            -10210 <= r <= 10210,
            final(self).wf(),
            final(self)@ == old(self)@.with_channel(6, old(self)@.ch[6].fed(am as int)),
    {
        let noise = self.noise_rng % 2 == 1;
        let hat = self.ch[7].modulator.angle_now();
        let ring = self.ch[8].carrier.angle_now();
        let metal = (hat / 4) % 2 != (hat / 128) % 2 || (hat / 8) % 2 == 1 || (ring / 8) % 2 == 1
            || (ring / 32) % 2 == 1;
        let hat_phase: u32 = if metal {
            if noise {
                0x2D0
            } else {
                0x234
            }
        } else if noise {
            0x34
        } else {
            0xD0
        };
        let snare_phase: u32 = if (hat / 256) % 2 == 1 {
            if noise {
                0x300
            } else {
                0x200
            }
        } else if noise {
            0
        } else {
            0x100
        };
        let cymbal_phase: u32 = if metal {
            0x300
        } else {
            0x100
        };
        let tom_phase = self.ch[8].modulator.angle_now();
        let high_hat = self.ch[7].modulator.output_at(hat_phase, am);
        let snare = self.ch[7].carrier.output_at(snare_phase, am);
        let tom = self.ch[8].modulator.output_at(tom_phase, am);
        let cymbal = self.ch[8].carrier.output_at(cymbal_phase, am);
        let bass = self.ch[6].chan_calc(am);
        bass + high_hat + snare + tom + cymbal
    }

    /// One step of every channel.
    fn advance_channels(&mut self, pm: u32)
        requires
            old(self).wf(),
            pm < 8,
        ensures
            final(self).wf(),
            final(self)@ == (FmState { ch: final(self)@.ch, ..old(self)@ }),
            forall|i: int|
                0 <= i < 9 ==> #[trigger] final(self)@.ch[i] == old(self)@.ch[i].advanced(
                    old(self)@.cnt,
                    i >= 6 && drums(old(self)@.rhythm),
                    pm as int,
                ),
    {
        let rhythm_on = (self.rhythm / 32) % 2 == 1;
        let cnt = self.eg_cnt;
        let mut i: usize = 0;
        while i < 9
            invariant
                i <= 9,
                pm < 8,
                self.wf(),
                old(self).wf(),
                rhythm_on == drums(old(self)@.rhythm),
                cnt == old(self)@.cnt,
                self@ == (FmState { ch: self@.ch, ..old(self)@ }),
                forall|k: int|
                    0 <= k < 9 ==> #[trigger] self@.ch[k] == (if k < i {
                        old(self)@.ch[k].advanced(
                            cnt,
                            k >= 6 && rhythm_on,
                            pm as int,
                        )
                    } else {
                        old(self)@.ch[k]
                    }),
            decreases 9 - i,
        {
            self.ch[i].advance(cnt, i >= 6 && rhythm_on, pm);
            i = i + 1;
        }
    }

    /// The next sample.
    pub fn sample(&mut self) -> (r: i32)
        requires
            old(self).wf(),
        ensures
            r == old(self)@.output(),
            -65344 <= r <= 65344,
            final(self).wf(),
            final(self)@ == old(self)@.sampled(),
    {
        let ghost before = self@;
        self.lfo_am_cnt = (self.lfo_am_cnt + 0x4_0000) % 0xD200_0000;
        self.lfo_pm_cnt = self.lfo_pm_cnt.wrapping_add(0x4000);
        let am = tables::tremolo_at(self.lfo_am_cnt / 0x100_0000) / 2;
        let pm = (self.lfo_pm_cnt / 0x100_0000) % 8;
        assert(am == before.am() && pm == before.pm());
        let rhythm_on = (self.rhythm / 32) % 2 == 1;
        let sum: i32;
        if rhythm_on {
            let notes = self.melody_calc(6, am);
            proof {
                lemma_melody(before.ch, self@.ch, am as int);
            }
            sum = notes + 2 * self.rhythm_calc(am);
        } else {
            sum = self.melody_calc(9, am);
        }
        let out: i32 = if self.status {
            2 * sum
        } else {
            0
        };
        let ghost fed = self@.ch;
        assert forall|i: int| 0 <= i < 9 implies #[trigger] fed[i] == (if i >= 7 && drums(
            before.rhythm,
        ) {
            before.ch[i]
        } else {
            before.ch[i].fed(am as int)
        }) by {}
        self.eg_cnt = self.eg_cnt.wrapping_add(1);
        self.advance_channels(pm);
        proof {
            lemma_noise_step(before.noise);
        }
        self.noise_rng = if self.noise_rng % 2 == 1 {
            (self.noise_rng ^ 0x800302) / 2
        } else {
            self.noise_rng / 2
        };
        assert(self@.ch =~= before.sampled().ch);
        out
    }
}

/// The noise generator stays within its 23 bits and never gets stuck at zero.
proof fn lemma_noise_step(n: u32)
    requires
        0 < n < 0x80_0000,
    ensures
        0 < noise_step(n) < 0x80_0000,
{
    assert(n % 2 == 1 && n < 0x80_0000 ==> 0 < (n ^ 0x800302) / 2 < 0x80_0000) by (bit_vector);
}

/// The drums sound the same whether or not the melodic modulators have fed back.
proof fn lemma_melody(ch: Seq<Channel>, after: Seq<Channel>, am: int)
    requires
        ch.len() == 9,
        after.len() == 9,
        forall|i: int|
            0 <= i < 9 ==> #[trigger] after[i] == (if i < 6 {
                ch[i].fed(am)
            } else {
                ch[i]
            }),
    ensures
        forall|noise: bool| drum_output(after, am, noise) == drum_output(ch, am, noise),
{
    assert(after[6] == ch[6] && after[7] == ch[7] && after[8] == ch[8]);
}

impl Default for Ym2413 {
    fn default() -> (r: Self)
        ensures
            r.wf(),
            r@ == blank_chip().after_reset(),
    {
        Ym2413::new()
    }
}

/// Every operator is off.
pub open spec fn all_off(s: FmState) -> bool {
    forall|i: int|
        0 <= i < 9 ==> (#[trigger] s.ch[i]).modulator.stage is Off && s.ch[i].carrier.stage is Off
}

proof fn lemma_quiet_melody(s: FmState, am: int, n: int)
    requires
        all_off(s),
        0 <= n <= 9,
    ensures
        melody(s.ch, am, n) == 0,
    decreases n,
{
    if n > 0 {
        lemma_quiet_melody(s, am, n - 1);
        let c = s.ch[n - 1];
        operator::law_off_stays_off(
            c.carrier,
            0,
            true,
            true,
            c.carrier.angle() + 2 * c.modulator.out1,
            am,
        );
    }
}

/// A chip on which every operator is off gives silence, and stays so until a
/// key goes down.
pub proof fn law_silence_lasts(s: FmState)
    requires
        s.wf(),
        all_off(s),
    ensures
        s.output() == 0,
        all_off(s.sampled()),
{
    reveal(operator::Operator::enveloped);
    reveal(operator::Operator::output);
    reveal(operator::Operator::turned);
    reveal(operator::Operator::restarted);
    reveal(operator::Operator::fed);
    lemma_quiet_melody(s, s.am(), 6);
    lemma_quiet_melody(s, s.am(), 9);
    assert(s.ch[6].carrier.stage is Off && s.ch[7].carrier.stage is Off && s.ch[8].carrier.stage
        is Off);
    assert forall|i: int| 0 <= i < 9 implies (#[trigger] s.sampled().ch[i]).modulator.stage is Off
        && s.sampled().ch[i].carrier.stage is Off by {
        assert(s.ch[i].modulator.stage is Off && s.ch[i].carrier.stage is Off);
    }
}

/// After a reset every operator is off, so the chip is silent.
pub proof fn law_reset_is_silent(s: FmState)
    requires
        s.wf(),
    ensures
        all_off(s.after_reset()),
        s.after_reset().output() == 0,
{
    reveal(operator::Operator::silenced);
    let t = FmState { cnt: 0, noise: 1, user: Seq::new(8, |i: int| 0u8), ..s };
    lemma_cleared_len(t, 0x3F);
    let r = s.after_reset();
    lemma_quiet_melody(r, r.am(), 6);
    lemma_quiet_melody(r, r.am(), 9);
    reveal(operator::Operator::output);
    assert(r.ch[6].carrier.stage is Off && r.ch[7].carrier.stage is Off && r.ch[8].carrier.stage
        is Off);
}

proof fn lemma_cleared_len(s: FmState, r: int)
    requires
        s.ch.len() == 9,
        r <= 0x3F,
    ensures
        s.cleared(r).ch.len() == 9,
    decreases r,
{
    if r >= 0x10 {
        lemma_cleared_len(s.written(r as u8, 0), r - 1);
    }
}

/// A register of a channel goes by its row and the channel.
proof fn lemma_channel_register(s: FmState, r: u8, v: u8)
    requires
        0x10 <= r < 0x40,
    ensures
        s.written(r, v) == (if r < 0x20 {
            s.with_channel(channel_of(r), s.ch[channel_of(r)].with_low(v))
        } else if r < 0x30 {
            s.with_channel(channel_of(r), s.ch[channel_of(r)].with_high(v))
        } else {
            s.with_instvol(channel_of(r), v)
        }),
{
}

/// Registers 0x19 to 0x1F, 0x29 to 0x2F and 0x39 to 0x3F act as the first ones
/// of their rows.
#[verifier::spinoff_prover]
pub proof fn law_register_mirrors(s: FmState, r: u8, v: u8)
    requires
        0x19 <= r < 0x40,
        r % 16 >= 9,
    ensures
        s.written(r, v) == s.written((r - 9) as u8, v),
{
    let q = (r - 9) as u8;
    lemma_channel_register(s, r, v);
    lemma_channel_register(s, q, v);
    assert(channel_of(q) == channel_of(r));
}

/// A register number and then a value through the ports set that register.
pub proof fn law_ports_set_register(s: FmState, r: u8, v: u8)
    ensures
        s.port_written(0, r).port_written(1, v) == (FmState { address: r, ..s }).written(r, v),
{
}

/// The noise generator runs on for ever: a reset starts it, no sample brings it
/// to zero or past its 23 bits, and no write touches it.
pub proof fn law_noise_runs_on(s: FmState, port: u32, r: u8, v: u8)
    requires
        0 < s.noise < 0x80_0000,
    ensures
        0 < s.sampled().noise < 0x80_0000,
        s.written(r, v).noise == s.noise,
        s.port_written(port, v).noise == s.noise,
        s.after_reset().noise == 1,
{
    lemma_noise_step(s.noise);
    lemma_cleared_noise(
        FmState { cnt: 0, noise: 1, user: Seq::new(8, |i: int| 0u8), ..s },
        0x3F,
    );
}

proof fn lemma_cleared_noise(s: FmState, r: int)
    requires
        r <= 0x3F,
    ensures
        s.cleared(r).noise == s.noise,
    decreases r,
{
    if r >= 0x10 {
        lemma_cleared_noise(s.written(r as u8, 0), r - 1);
    }
}

} // verus!
