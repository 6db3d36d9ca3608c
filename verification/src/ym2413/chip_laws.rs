//! What the registers of the FM sound generator do, and what it puts out.
#[allow(unused_imports)]
use crate::ym2413::channel::Channel;
#[allow(unused_imports)]
use crate::ym2413::note_laws::{held, law_pitch, octaves};
#[allow(unused_imports)]
use crate::ym2413::operator::{self, Operator};
#[allow(unused_imports)]
use crate::ym2413::tables;
#[allow(unused_imports)]
use crate::ym2413::{drums, melody, FmState};
use vstd::prelude::*;

verus! {

/// Nothing of the chip but channel `i` differs.
pub open spec fn only_channel(s: FmState, t: FmState, i: int) -> bool {
    &&& t.ch.len() == s.ch.len()
    &&& forall|k: int| 0 <= k < 9 && k != i ==> #[trigger] t.ch[k] == s.ch[k]
    &&& t.user == s.user
    &&& t.rhythm == s.rhythm
    &&& t.cnt == s.cnt && t.am_cnt == s.am_cnt && t.pm_cnt == s.pm_cnt && t.noise == s.noise
    &&& t.address == s.address && t.on == s.on
}

/// Bit `n` of a value, for a weight of two to the `n`.
pub open spec fn lit(v: u8, weight: int) -> bool {
    (v as int / weight) % 2 == 1
}

/// Registers 0x10 to 0x18 hold the low eight bits of the frequency number of a channel:
/// they leave its octave, its keys and every other channel alone.
pub proof fn law_low_pitch_register(s: FmState, i: int, v: u8)
    requires
        s.wf(),
        0 <= i < 9,
    ensures
        ({
            let t = s.written((0x10 + i) as u8, v);
            let a = s.ch[i];
            let b = t.ch[i];
            &&& only_channel(s, t, i)
            &&& t.instvol == s.instvol
            &&& b.block_fnum == a.block_fnum - a.block_fnum % 256 + v
            &&& b.sus == a.sus
            &&& b.carrier.key_note == a.carrier.key_note && b.modulator.key_note
                == a.modulator.key_note
            &&& b.carrier.stage == a.carrier.stage && b.modulator.stage == a.modulator.stage
            &&& b.carrier.volume == a.carrier.volume && b.modulator.volume == a.modulator.volume
        }),
{
    reveal(Operator::leveled);
    reveal(Operator::tuned);
}

/// Registers 0x20 to 0x28 hold the high bit of the frequency number in bit 0, the octave
/// in bits 3 to 1, the key in bit 4 and the sustain flag in bit 5. A key that goes down
/// starts both operators; one that goes up releases those that still sound.
pub proof fn law_high_pitch_register(s: FmState, i: int, v: u8)
    requires
        s.wf(),
        0 <= i < 9,
    ensures
        ({
            let t = s.written((0x20 + i) as u8, v);
            let a = s.ch[i];
            let b = t.ch[i];
            let down = lit(v, 16);
            &&& only_channel(s, t, i)
            &&& t.instvol == s.instvol
            &&& b.block_fnum == 256 * (v % 16) + a.block_fnum % 256
            &&& b.sus == lit(v, 32)
            &&& b.carrier.key_note == down && b.modulator.key_note == down
            &&& b.carrier.key_drum == a.carrier.key_drum && b.modulator.key_drum
                == a.modulator.key_drum
            &&& b.carrier.volume == a.carrier.volume && b.modulator.volume == a.modulator.volume
            &&& down && !held(a.carrier) ==> b.carrier.stage is Damp
            &&& down && held(a.carrier) ==> b.carrier.stage == a.carrier.stage
            &&& down && !held(a.modulator) ==> b.modulator.stage is Damp
            &&& down && held(a.modulator) ==> b.modulator.stage == a.modulator.stage
            &&& !down && held(a.carrier) && !a.carrier.key_drum && a.carrier.volume < 124
                ==> b.carrier.stage is Release
            &&& !down && held(a.modulator) && !a.modulator.key_drum && a.modulator.volume < 124
                ==> b.modulator.stage is Release
            &&& !down && !held(a.carrier) ==> b.carrier.stage == a.carrier.stage
            &&& !down && !held(a.modulator) ==> b.modulator.stage == a.modulator.stage
        }),
{
    reveal(Operator::wf);
    reveal(Operator::leveled);
    reveal(Operator::tuned);
    reveal(Operator::keyed_on);
    reveal(Operator::keyed_off);
}

/// A new pitch tunes both operators: the frequency of each is 64 times the frequency
/// number, doubled for each octave, times its own multiple. The key code is the octave
/// and the high bit of the frequency number, and the levels are scaled by the key.
pub proof fn law_pitch_tunes(c: Channel, octave: int, fnum: int)
    requires
        c.wf(),
        0 <= octave < 8,
        0 <= fnum < 512,
        c.block_fnum != 512 * octave + fnum,
    ensures
        ({
            let t = c.at_pitch(512 * octave + fnum);
            let f = 64 * fnum * octaves(octave);
            &&& t.block_fnum == 512 * octave + fnum
            &&& t.fc == f
            &&& t.kcode == 2 * octave + fnum / 256
            &&& t.ksl_base == tables::key_scale(octave, fnum / 32)
            &&& t.carrier.tll == scaled_level(
                c.carrier.tl as int,
                c.carrier.ksl as int,
                t.ksl_base as int,
            )
            &&& t.modulator.tll == scaled_level(
                c.modulator.tl as int,
                c.modulator.ksl as int,
                t.ksl_base as int,
            )
            &&& t.carrier.freq == f * c.carrier.mul
            &&& t.modulator.freq == f * c.modulator.mul
            &&& t.carrier.ksr == (if c.carrier.full_key_rate {
                t.kcode as int
            } else {
                octave / 2
            })
            &&& t.modulator.ksr == (if c.modulator.full_key_rate {
                t.kcode as int
            } else {
                octave / 2
            })
        }),
{
    reveal(Operator::wf);
    reveal(Operator::leveled);
    reveal(Operator::tuned);
    law_pitch(octave, fnum);
    let f = 64 * fnum * octaves(octave);
    assert(0 <= f <= 64 * 511 * 128) by (nonlinear_arith)
        requires
            f == 64 * fnum * octaves(octave),
            0 <= fnum <= 511,
            1 <= octaves(octave) <= 128,
    ;
    let m = c.carrier.mul as int;
    let k = c.modulator.mul as int;
    assert(0 <= f * m <= 125_706_240) by (nonlinear_arith)
        requires
            0 <= f <= 64 * 511 * 128,
            0 <= m <= 30,
    ;
    assert(0 <= f * k <= 125_706_240) by (nonlinear_arith)
        requires
            0 <= f <= 64 * 511 * 128,
            0 <= k <= 30,
    ;
    let n = 512 * octave + fnum;
    assert(n / 256 == 2 * octave + fnum / 256);
    assert(n / 512 == octave && (n / 32) % 16 == fnum / 32);
}

/// Rates follow the key: each is that of its number plus what the key adds. The number
/// of the fade is 44, or 36 with the sustain flag, and that of the damping 64.
pub proof fn law_tuning_sets_rates(op: Operator, fc: int, kcode: int, sus: bool)
    requires
        op.wf(),
        0 <= kcode <= 15,
    ensures
        ({
            let t = op.tuned(fc, kcode, sus);
            let key = if op.full_key_rate {
                kcode
            } else {
                kcode / 4
            };
            &&& t.ksr == key
            &&& op.ksr != key ==> t.attack == tables::eg_attack_rate(op.ar + key) && t.decay
                == tables::eg_rate(op.dr + key) && t.release == tables::eg_rate(op.rr + key)
            &&& op.ksr == key ==> t.attack == op.attack && t.decay == op.decay && t.release
                == op.release
            &&& t.fade == tables::eg_rate(
                key + if sus {
                    36int
                } else {
                    44
                },
            )
            &&& t.damp == tables::eg_rate(key + 64)
        }),
{
    reveal(Operator::wf);
    reveal(Operator::tuned);
}

/// Frequency multiples in halves: one half, then 1 to 10, and 10, 12, 12, 15 and 15.
pub proof fn law_multiples(v: int)
    requires
        0 <= v < 16,
    ensures
        tables::multiple(v) == (if v == 0 {
            1
        } else if v == 11 {
            20
        } else if v == 12 || v == 13 {
            24
        } else if v >= 14 {
            30
        } else {
            2 * v
        }),
        tables::rate_number(v) == (if v == 0 {
            0
        } else {
            4 * v + 16
        }),
{
}

/// Key scaling takes 16 steps off for each octave down, to no less than 0. Within an
/// octave it grows with the frequency.
pub proof fn law_key_scaling(octave: int, n: int)
    requires
        0 <= octave < 8,
        0 <= n < 16,
    ensures
        tables::key_scale(7, 0) == 0,
        tables::key_scale(7, 8) == 96,
        tables::key_scale(7, 15) == 112,
        n > 0 ==> tables::key_scale(octave, n - 1) <= tables::key_scale(octave, n),
        octave > 0 && tables::key_scale(octave, n) >= 16 ==> tables::key_scale(octave - 1, n)
            == tables::key_scale(octave, n) - 16,
        octave > 0 && tables::key_scale(octave, n) < 16 ==> tables::key_scale(octave - 1, n) == 0,
{
}

/// The bytes of an instrument. Bytes 0 and 1 have the flags and multiples of modulator
/// and carrier, 4 and 5 their attack and decay, 6 and 7 their sustain level and release.
/// Each leaves the other operator alone.
pub proof fn law_instrument_bytes(c: Channel, v: u8)
    requires
        c.wf(),
    ensures
        ({
            let m = c.with_byte(0, v).modulator;
            let k = c.with_byte(1, v).carrier;
            &&& c.with_byte(0, v) == (Channel { modulator: m, ..c })
            &&& c.with_byte(1, v) == (Channel { carrier: k, ..c })
            &&& m.tremolo == lit(v, 128) && k.tremolo == lit(v, 128)
            &&& m.vibrato == lit(v, 64) && k.vibrato == lit(v, 64)
            &&& m.holds == lit(v, 32) && k.holds == lit(v, 32)
            &&& m.full_key_rate == lit(v, 16) && k.full_key_rate == lit(v, 16)
            &&& m.mul == tables::multiple(v as int % 16) && k.mul == tables::multiple(
                v as int % 16,
            )
        }),
        ({
            let m = c.with_byte(4, v).modulator;
            let k = c.with_byte(5, v).carrier;
            &&& c.with_byte(4, v) == (Channel { modulator: m, ..c })
            &&& c.with_byte(5, v) == (Channel { carrier: k, ..c })
            &&& m.ar == tables::rate_number(v as int / 16) && k.ar == m.ar
            &&& m.dr == tables::rate_number(v as int % 16) && k.dr == m.dr
            &&& m.attack == tables::eg_attack_rate(m.ar + c.modulator.ksr)
            &&& k.attack == tables::eg_attack_rate(k.ar + c.carrier.ksr)
            &&& m.decay == tables::eg_rate(m.dr + c.modulator.ksr)
            &&& k.decay == tables::eg_rate(k.dr + c.carrier.ksr)
        }),
        ({
            let m = c.with_byte(6, v).modulator;
            let k = c.with_byte(7, v).carrier;
            &&& c.with_byte(6, v) == (Channel { modulator: m, ..c })
            &&& c.with_byte(7, v) == (Channel { carrier: k, ..c })
            &&& m.sl == 8 * (v as int / 16) && k.sl == m.sl
            &&& m.rr == tables::rate_number(v as int % 16) && k.rr == m.rr
            &&& m.release == tables::eg_rate(m.rr + c.modulator.ksr)
            &&& k.release == tables::eg_rate(k.rr + c.carrier.ksr)
        }),
{
    reveal(Operator::wf);
    reveal(Operator::with_flags);
    reveal(Operator::tuned);
    reveal(Operator::with_attack_decay);
    reveal(Operator::with_sustain_release);
}

/// Total level with key scaling: nothing, a quarter, a half or all of the level of the
/// key on top.
pub open spec fn scaled_level(tl: int, ksl: int, base: int) -> int {
    tl + (if ksl == 0 {
        0
    } else if ksl == 1 {
        base / 4
    } else if ksl == 2 {
        base / 2
    } else {
        base
    })
}

/// Byte 2 of an instrument has the key scaling and the total level of the modulator.
/// Byte 3 has the key scaling of the carrier, the waves of both and the feedback.
pub proof fn law_instrument_levels(c: Channel, v: u8)
    requires
        c.wf(),
    ensures
        ({
            let m = c.with_byte(2, v).modulator;
            &&& c.with_byte(2, v) == (Channel { modulator: m, ..c })
            &&& m == (Operator { ksl: m.ksl, tl: m.tl, tll: m.tll, ..c.modulator })
            &&& m.ksl == v as int / 64
            &&& m.tl == 2 * (v as int % 64)
            &&& m.tll == scaled_level(m.tl as int, m.ksl as int, c.ksl_base as int)
        }),
        ({
            let t = c.with_byte(3, v);
            let m = t.modulator;
            let k = t.carrier;
            &&& t == (Channel { modulator: m, carrier: k, ..c })
            &&& m == (Operator { half_wave: lit(v, 8), feedback: m.feedback, ..c.modulator })
            &&& m.feedback == (if v % 8 == 0 {
                0
            } else {
                v as int % 8 + 8
            })
            &&& k == (Operator {
                half_wave: lit(v, 16),
                feedback: 0,
                ksl: k.ksl,
                tll: k.tll,
                ..c.carrier
            })
            &&& k.ksl == v as int / 64
            &&& k.tll == scaled_level(c.carrier.tl as int, k.ksl as int, c.ksl_base as int)
        }),
{
    reveal(Operator::wf);
    reveal(Operator::leveled);
    reveal(Operator::with_levels);
    reveal(Operator::with_wave);
}

/// The volume of a channel is that of its carrier, 8 steps to each of 16; that of a drum
/// in the modulator comes from the high bits.
pub proof fn law_volumes(c: Channel, v: u8)
    requires
        c.wf(),
    ensures
        ({
            let t = c.with_volume(v);
            let k = t.carrier;
            &&& t == (Channel { carrier: k, ..c })
            &&& k == (Operator { tl: k.tl, tll: k.tll, ..c.carrier })
            &&& k.tl == 8 * (v as int % 16)
            &&& k.tll == scaled_level(k.tl as int, k.ksl as int, c.ksl_base as int)
        }),
        ({
            let t = c.with_drum_volume(v);
            let m = t.modulator;
            &&& t == (Channel { modulator: m, ..c })
            &&& m == (Operator { tl: m.tl, tll: m.tll, ..c.modulator })
            &&& m.tl == 8 * (v as int / 16)
            &&& m.tll == scaled_level(m.tl as int, m.ksl as int, c.ksl_base as int)
        }),
{
    reveal(Operator::wf);
    reveal(Operator::leveled);
    reveal(Operator::with_levels);
}

/// A whole instrument is its eight bytes, one after the other.
pub proof fn law_instruments_load_all_bytes(c: Channel, inst: Seq<u8>)
    ensures
        c.loaded(inst, 8) == c.with_byte(0, inst[0]).with_byte(1, inst[1]).with_byte(
            2,
            inst[2],
        ).with_byte(3, inst[3]).with_byte(4, inst[4]).with_byte(5, inst[5]).with_byte(
            6,
            inst[6],
        ).with_byte(7, inst[7]),
{
    reveal_with_fuel(Channel::loaded, 9);
}

/// Registers 0x30 to 0x38 hold the volume of a channel in the low four bits and its
/// instrument in the high ones. Only a change of instrument loads one: 0 is the user's.
/// While there are drums, the registers of channels 6 to 8 hold volumes alone.
pub proof fn law_instrument_register(s: FmState, i: int, v: u8)
    requires
        s.wf(),
        0 <= i < 9,
    ensures
        ({
            let t = s.written((0x30 + i) as u8, v);
            let louder = s.ch[i].with_volume(v);
            let beats = lit(s.rhythm, 32);
            &&& only_channel(s, t, i)
            &&& i < 6 || !beats ==> t.instvol[i] / 16 == v / 16
            &&& beats && i >= 6 ==> t.instvol == s.instvol
            &&& beats && i == 6 ==> t.ch[i] == louder
            &&& beats && i >= 7 ==> t.ch[i] == louder.with_drum_volume(v)
            &&& (i < 6 || !beats) && s.instvol[i] / 16 == v / 16 ==> t.ch[i] == louder
            &&& (i < 6 || !beats) && s.instvol[i] / 16 != v / 16 && v < 16 ==> t.ch[i]
                == louder.loaded(s.user, 8)
            &&& (i < 6 || !beats) && s.instvol[i] / 16 != v / 16 && v >= 16 ==> t.ch[i]
                == louder.loaded(tables::INSTRUMENT_ROM[v as int / 16]@, 8)
            &&& forall|k: int| 0 <= k < 9 && k != i ==> #[trigger] t.instvol[k] == s.instvol[k]
        }),
{
}

/// Registers 0 to 7 hold the user's instrument. Each byte is applied to the channels that
/// play it, drums apart, and to no other.
pub proof fn law_user_instrument_register(s: FmState, r: u8, v: u8, i: int)
    requires
        s.wf(),
        r < 8,
        0 <= i < 9,
    ensures
        ({
            let t = s.written(r, v);
            let plays = s.instvol[i] < 16 && (i < 6 || !lit(s.rhythm, 32));
            &&& t.user[r as int] == v
            &&& forall|k: int| 0 <= k < 8 && k != r ==> #[trigger] t.user[k] == s.user[k]
            &&& t.ch[i] == (if plays {
                s.ch[i].with_byte(r as int, v)
            } else {
                s.ch[i]
            })
            &&& t.instvol == s.instvol
            &&& t.rhythm == s.rhythm
        }),
{
}

/// The rhythm register, 0x0E, keys the five drums while bit 5 is up: bit 4 both
/// operators of channel 6 for the bass drum, bit 3 the carrier of channel 7 for the
/// snare drum, bit 2 the modulator of channel 8 for the tom-tom, bit 1 the carrier of
/// channel 8 for the cymbal, and bit 0 the modulator of channel 7 for the high hat. The
/// first six channels stay as they were.
pub proof fn law_rhythm_register(s: FmState, v: u8)
    requires
        s.wf(),
    ensures
        ({
            let t = s.written(0x0E, v);
            let on = lit(v, 32);
            &&& t.rhythm == v % 64
            &&& t.ch.len() == 9
            &&& forall|k: int| 0 <= k < 6 ==> #[trigger] t.ch[k] == s.ch[k]
            &&& t.ch[6].modulator.key_drum == (on && lit(v, 16))
            &&& t.ch[6].carrier.key_drum == (on && lit(v, 16))
            &&& t.ch[7].carrier.key_drum == (on && lit(v, 8))
            &&& t.ch[8].modulator.key_drum == (on && lit(v, 4))
            &&& t.ch[8].carrier.key_drum == (on && lit(v, 2))
            &&& t.ch[7].modulator.key_drum == (on && v % 2 == 1)
            &&& t.user == s.user && t.instvol == s.instvol
        }),
{
    reveal(Operator::keyed_on);
    reveal(Operator::keyed_off);
}

/// Drums that come on load the instruments of the chip for them into channels 6 to 8, and
/// the volumes of high hat and tom-tom; drums that go off bring the instruments of the
/// channels back. Otherwise the channels keep theirs.
pub proof fn law_drums_switch_instruments(s: FmState, on: bool)
    requires
        s.wf(),
    ensures
        ({
            let t = s.switched(on);
            let was = lit(s.rhythm, 32);
            let rom = tables::INSTRUMENT_ROM;
            &&& on == was ==> t == s
            &&& on && !was ==> {
                &&& t.ch[6] == s.ch[6].loaded(rom[16]@, 8)
                &&& t.ch[7] == s.ch[7].loaded(rom[17]@, 8).with_drum_volume(s.instvol[7])
                &&& t.ch[8] == s.ch[8].loaded(rom[18]@, 8).with_drum_volume(s.instvol[8])
            }
            &&& !on && was ==> forall|i: int|
                6 <= i < 9 ==> #[trigger] t.ch[i] == s.ch[i].loaded(
                    if s.instvol[i] < 16 {
                        s.user
                    } else {
                        rom[s.instvol[i] as int / 16]@
                    },
                    8,
                )
            &&& forall|i: int| 0 <= i < 6 ==> #[trigger] t.ch[i] == s.ch[i]
        }),
{
}

/// Ports: an even one takes the register number, an odd one its value; with bit 1 of the
/// port up, bit 0 of the value switches the output.
pub proof fn law_ports(s: FmState, port: u32, v: u8)
    ensures
        port % 4 == 0 ==> s.port_written(port, v) == (FmState { address: v, ..s }),
        port % 4 == 1 ==> s.port_written(port, v) == s.written(s.address, v),
        port % 4 >= 2 ==> s.port_written(port, v) == (FmState { on: v % 2 == 1, ..s }),
{
}

proof fn lemma_melody(a: Seq<Channel>, b: Seq<Channel>, i: int, am: int, n: int)
    requires
        0 <= n <= a.len(),
        b.len() == a.len(),
        forall|k: int| 0 <= k < a.len() && k != i ==> #[trigger] b[k] == a[k],
    ensures
        melody(b, am, n) - melody(a, am, n) == (if 0 <= i < n {
            b[i].output(am) - a[i].output(am)
        } else {
            0
        }),
    decreases n,
{
    if n > 0 {
        lemma_melody(a, b, i, am, n - 1);
    }
}

/// Melodic channels are added up, each twice: what one channel puts out moves the sample
/// by twice as much, whatever the others do. With the output off there is silence.
pub proof fn law_channels_add_up(s: FmState, i: int, c: Channel)
    requires
        s.wf(),
        0 <= i < 9,
        i < 6 || !lit(s.rhythm, 32),
    ensures
        s.on ==> s.with_channel(i, c).output() - s.output() == 2 * (c.output(s.am())
            - s.ch[i].output(s.am())),
        !s.on ==> s.output() == 0,
{
    let t = s.with_channel(i, c);
    lemma_melody(s.ch, t.ch, i, s.am(), 6);
    lemma_melody(s.ch, t.ch, i, s.am(), 9);
}

/// Nine channels that put out nothing make no sound.
pub proof fn law_silent_channels(s: FmState)
    requires
        s.wf(),
        !lit(s.rhythm, 32),
        forall|i: int| 0 <= i < 9 ==> (#[trigger] s.ch[i]).output(s.am()) == 0,
    ensures
        s.output() == 0,
{
    reveal_with_fuel(melody, 10);
}

/// Drums are twice as loud as notes. Bass drum and tom-tom sound at the angles of their
/// oscillators; the other three at angles that noise and two oscillators choose.
pub proof fn law_drums_sound(s: FmState)
    requires
        s.wf(),
        lit(s.rhythm, 32),
        s.on,
        forall|i: int| 0 <= i < 6 ==> (#[trigger] s.ch[i]).output(s.am()) == 0,
    ensures
        ({
            let am = s.am();
            let hat = s.ch[7].modulator;
            let snare = s.ch[7].carrier;
            let tom = s.ch[8].modulator;
            let cymbal = s.ch[8].carrier;
            let p = hat.phase as int / 65536;
            let q = cymbal.phase as int / 65536;
            let noise = s.noise % 2 == 1;
            let metal = (p / 4) % 2 != (p / 128) % 2 || (p / 8) % 2 == 1 || (q / 8) % 2 == 1 || (q
                / 32) % 2 == 1;
            let hat_at = (if metal {
                0x200int
            } else {
                0
            }) + (if metal == noise {
                0xD0int
            } else {
                0x34
            });
            let snare_at = if (p / 256) % 2 == 1 {
                if noise {
                    0x300int
                } else {
                    0x200
                }
            } else if noise {
                0
            } else {
                0x100
            };
            let cymbal_at = if metal {
                0x300int
            } else {
                0x100
            };
            s.output() == 4 * (s.ch[6].output(am) + hat.output(hat_at, am) + snare.output(
                snare_at,
                am,
            ) + tom.output(tom.phase as int / 65536, am)
                + cymbal.output(cymbal_at, am))
        }),
{
    reveal_with_fuel(melody, 7);
}

/// The tremolo goes up by one every four of its 210 steps, from 0 to 26, and down again.
pub proof fn law_tremolo(i: int)
    requires
        0 <= i < 209,
    ensures
        tables::tremolo(0) == 0,
        tables::tremolo(209) == 1,
        tables::tremolo(108) == 26,
        i < 108 ==> tables::tremolo(i) <= tables::tremolo(i + 1) <= tables::tremolo(i) + 1,
        i >= 108 ==> tables::tremolo(i) - 1 <= tables::tremolo(i + 1) <= tables::tremolo(i),
        7 <= i < 103 ==> tables::tremolo(i + 4) == tables::tremolo(i) + 1,
        110 <= i < 206 ==> tables::tremolo(i + 4) == tables::tremolo(i) - 1,
{
}

/// The vibrato swings to both sides alike, by all of its depth and by half of it.
pub proof fn law_vibrato(d: int, k: int)
    requires
        0 <= d < 8,
        0 <= k < 4,
    ensures
        tables::vibrato(d, k + 4) == -tables::vibrato(d, k),
        tables::vibrato(d, 0) == d,
        tables::vibrato(d, 1) == d / 2,
        tables::vibrato(d, 2) == 0,
        tables::vibrato(d, 3) == -tables::vibrato(d, 1),
{
}

/// Every sample moves the counters on: the envelopes by one, tremolo and vibrato by their
/// steps, and none of the registers changes.
pub proof fn law_sample_counts(s: FmState)
    requires
        s.wf(),
    ensures
        ({
            let t = s.sampled();
            &&& t.cnt == (s.cnt + 1) % 0x1_0000_0000
            &&& t.am_cnt == (s.am_cnt + 0x4_0000) % 0xD200_0000
            &&& t.pm_cnt == (s.pm_cnt + 0x4000) % 0x1_0000_0000
            &&& s.am() == tables::tremolo(t.am_cnt as int / 0x100_0000) / 2
            &&& s.pm() == (t.pm_cnt as int / 0x100_0000) % 8
            &&& t.user == s.user && t.instvol == s.instvol && t.rhythm == s.rhythm
            &&& t.address == s.address && t.on == s.on
            &&& t.ch.len() == 9
        }),
{
}

/// Every sample takes one step of the envelopes of a channel. The modulator falls silent
/// by itself only as a drum.
#[verifier::rlimit(50)]
pub proof fn law_sample_steps_envelopes(s: FmState, i: int)
    requires
        s.wf(),
        0 <= i < 9,
    ensures
        ({
            let t = s.sampled();
            let a = s.ch[i];
            let b = t.ch[i];
            let drum = i >= 6 && lit(s.rhythm, 32);
            let c = a.carrier.enveloped(t.cnt, true, a.sus);
            let m = a.modulator.enveloped(t.cnt, drum, a.sus);
            &&& b.carrier.stage == c.stage && b.carrier.volume == c.volume
            &&& b.modulator.stage == m.stage && b.modulator.volume == m.volume
            &&& b.block_fnum == a.block_fnum && b.sus == a.sus
            &&& b.carrier.key_note == a.carrier.key_note && b.carrier.key_drum
                == a.carrier.key_drum
        }),
{
    let a = s.ch[i];
    let t = s.sampled();
    let drum = i >= 6 && lit(s.rhythm, 32);
    lemma_feedback_apart(a.modulator, s.am(), t.cnt, drum, a.sus);
    lemma_envelope_alone(a.carrier, t.cnt, true, a.sus);
    assert(t.ch[i] == s.next_channel(i));
    reveal(Operator::restarted);
    reveal(Operator::turned);
}

/// Feedback and envelope have nothing to do with each other.
proof fn lemma_feedback_apart(op: Operator, am: int, cnt: u32, releases: bool, sus: bool)
    ensures
        op.fed(am).enveloped(cnt, releases, sus).stage == op.enveloped(cnt, releases, sus).stage,
        op.fed(am).enveloped(cnt, releases, sus).volume == op.enveloped(cnt, releases, sus).volume,
{
    reveal(Operator::fed);
    reveal(Operator::enveloped);
    reveal(Operator::faded);
}

proof fn lemma_envelope_alone(op: Operator, cnt: u32, releases: bool, sus: bool)
    ensures
        op.enveloped(cnt, releases, sus).key_note == op.key_note,
        op.enveloped(cnt, releases, sus).key_drum == op.key_drum,
{
    reveal(Operator::enveloped);
    reveal(Operator::faded);
}

/// Every sample moves both oscillators of a channel on by their frequencies, vibrato
/// apart. Where the carrier goes from damping to attack, both begin anew.
#[verifier::rlimit(50)]
pub proof fn law_sample_moves_oscillators(s: FmState, i: int)
    requires
        s.wf(),
        0 <= i < 9,
    ensures
        ({
            let a = s.ch[i];
            let b = s.sampled().ch[i];
            let anew = a.carrier.stage is Damp && a.carrier.volume >= 124;
            let p = if anew {
                0
            } else {
                a.carrier.phase as int
            };
            let q = if anew {
                0
            } else {
                a.modulator.phase as int
            };
            &&& !a.carrier.vibrato ==> b.carrier.phase == (p + a.carrier.freq) % 0x1_0000_0000
            &&& !a.modulator.vibrato ==> b.modulator.phase == (q + a.modulator.freq)
                % 0x1_0000_0000
        }),
{
    reveal(Operator::wf);
    reveal(Operator::restarted);
    reveal(Operator::turned);
    reveal(Operator::fed);
    reveal(Operator::enveloped);
    reveal(Operator::faded);
    assert(s.ch[i].wf());
}

/// The modulator shifts the angle of the carrier by twice its last output, and its own by
/// the sum of its last two, times two to the feedback of 1 to 7, in 256ths.
pub proof fn law_modulation(c: Channel, am: int)
    requires
        c.modulator.feedback == 0 || 9 <= c.modulator.feedback <= 15,
    ensures
        ({
            let m = c.modulator;
            let at = m.phase as int / 65536;
            let shift = (m.out0 + m.out1) * (256 * octaves(m.feedback - 8)) / 65536;
            &&& c.output(am) == c.carrier.output(c.carrier.phase as int / 65536 + 2 * m.out1, am)
            &&& m.feedback == 0 ==> m.fed_back(am) == m.output(at, am)
            &&& m.feedback != 0 ==> m.fed_back(am) == m.output(at + shift, am)
            &&& c.fed(am).modulator == (Operator {
                out0: m.out1,
                out1: m.fed_back(am) as i32,
                ..m
            })
            &&& c.fed(am).carrier == c.carrier
        }),
{
    reveal(Operator::fed);
    reveal(Operator::fed_back);
    reveal_with_fuel(tables::power, 16);
}

/// Every sample the modulator of a melodic channel and of the bass drum moves its outputs on; the
/// other drums have none to feed back.
#[verifier::rlimit(50)]
pub proof fn law_sample_feeds_back(s: FmState, i: int)
    requires
        s.wf(),
        0 <= i < 9,
    ensures
        ({
            let m = s.ch[i].modulator;
            let t = s.sampled().ch[i].modulator;
            let fixed = i >= 7 && lit(s.rhythm, 32);
            &&& fixed ==> t.out0 == m.out0 && t.out1 == m.out1
            &&& !fixed ==> t.out0 == m.out1 && t.out1 == m.fed_back(s.am()) as i32
        }),
{
    reveal(Operator::fed);
    reveal(Operator::enveloped);
    reveal(Operator::faded);
    reveal(Operator::restarted);
    reveal(Operator::turned);
}

proof fn lemma_noise_bits(n: u32, k: u32)
    by (bit_vector)
    requires
        k < 23,
        n < 0x80_0000,
    ensures
        ((n / 2) >> k) & 1 == (n >> ((k + 1) as u32)) & 1,
        n % 2 == 1 && (k == 0 || k == 7 || k == 8 || k == 22) ==> (((n ^ 0x800302) / 2) >> k) & 1
            != ((n / 2) >> k) & 1,
        n % 2 == 1 && !(k == 0 || k == 7 || k == 8 || k == 22) ==> (((n ^ 0x800302) / 2) >> k) & 1
            == ((n / 2) >> k) & 1,
{
}

/// The noise generator shifts its 23 bits down by one; where the bit that falls out is up, bits 0,
/// 7, 8 and 22 of the result turn over.
pub proof fn law_noise_shifts(s: FmState, k: u32)
    requires
        s.wf(),
        k < 23,
    ensures
        ({
            let n = s.noise;
            let t = s.sampled().noise;
            let tap = k == 0 || k == 7 || k == 8 || k == 22;
            let shifted = (n >> ((k + 1) as u32)) & 1;
            let bit = (t >> k) & 1;
            &&& n % 2 == 1 && tap ==> bit != shifted
            &&& !(n % 2 == 1 && tap) ==> bit == shifted
        }),
{
    lemma_noise_bits(s.noise, k);
}

/// A reset leaves every operator off at full attenuation, the user's instrument at 0, the
/// counter of the envelopes at 0, and the output on.
pub proof fn law_reset_state(s: FmState, i: int)
    requires
        s.wf(),
        0 <= i < 9,
    ensures
        ({
            let t = s.after_reset();
            &&& t.ch.len() == 9
            &&& t.ch[i].carrier.stage is Off && t.ch[i].carrier.volume == 127
            &&& t.ch[i].modulator.stage is Off && t.ch[i].modulator.volume == 127
            &&& t.on
            &&& t.cnt == 0
        }),
{
    reveal(Operator::silenced);
    let a = FmState { cnt: 0, noise: 1, user: Seq::new(8, |i: int| 0u8), ..s };
    lemma_cleared_counts(a, 0x3F);
}

proof fn lemma_cleared_counts(s: FmState, r: int)
    requires
        s.ch.len() == 9,
        r <= 0x3F,
    ensures
        s.cleared(r).ch.len() == 9,
        s.cleared(r).cnt == s.cnt,
        s.cleared(r).user == s.user,
    decreases r,
{
    if r >= 0x10 {
        lemma_cleared_counts(s.written(r as u8, 0), r - 1);
    }
}

/// Key scaling of the top octave, by the high four bits of the frequency number.
pub proof fn law_key_scaling_of_top_octave(n: int)
    requires
        0 <= n < 16,
    ensures
        tables::key_scale(7, n) == seq![
            0int, 48, 64, 74, 80, 86, 90, 94, 96, 100, 102, 104, 106, 108, 110, 112,
        ][n],
{
}

/// Registers 0x08 to 0x0D, 0x0F and from 0x40 on hold nothing.
pub proof fn law_other_registers(s: FmState, r: u8, v: u8)
    requires
        0x08 <= r < 0x0E || r == 0x0F || r >= 0x40,
    ensures
        s.written(r, v) == s,
{
}

/// An operator has the stage, the attenuation and the keys of another.
pub open spec fn sounds_as(a: Operator, b: Operator) -> bool {
    a.stage == b.stage && a.volume == b.volume && a.key_note == b.key_note && a.key_drum
        == b.key_drum
}

proof fn lemma_byte_keeps(c: Channel, i: int, v: u8)
    ensures
        sounds_as(c.with_byte(i, v).modulator, c.modulator),
        sounds_as(c.with_byte(i, v).carrier, c.carrier),
{
    reveal(Operator::with_flags);
    reveal(Operator::tuned);
    reveal(Operator::leveled);
    reveal(Operator::with_levels);
    reveal(Operator::with_wave);
    reveal(Operator::with_attack_decay);
    reveal(Operator::with_sustain_release);
}

proof fn lemma_load_keeps(c: Channel, inst: Seq<u8>, n: int)
    ensures
        sounds_as(c.loaded(inst, n).modulator, c.modulator),
        sounds_as(c.loaded(inst, n).carrier, c.carrier),
    decreases n,
{
    if n > 0 {
        lemma_load_keeps(c, inst, n - 1);
        lemma_byte_keeps(c.loaded(inst, n - 1), n - 1, inst[n - 1]);
    }
}

/// A new instrument changes neither the stage of a note, nor its attenuation, nor its keys.
pub proof fn law_instruments_keep_notes(c: Channel, inst: Seq<u8>, v: u8)
    ensures
        sounds_as(c.loaded(inst, 8).modulator, c.modulator),
        sounds_as(c.loaded(inst, 8).carrier, c.carrier),
        sounds_as(c.with_volume(v).modulator, c.modulator),
        sounds_as(c.with_volume(v).carrier, c.carrier),
        sounds_as(c.with_drum_volume(v).modulator, c.modulator),
        sounds_as(c.with_drum_volume(v).carrier, c.carrier),
{
    lemma_load_keeps(c, inst, 8);
    reveal(Operator::leveled);
    reveal(Operator::with_levels);
}

/// What a drum bit does to an operator: it starts one that nothing held, and releases one that
/// nothing else holds, from the attenuation that it had.
pub open spec fn drummed(before: Operator, after: Operator, down: bool) -> bool {
    &&& after.key_drum == down
    &&& after.key_note == before.key_note
    &&& after.volume == before.volume
    &&& down && !held(before) ==> after.stage is Damp
    &&& down && held(before) ==> after.stage == before.stage
    &&& !down && before.key_drum && !before.key_note && before.volume < 124
        ==> after.stage is Release
    &&& !down && (!before.key_drum || before.key_note) && (held(before) ==> before.key_note)
        ==> after.stage == before.stage
}

/// The drum bits of the rhythm register start and release the operators of their drums.
#[verifier::rlimit(50)]
pub proof fn law_drums_start_and_release(s: FmState, v: u8)
    requires
        s.wf(),
    ensures
        ({
            let t = s.written(0x0E, v);
            let on = lit(v, 32);
            &&& drummed(s.ch[6].modulator, t.ch[6].modulator, on && lit(v, 16))
            &&& drummed(s.ch[6].carrier, t.ch[6].carrier, on && lit(v, 16))
            &&& drummed(s.ch[7].carrier, t.ch[7].carrier, on && lit(v, 8))
            &&& drummed(s.ch[8].modulator, t.ch[8].modulator, on && lit(v, 4))
            &&& drummed(s.ch[8].carrier, t.ch[8].carrier, on && lit(v, 2))
            &&& drummed(s.ch[7].modulator, t.ch[7].modulator, on && v % 2 == 1)
        }),
{
    let on = lit(v, 32);
    let w = s.switched(on);
    lemma_switch_keeps(s, on);
    let t = s.written(0x0E, v);
    assert(t.ch[6] == w.ch[6].keyed(true, on && lit(v, 16), on && lit(v, 16)));
    assert(t.ch[7] == w.ch[7].keyed(true, on && v % 2 == 1, on && lit(v, 8)));
    assert(t.ch[8] == w.ch[8].keyed(true, on && lit(v, 4), on && lit(v, 2)));
    lemma_drummed(s.ch[6].modulator, w.ch[6].modulator);
    lemma_drummed(s.ch[6].carrier, w.ch[6].carrier);
    lemma_drummed(s.ch[7].modulator, w.ch[7].modulator);
    lemma_drummed(s.ch[7].carrier, w.ch[7].carrier);
    lemma_drummed(s.ch[8].modulator, w.ch[8].modulator);
    lemma_drummed(s.ch[8].carrier, w.ch[8].carrier);
}

proof fn lemma_drummed(before: Operator, loaded: Operator)
    requires
        sounds_as(loaded, before),
    ensures
        drummed(before, loaded.keyed_on(true), true),
        drummed(before, loaded.keyed_off(true), false),
{
    reveal(Operator::keyed_on);
    reveal(Operator::keyed_off);
}

proof fn lemma_switch_keeps(s: FmState, on: bool)
    requires
        s.wf(),
    ensures
        forall|i: int|
            6 <= i < 9 ==> sounds_as((#[trigger] s.switched(on).ch[i]).modulator, s.ch[i].modulator)
                && sounds_as(s.switched(on).ch[i].carrier, s.ch[i].carrier),
{
    law_drums_switch_instruments(s, on);
    assert forall|i: int| 6 <= i < 9 implies sounds_as(
        (#[trigger] s.switched(on).ch[i]).modulator,
        s.ch[i].modulator,
    ) && sounds_as(s.switched(on).ch[i].carrier, s.ch[i].carrier) by {
        let rom = s.instrument(i + 10);
        let own = s.instrument((s.instvol[i] / 16) as int);
        let c = s.ch[i];
        law_instruments_keep_notes(c, rom, s.instvol[i]);
        law_instruments_keep_notes(c, own, s.instvol[i]);
        law_instruments_keep_notes(c.loaded(rom, 8), rom, s.instvol[i]);
    }
}

} // verus!
