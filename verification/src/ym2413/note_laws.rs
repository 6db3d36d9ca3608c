//! How a note sounds: its keys, its envelope, its pitch and its wave.
#[allow(unused_imports)]
use crate::ym2413::operator::{self, Operator};
#[allow(unused_imports)]
use crate::ym2413::tables::{self, Rate};
use vstd::prelude::*;

verus! {

/// A note or the rhythm register holds the operator.
pub open spec fn held(op: Operator) -> bool {
    op.key_note || op.key_drum
}

/// A key that goes up takes only itself back. When the last key of an operator goes
/// up whose attenuation is below 124, the operator goes into the release stage with
/// the attenuation that it had, and sounds right after as it did right before. One
/// that was silent already is off. While another key holds it, its stage stays.
pub proof fn law_key_off_releases(op: Operator, drum: bool, angle: int, am: int)
    requires
        op.wf(),
    ensures
        ({
            let t = op.keyed_off(drum);
            &&& t.key_note == (op.key_note && drum)
            &&& t.key_drum == (op.key_drum && !drum)
            &&& t == (Operator {
                key_note: t.key_note,
                key_drum: t.key_drum,
                stage: t.stage,
                ..op
            })
            &&& held(op) && !held(t) && op.volume < 124 ==> t.stage is Release
            &&& held(op) && !held(t) && op.volume >= 124 ==> t.stage is Off
            &&& !held(op) || held(t) ==> t.stage == op.stage
            &&& op.volume < 124 && op.stage !is Off ==> t.level(am) == op.level(am) && t.output(
                angle,
                am,
            ) == op.output(angle, am)
        }),
{
    reveal(Operator::wf);
    reveal(Operator::keyed_off);
    reveal(Operator::output);
}

/// A key that goes down starts an operator that nothing held: it is damped from the
/// attenuation it has. One that was held goes on as it was. A second key down of the
/// same kind changes nothing.
pub proof fn law_key_on_damps(op: Operator, drum: bool)
    ensures
        ({
            let t = op.keyed_on(drum);
            &&& t.key_note == (op.key_note || !drum)
            &&& t.key_drum == (op.key_drum || drum)
            &&& t == (Operator {
                key_note: t.key_note,
                key_drum: t.key_drum,
                stage: t.stage,
                ..op
            })
            &&& !held(op) ==> t.stage is Damp
            &&& held(op) ==> t.stage == op.stage
            &&& t.keyed_on(drum) == t
        }),
{
    reveal(Operator::keyed_on);
}

/// An operator goes off by itself only out of decay, sustain or release, with a step
/// that brings its attenuation to 124 or more; it then stays at full attenuation.
pub proof fn law_off_only_when_silent(op: Operator, cnt: u32, releases: bool, sus: bool)
    requires
        op.wf(),
    ensures
        ({
            let t = op.enveloped(cnt, releases, sus);
            &&& t.stage is Off && op.stage !is Off ==> (op.stage is Decay || op.stage is Sustain
                || op.stage is Release) && op.volume < 124 <= t.volume
            &&& op.stage is Release && op.volume < 124 && t.volume < 124 ==> t.stage is Release
            &&& op.stage is Off ==> t.stage is Off && t.volume == 127
        }),
{
    reveal(Operator::wf);
    reveal(Operator::enveloped);
    reveal(Operator::faded);
}

/// The stages of a note follow one another: damping until the attenuation is 124 or
/// more, attack until it is 0, decay until it is in the step of eight of the sustain
/// level, then sustain.
pub proof fn law_stages_follow(op: Operator, cnt: u32, releases: bool, sus: bool)
    requires
        op.wf(),
    ensures
        ({
            let t = op.enveloped(cnt, releases, sus);
            &&& t == (Operator { stage: t.stage, volume: t.volume, ..op })
            &&& op.stage is Damp ==> if op.volume >= 124 {
                t.stage is Attack
            } else {
                t.stage is Damp
            }
            &&& op.stage is Attack ==> if op.volume == 0 {
                t.stage is Decay && t.volume == 0
            } else {
                t.stage is Attack
            }
            &&& op.stage is Decay ==> if op.sl <= op.volume < op.sl + 8 && op.sl % 8 == 0 {
                t.stage is Sustain && t.volume == op.volume
            } else {
                t.stage is Decay || t.stage is Off
            }
            &&& op.stage is Sustain ==> t.stage is Sustain || t.stage is Off
            &&& op.stage is Release ==> t.stage is Release || t.stage is Off
        }),
{
    reveal(Operator::wf);
    reveal(Operator::enveloped);
    reveal(Operator::faded);
}

/// A held level stays where it is, and so does a released modulator.
pub proof fn law_levels_that_stay(op: Operator, cnt: u32, releases: bool, sus: bool)
    ensures
        op.stage is Sustain && op.holds ==> op.enveloped(cnt, releases, sus) == op,
        op.stage is Release && !releases ==> op.enveloped(cnt, releases, sus) == op,
{
    reveal(Operator::enveloped);
}

/// Samples between two steps of a rate.
pub open spec fn gap(r: Rate) -> int {
    if r.shift == 0 {
        1
    } else if r.shift == 1 {
        2
    } else if r.shift == 2 {
        4
    } else if r.shift == 3 {
        8
    } else if r.shift == 4 {
        16
    } else if r.shift == 5 {
        32
    } else if r.shift == 6 {
        64
    } else if r.shift == 7 {
        128
    } else if r.shift == 8 {
        256
    } else if r.shift == 9 {
        512
    } else if r.shift == 10 {
        1024
    } else if r.shift == 11 {
        2048
    } else if r.shift == 12 {
        4096
    } else {
        8192
    }
}

/// The attenuation that a fading stage adds at a sample: nothing between two steps of
/// its rate, and else the increment of the step.
pub open spec fn growth(r: Rate, cnt: int) -> int {
    if cnt % gap(r) == 0 {
        tables::eg_increment(r.row as int, (cnt / gap(r)) % 16)
    } else {
        0
    }
}

proof fn lemma_gap(r: Rate)
    requires
        r.shift <= 13,
    ensures
        tables::power(r.shift as int) == gap(r),
{
    reveal_with_fuel(tables::power, 14);
}

/// Each stage that fades has its rate: damping, decay and sustain have their own, and
/// a release takes that of the instrument for a held level without the sustain flag
/// of the channel, and else that of the fade.
pub proof fn law_stages_have_rates(op: Operator, cnt: u32, sus: bool)
    requires
        op.wf(),
    ensures
        ({
            let t = op.enveloped(cnt, true, sus);
            let n = cnt as int;
            &&& op.stage is Damp && op.volume < 124 ==> t.volume == op.volume + growth(op.damp, n)
            &&& op.stage is Decay && !(op.sl <= op.volume < op.sl + 8 && op.sl % 8 == 0)
                ==> t.volume == op.volume + growth(op.decay, n)
            &&& op.stage is Sustain && !op.holds ==> t.volume == op.volume + growth(op.release, n)
            &&& op.stage is Release && op.holds && !sus ==> t.volume == op.volume + growth(
                op.release,
                n,
            )
            &&& op.stage is Release && (!op.holds || sus) ==> t.volume == op.volume + growth(
                op.fade,
                n,
            )
        }),
{
    reveal(Operator::wf);
    reveal(Operator::enveloped);
    reveal(Operator::faded);
    lemma_gap(op.damp);
    lemma_gap(op.decay);
    lemma_gap(op.release);
    lemma_gap(op.fade);
}

/// What a row adds in the first `n` of its steps.
pub open spec fn total(row: int, n: int) -> int
    decreases n,
{
    if n <= 0 {
        0
    } else {
        total(row, n - 1) + tables::eg_increment(row, n - 1)
    }
}

/// Rows get faster. In 16 steps the rows 1 to 4 add 8, 10, 12 and 14, the rows 5 to 8
/// the same, the rows 9 to 12 add 16, 20, 24 and 28, and the last row 32.
pub proof fn law_rows_add(row: int)
    requires
        0 <= row <= 13,
    ensures
        total(row, 16) == (if row == 0 {
            0
        } else if row <= 4 {
            6 + 2 * row
        } else if row <= 8 {
            2 * row - 2
        } else if row <= 12 {
            4 * row - 20
        } else {
            32
        }),
{
    reveal_with_fuel(total, 17);
}

/// Four rate numbers further on an envelope is twice as fast: the steps of the same
/// row come twice as often. Below 20 it never moves, and from 76 on every sample adds
/// two.
pub proof fn law_rates_double(r: int, cnt: int)
    requires
        0 <= r <= 95,
        cnt >= 0,
    ensures
        20 <= r < 64 ==> gap(tables::eg_rate(r)) == 2 * gap(tables::eg_rate(r + 4))
            && tables::eg_rate(r).row == tables::eg_rate(r + 4).row,
        20 <= r < 68 ==> tables::eg_rate(r).row == 1 + r % 4,
        64 <= r < 68 ==> gap(tables::eg_rate(r)) == 2,
        68 <= r < 76 ==> gap(tables::eg_rate(r)) == 1 && tables::eg_rate(r).row == r - 63,
        r < 20 ==> growth(tables::eg_rate(r), cnt) == 0,
        r >= 76 ==> growth(tables::eg_rate(r), cnt) == 2,
{
}

/// Attack rates: as the other rates up to 63, then on every sample with the rows from
/// 5 on, and at once from 76 on.
pub proof fn law_attack_rates(r: int)
    requires
        0 <= r <= 95,
    ensures
        r < 64 ==> tables::eg_attack_rate(r) == tables::eg_rate(r),
        64 <= r < 76 ==> gap(tables::eg_attack_rate(r)) == 1 && tables::eg_attack_rate(r).row == r
            - 59,
        r >= 76 ==> tables::eg_attack_rate(r).row == 0,
{
}

/// An attack step takes the complement of the attenuation times its factor away, in
/// sixteenths rounded up.
pub proof fn law_attack_steps(op: Operator, cnt: u32, releases: bool, sus: bool)
    requires
        op.wf(),
        op.stage is Attack,
        op.volume > 0,
    ensures
        ({
            let t = op.enveloped(cnt, releases, sus);
            let n = cnt as int;
            let f = tables::attack_factor(op.attack.row as int, (n / gap(op.attack)) % 16);
            let stepping = gap(op.attack) <= 4 || n % gap(op.attack) < 4;
            &&& stepping ==> 16 * (op.volume - t.volume) >= (op.volume + 1) * f && 16 * (op.volume
                - t.volume) < (op.volume + 1) * f + 16
            &&& !stepping ==> t.volume == op.volume
        }),
{
    reveal(Operator::wf);
    reveal(Operator::enveloped);
    lemma_gap(op.attack);
    let v = op.volume as int;
    let f = tables::attack_factor(op.attack.row as int, operator::step_of(op.attack, cnt));
    assert(0 <= (v + 1) * f && (v + 1) * f <= 8 * (v + 1)) by (nonlinear_arith)
        requires
            0 <= f <= 8,
            v >= 0,
    ;
    if op.attack.shift > 2 {
        reveal_with_fuel(tables::power, 12);
        let m = op.attack.shift - 2;
        lemma_gap(Rate { shift: m as u32, row: 0 });
    }
}

/// Attack factors: in 16 steps the rows 1 to 4 move as their increments do, and from 5
/// on a step moves by 1 or 2, by 2 or 4, and by 4 or 8.
pub proof fn law_attack_factors(row: int, k: int)
    requires
        0 <= row <= 16,
        0 <= k < 16,
    ensures
        ({
            let f = tables::attack_factor(row, k);
            let quarter = k / 4;
            let more = |n: int| (n == 1 && quarter == 1) || (n == 2 && quarter % 2 == 1) || (n == 3
                && quarter != 0);
            &&& row <= 4 ==> f == tables::eg_increment(row, k)
            &&& 5 <= row <= 8 ==> f == (if more(row - 5) {
                2int
            } else {
                1
            })
            &&& 9 <= row <= 12 ==> f == (if more(row - 9) {
                4int
            } else {
                2
            })
            &&& 13 <= row ==> f == (if more(row - 13) {
                8int
            } else {
                4
            })
        }),
{
}

/// A note starts at full volume at once where the attack rate is the fastest.
pub proof fn law_fastest_attack(op: Operator, cnt: u32, releases: bool, sus: bool)
    requires
        op.wf(),
        op.stage is Damp,
        op.volume >= 124,
    ensures
        op.ar + op.ksr >= 76 ==> op.enveloped(cnt, releases, sus).volume == 0,
        op.ar + op.ksr < 76 ==> op.enveloped(cnt, releases, sus).volume == op.volume,
{
    reveal(Operator::wf);
    reveal(Operator::enveloped);
}

/// Two to an octave number.
pub open spec fn octaves(n: int) -> int {
    if n == 0 {
        1
    } else if n == 1 {
        2
    } else if n == 2 {
        4
    } else if n == 3 {
        8
    } else if n == 4 {
        16
    } else if n == 5 {
        32
    } else if n == 6 {
        64
    } else {
        128
    }
}

/// A frequency number of nine bits steps the phase by 64 times itself in the lowest
/// octave, and by twice as much in each octave up.
pub proof fn law_pitch(octave: int, fnum: int)
    requires
        0 <= octave < 8,
        0 <= fnum < 512,
    ensures
        operator::frequency(2 * (512 * octave + fnum)) == 64 * fnum * octaves(octave),
        octave < 7 ==> operator::frequency(2 * (512 * (octave + 1) + fnum)) == 2
            * operator::frequency(2 * (512 * octave + fnum)),
{
    reveal_with_fuel(tables::power, 8);
    let n = 2 * (512 * octave + fnum);
    assert(n % 1024 == 2 * fnum && n / 1024 == octave);
    assert(tables::power(octave) == octaves(octave));
    assert((n % 1024) * 32 == 64 * fnum);
    if octave < 7 {
        let m = 2 * (512 * (octave + 1) + fnum);
        assert(m % 1024 == 2 * fnum && m / 1024 == octave + 1);
        assert(tables::power(octave + 1) == 2 * tables::power(octave));
        assert((64 * fnum) * (2 * octaves(octave)) == 2 * ((64 * fnum) * octaves(octave)))
            by (nonlinear_arith);
    }
}

/// Each sample moves the phase on by the frequency of the operator. With vibrato, the
/// frequency number swings by its high three bits up and down in eight steps.
pub proof fn law_phase_moves(op: Operator, block_fnum: int, pm: int)
    requires
        0 <= block_fnum < 4096,
        0 <= pm < 8,
    ensures
        ({
            let t = op.turned(block_fnum, pm);
            let high = (block_fnum / 64) % 8;
            let swing: int = if pm == 0 {
                high
            } else if pm == 4 {
                -high
            } else if pm == 1 || pm == 7 {
                high / 2
            } else if pm == 3 || pm == 5 {
                -(high / 2)
            } else {
                0
            };
            &&& t == (Operator { phase: t.phase, ..op })
            &&& !op.vibrato || swing == 0 ==> t.phase == (op.phase + op.freq) % 0x1_0000_0000
            &&& op.vibrato && swing != 0 ==> t.phase == (op.phase + operator::frequency(
                2 * block_fnum + swing,
            ) * op.mul) % 0x1_0000_0000
        }),
{
    reveal(Operator::turned);
}

/// The level of an operator that is not off is the sum of its total level with key
/// scaling, its envelope and, where it has tremolo, the tremolo.
pub proof fn law_levels_add(op: Operator, am: int)
    ensures
        op.stage !is Off && op.tremolo ==> op.level(am) == op.tll + op.volume + am,
        op.stage !is Off && !op.tremolo ==> op.level(am) == op.tll + op.volume,
        op.stage is Off ==> op.level(am) >= 176,
{
}

/// The wave of an operator repeats every 1024 steps of the angle. Its first half is
/// not negative and the same from either end; the second half is its mirror image
/// below zero, or silence for a half wave.
pub proof fn law_wave_shape(op: Operator, angle: int, am: int)
    requires
        0 <= angle < 512,
    ensures
        op.output(angle + 1024, am) == op.output(angle, am),
        op.output(angle, am) >= 0,
        op.output(511 - angle, am) == op.output(angle, am),
        op.output(angle + 512, am) == (if op.half_wave {
            0
        } else {
            -op.output(angle, am)
        }),
{
    reveal(Operator::output);
    reveal(tables::sine_attenuation);
    assert((angle + 1024) % 1024 == angle);
    assert((angle + 512) % 512 == angle);
    assert((511 - angle) % 512 == 511 - angle);
    if op.level(am) < 176 {
        let env = op.level(am);
        lemma_amplitude(16 * env + tables::sine_attenuation(angle));
    }
}

proof fn lemma_amplitude(steps: int)
    ensures
        tables::amplitude(steps) >= 0,
{
    reveal(tables::amplitude);
    lemma_power(steps / 256);
    let n = tables::LEVELS[steps % 256] as int;
    let p = tables::power(steps / 256);
    assert(n / p >= 0) by (nonlinear_arith)
        requires
            n >= 0,
            p >= 1,
    ;
}

proof fn lemma_power(n: int)
    ensures
        tables::power(n) >= 1,
    decreases n,
{
    if n > 0 {
        lemma_power(n - 1);
    }
}

/// Sixteen more steps of level halve an output, rounded towards zero, and from 176 on
/// there is none.
pub proof fn law_louder_by_halves(angle: int, env: int)
    requires
        0 <= angle < 512,
        0 <= env,
    ensures
        env + 16 < 176 ==> tables::operator_output(angle, env + 16, false)
            == tables::operator_output(angle, env, false) / 2,
        env >= 176 ==> tables::operator_output(angle, env, false) == 0,
{
    lemma_sine(angle);
    let a = tables::sine_attenuation(angle);
    lemma_halved(16 * env + a);
    assert(16 * (env + 16) + a == 16 * env + a + 256);
    if env >= 176 {
        reveal(tables::amplitude);
    }
}

proof fn lemma_sine(angle: int)
    ensures
        tables::sine_attenuation(angle) >= 0,
{
    reveal(tables::sine_attenuation);
}

proof fn lemma_halved(s: int)
    requires
        0 <= s,
    ensures
        tables::amplitude(s + 256) == tables::amplitude(s) / 2,
{
    reveal(tables::amplitude);
    let k = s / 256;
    assert((s + 256) % 256 == s % 256 && (s + 256) / 256 == k + 1);
    let n = tables::LEVELS[s % 256] as int;
    lemma_power(k);
    let p = tables::power(k);
    assert(tables::power(k + 1) == 2 * p);
    if s + 256 < 2816 {
        vstd::arithmetic::div_mod::lemma_div_denominator(n, p, 2);
        assert(p * 2 == 2 * p);
    } else if s < 2816 {
        lemma_top_power(k);
        tables::lemma_levels(s % 256);
        assert(n / p <= 1) by (nonlinear_arith)
            requires
                0 <= n <= 2042,
                p >= 1024,
        ;
        assert(n / p >= 0) by (nonlinear_arith)
            requires
                0 <= n,
                p >= 1024,
        ;
    }
}

proof fn lemma_top_power(k: int)
    requires
        k == 10,
    ensures
        tables::power(k) == 1024,
{
    reveal_with_fuel(tables::power, 11);
}

/// The sine table falls from the start of the wave to its top: a quarter of a wave gets louder.
pub proof fn law_quarter_wave_rises(i: int)
    requires
        0 <= i < 255,
    ensures
        tables::QUARTER_SINE[i + 1] <= tables::QUARTER_SINE[i],
        tables::QUARTER_SINE[255] == 0,
{
}

/// Each step of attenuation makes an amplitude smaller, and 256 of them halve it.
pub proof fn law_levels_fall(i: int)
    requires
        0 <= i < 255,
    ensures
        tables::LEVELS[i + 1] < tables::LEVELS[i],
        tables::LEVELS[255] == 1024,
        tables::LEVELS[0] < 2048,
{
}

/// How the increments of a row are spread over its 16 steps. In the rows 1 to 4 every second step
/// adds one, and of the four in between in each eight steps none, the second, the second and
/// fourth, or all but the first do too. The rows 5 to 8 have the same four by four steps, and the
/// rows 9 to 12 add one more on them.
pub proof fn law_increments_spread(row: int, k: int)
    requires
        0 <= row <= 13,
        0 <= k < 16,
    ensures
        ({
            let x = tables::eg_increment(row, k);
            let pair = (k / 2) % 4;
            let four = k / 4;
            &&& row == 0 ==> x == 0
            &&& 1 <= row <= 8 && k % 2 == 1 ==> x == 1
            &&& row == 1 && k % 2 == 0 ==> x == 0
            &&& row == 2 && k % 2 == 0 ==> (x == 1 <==> pair == 1)
            &&& row == 3 && k % 2 == 0 ==> (x == 1 <==> pair == 1 || pair == 3)
            &&& row == 4 && k % 2 == 0 ==> (x == 1 <==> pair >= 1)
            &&& row == 5 && k % 2 == 0 ==> x == 0
            &&& row == 6 && k % 2 == 0 ==> (x == 1 <==> four == 1)
            &&& row == 7 && k % 2 == 0 ==> (x == 1 <==> four == 1 || four == 3)
            &&& row == 8 && k % 2 == 0 ==> (x == 1 <==> four >= 1)
            &&& row == 9 ==> x == 1
            &&& row == 10 ==> x == (if four == 1 {
                2int
            } else {
                1
            })
            &&& row == 11 ==> x == (if four == 1 || four == 3 {
                2int
            } else {
                1
            })
            &&& row == 12 ==> x == (if four >= 1 {
                2int
            } else {
                1
            })
            &&& row == 13 ==> x == 2
            &&& 0 <= x <= 2
        }),
{
}

} // verus!
