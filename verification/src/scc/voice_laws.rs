//! What the five channels of the SCC play.
#[allow(unused_imports)]
use crate::scc::SccState;
use vstd::prelude::*;

verus! {

proof fn lemma_switches(b: u8)
    by (bit_vector)
    ensures
        (b & (1u8 << 0u8) != 0) == (b % 2 == 1),
        (b & (1u8 << 1u8) != 0) == ((b / 2) % 2 == 1),
        (b & (1u8 << 2u8) != 0) == ((b / 4) % 2 == 1),
        (b & (1u8 << 3u8) != 0) == ((b / 8) % 2 == 1),
        (b & (1u8 << 4u8) != 0) == ((b / 16) % 2 == 1),
{
}

/// Channel `c` is on: its bit of register 0x8F.
pub open spec fn on(s: SccState, c: int) -> bool {
    let b = s.regs[0x8F];
    if c == 0 {
        b % 2 == 1
    } else if c == 1 {
        (b / 2) % 2 == 1
    } else if c == 2 {
        (b / 4) % 2 == 1
    } else if c == 3 {
        (b / 8) % 2 == 1
    } else {
        (b / 16) % 2 == 1
    }
}

/// A channel plays the byte of its wave that the top five bits of its position give, as a
/// signed number, times the low four bits of its volume register; nothing while it is off.
/// The fifth channel has the wave of the fourth.
pub proof fn law_channel_plays(s: SccState, c: int)
    requires
        s.wf(),
        0 <= c < 5,
    ensures
        ({
            let at = (s.phase[c] + s.step[c]) % 0x1_0000_0000 / 0x800_0000;
            let byte = s.regs[at + if c == 4 {
                96
            } else {
                32 * c
            }];
            let level = s.regs[0x8A + c] % 16;
            &&& 0 <= at < 32
            &&& !on(s, c) ==> s.output(c) == 0
            &&& on(s, c) && byte < 128 ==> s.output(c) == byte * level
            &&& on(s, c) && byte >= 128 ==> s.output(c) == -((256 - byte) * level)
        }),
{
    lemma_switches(s.regs[0x8F]);
    let at = (s.phase[c] + s.step[c]) % 0x1_0000_0000 / 0x800_0000;
    let byte = s.regs[at + if c == 4 {
        96
    } else {
        32 * c
    }];
    let level = (s.regs[0x8A + c] % 16) as int;
    assert((byte - 256) * level == -((256 - byte) * level)) by (nonlinear_arith);
    let zero = crate::scc::signed(byte) * 0;
    assert(zero == 0);
}

/// The sample is the sum of the five channels, and every sample moves each channel on by its
/// step. No register changes.
pub proof fn law_samples_add_up(s: SccState, c: int)
    requires
        s.wf(),
        0 <= c < 5,
    ensures
        s.mix() == s.output(0) + s.output(1) + s.output(2) + s.output(3) + s.output(4),
        s.sampled().phase[c] == (s.phase[c] + s.step[c]) % 0x1_0000_0000,
        s.sampled().regs == s.regs,
        s.sampled().step == s.step,
{
}

/// A write sets its register and no other. Waves, volumes and switches leave every channel
/// where it is; a byte of a period starts its own channel over, at the step of the period
/// that the two bytes then give, four bits of the second.
pub proof fn law_writes_set_registers(s: SccState, addr: u8, value: u8, i: int, c: int)
    requires
        s.wf(),
        0 <= i < 256,
        0 <= c < 5,
    ensures
        ({
            let t = s.written(addr, value);
            let own = addr == 0x80 + 2 * c || addr == 0x81 + 2 * c;
            &&& t.wf()
            &&& t.steps == s.steps
            &&& t.regs[i] == (if i == addr {
                value
            } else {
                s.regs[i]
            })
            &&& own ==> t.phase[c] == 0 && t.step[c] == s.steps[t.regs[0x80 + 2 * c] + 256 * (
            t.regs[0x81 + 2 * c] % 16)]
            &&& !own ==> t.phase[c] == s.phase[c] && t.step[c] == s.step[c]
        }),
{
}

/// A cleared chip is silent and stays where it is.
pub proof fn law_cleared_is_silent(steps: Seq<u32>, c: int)
    requires
        steps.len() == 4096,
        0 <= c < 5,
    ensures
        ({
            let s = SccState::cleared(steps);
            &&& s.wf()
            &&& s.output(c) == 0
            &&& s.sampled().phase[c] == 0
        }),
{
    lemma_switches(0);
    let s = SccState::cleared(steps);
    law_channel_plays(s, c);
}

} // verus!
