//! Register writes on their way to the sound chips.
//!
//! The chips belong to whoever renders the sound. The bus only collects the
//! writes, in order, for them to be played.
pub mod register_laws;

use crate::scc::Scc;
use crate::ym2413::Ym2413;
use psg::PSG;
use vstd::prelude::*;

verus! {

#[allow(unused_imports)]
use crate::scc::SccState;
#[allow(unused_imports)]
use crate::ym2413::FmState;

/// `psg::PSG`, the programmable sound generator.
#[verifier::external_type_specification]
#[verifier::external_body]
pub struct ExPsg(psg::PSG);

/// A register write.
#[derive(Copy, Clone, PartialEq, Eq, Structural, Debug)]
pub enum SoundWrite {
    Psg { reg: u8, value: u8 },
    /// A write to a port of the FM generator.
    Fm { port: u32, value: u8 },
    Scc { reg: u8, value: u8 },
}

/// The 14 registers of a sound generator, as its accessors give them: low and
/// high byte of three tone periods, the noise period, the mixer, three
/// amplitudes, low and high byte of the envelope period, and the envelope shape.
pub uninterp spec fn psg_registers(psg: PSG) -> Seq<u8>;

/// A byte of a period: both bytes 0 make the period 1.
pub open spec fn period_bytes(regs: Seq<u8>, lo: int, lsb: u8, msb: u8) -> Seq<u8> {
    regs.update(
        lo,
        if lsb == 0 && msb == 0 {
            1
        } else {
            lsb
        },
    ).update(lo + 1, msb)
}

/// The registers after a write. Unused bits are dropped, no period is 0, and
/// there are no registers past the 14th.
pub open spec fn psg_written(regs: Seq<u8>, reg: u8, value: u8) -> Seq<u8> {
    if reg == 0 || reg == 2 || reg == 4 {
        period_bytes(regs, reg as int, value, regs[reg + 1])
    } else if reg == 1 || reg == 3 || reg == 5 {
        period_bytes(regs, reg - 1, regs[reg - 1], value % 16)
    } else if reg == 6 {
        regs.update(
            6,
            if value % 32 == 0 {
                1
            } else {
                value % 32
            },
        )
    } else if reg == 7 {
        regs.update(7, value % 64)
    } else if reg == 8 || reg == 9 || reg == 10 {
        regs.update(reg as int, value % 32)
    } else if reg == 11 {
        period_bytes(regs, 11, value, regs[12])
    } else if reg == 12 {
        period_bytes(regs, 11, regs[11], value)
    } else if reg == 13 {
        regs.update(13, value % 16)
    } else {
        regs
    }
}

/// `psg::PSG::set_register`. Claimed is what it does to the registers that the
/// accessors of the generator show; what a render gives is left unsaid.
#[verifier::external_body]
fn set_psg_register(psg: &mut PSG, reg: u8, value: u8)
    ensures
        psg_registers(*old(psg)).len() == 14,
        psg_registers(*final(psg)) == psg_written(psg_registers(*old(psg)), reg, value),
{
    psg.set_register(reg, value);
}

/// The registers of the sound generator after the first `n` writes.
pub open spec fn psg_played(regs: Seq<u8>, writes: Seq<SoundWrite>, n: int) -> Seq<u8>
    decreases n,
{
    if n <= 0 {
        regs
    } else {
        let r = psg_played(regs, writes, n - 1);
        match writes[n - 1] {
            SoundWrite::Psg { reg, value } => psg_written(r, reg, value),
            _ => r,
        }
    }
}

/// The FM generator after the first `n` writes.
pub open spec fn fm_played(fm: FmState, writes: Seq<SoundWrite>, n: int) -> FmState
    decreases n,
{
    if n <= 0 {
        fm
    } else {
        let s = fm_played(fm, writes, n - 1);
        match writes[n - 1] {
            SoundWrite::Fm { port, value } => s.port_written(port, value),
            _ => s,
        }
    }
}

/// The SCC after the first `n` writes.
pub open spec fn scc_played(scc: SccState, writes: Seq<SoundWrite>, n: int) -> SccState
    decreases n,
{
    if n <= 0 {
        scc
    } else {
        let s = scc_played(scc, writes, n - 1);
        match writes[n - 1] {
            SoundWrite::Scc { reg, value } => s.written(reg, value),
            _ => s,
        }
    }
}

/// Play writes to the chips, in order.
pub fn play(writes: &Vec<SoundWrite>, psg: &mut PSG, fm: &mut Ym2413, scc: &mut Scc)
    requires
        old(fm).wf(),
        old(scc).wf(),
    ensures
        final(fm).wf(),
        final(scc).wf(),
        psg_registers(*final(psg)) == psg_played(
            psg_registers(*old(psg)),
            writes@,
            writes.len() as int,
        ),
        final(fm)@ == fm_played(old(fm)@, writes@, writes.len() as int),
        final(scc)@ == scc_played(old(scc)@, writes@, writes.len() as int),
{
    let mut i: usize = 0;
    while i < writes.len()
        invariant
            i <= writes.len(),
            fm.wf(),
            scc.wf(),
            psg_registers(*psg) == psg_played(psg_registers(*old(psg)), writes@, i as int),
            fm@ == fm_played(old(fm)@, writes@, i as int),
            scc@ == scc_played(old(scc)@, writes@, i as int),
        decreases writes.len() - i,
    {
        match writes[i] {
            SoundWrite::Psg { reg, value } => set_psg_register(psg, reg, value),
            SoundWrite::Fm { port, value } => fm.write(port, value),
            SoundWrite::Scc { reg, value } => scc.write_reg(reg, value),
        }
        i = i + 1;
    }
}

/// The writes that clear the registers of the sound generator.
pub open spec fn silence_writes() -> Seq<SoundWrite> {
    Seq::new(14, |r: int| SoundWrite::Psg { reg: r as u8, value: 0 })
}

/// Clearing the registers silences the sound generator: no channel has any
/// amplitude, of its own or from the envelope.
pub proof fn law_cleared_psg_is_silent(regs: Seq<u8>)
    requires
        regs.len() == 14,
    ensures
        ({
            let r = psg_played(regs, silence_writes(), 14);
            r.len() == 14 && r[8] == 0 && r[9] == 0 && r[10] == 0
        }),
{
    reveal_with_fuel(psg_played, 15);
}

/// A write keeps the number of registers.
pub proof fn lemma_played_length(regs: Seq<u8>, writes: Seq<SoundWrite>, n: int)
    requires
        regs.len() == 14,
    ensures
        psg_played(regs, writes, n).len() == 14,
    decreases n,
{
    if n > 0 {
        lemma_played_length(regs, writes, n - 1);
    }
}

/// Playing one queue after another is playing them joined.
pub proof fn law_played_in_order(
    regs: Seq<u8>,
    first: Seq<SoundWrite>,
    second: Seq<SoundWrite>,
    n: int,
)
    requires
        0 <= n <= second.len(),
    ensures
        psg_played(regs, first + second, first.len() + n) == psg_played(
            psg_played(regs, first, first.len() as int),
            second,
            n,
        ),
    decreases n,
{
    if n == 0 {
        lemma_played_prefix(regs, first, second, first.len() as int);
    } else {
        law_played_in_order(regs, first, second, n - 1);
    }
}

proof fn lemma_played_prefix(
    regs: Seq<u8>,
    first: Seq<SoundWrite>,
    second: Seq<SoundWrite>,
    n: int,
)
    requires
        n <= first.len(),
    ensures
        psg_played(regs, first + second, n) == psg_played(regs, first, n),
    decreases n,
{
    if n > 0 {
        lemma_played_prefix(regs, first, second, n - 1);
    }
}

} // verus!
