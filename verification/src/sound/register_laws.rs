//! What writes do to the registers of the sound generator, and how a queue is played.
#[allow(unused_imports)]
use crate::scc::SccState;
#[allow(unused_imports)]
use crate::sound::{fm_played, psg_played, scc_played, SoundWrite};
#[allow(unused_imports)]
use crate::ym2413::FmState;
use vstd::prelude::*;

verus! {

/// A queue of one more write plays it last, and on its own chip alone.
pub proof fn law_last_write_is_played(
    regs: Seq<u8>,
    fm: FmState,
    scc: SccState,
    writes: Seq<SoundWrite>,
    w: SoundWrite,
)
    ensures
        ({
            let n = writes.len() as int;
            let more = writes.push(w);
            let fm0 = fm_played(fm, writes, n);
            let scc0 = scc_played(scc, writes, n);
            &&& fm_played(fm, more, n + 1) == (if w is Fm {
                fm0.port_written(w->Fm_port, w->Fm_value)
            } else {
                fm0
            })
            &&& scc_played(scc, more, n + 1) == (if w is Scc {
                scc0.written(w->Scc_reg, w->Scc_value)
            } else {
                scc0
            })
            &&& w !is Psg ==> psg_played(regs, more, n + 1) == psg_played(regs, writes, n)
        }),
{
    lemma_prefix(regs, fm, scc, writes, w, writes.len() as int);
}

proof fn lemma_prefix(
    regs: Seq<u8>,
    fm: FmState,
    scc: SccState,
    writes: Seq<SoundWrite>,
    w: SoundWrite,
    n: int,
)
    requires
        n <= writes.len(),
    ensures
        fm_played(fm, writes.push(w), n) == fm_played(fm, writes, n),
        scc_played(scc, writes.push(w), n) == scc_played(scc, writes, n),
        psg_played(regs, writes.push(w), n) == psg_played(regs, writes, n),
    decreases n,
{
    if n > 0 {
        lemma_prefix(regs, fm, scc, writes, w, n - 1);
    }
}

} // verus!
