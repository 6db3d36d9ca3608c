//! What the slot registers make the address space read, and which mapper a ROM has.
#[allow(unused_imports)]
use crate::slot::mapper::{detected, store_target, switch_count, CartridgeMapper};
#[allow(unused_imports)]
use crate::slot::storage::{DiskRomState, MappedState, RomState};
#[allow(unused_imports)]
use crate::slot::{first_mapper, SlotState, SlotsState, SubslotState};
use vstd::prelude::*;

verus! {

/// The two bits that a slot register has for a page, the lowest for page 0.
pub open spec fn bits_for(reg: u8, page: int) -> int {
    if page == 0 {
        reg as int % 4
    } else if page == 1 {
        (reg as int / 4) % 4
    } else if page == 2 {
        (reg as int / 16) % 4
    } else {
        reg as int / 64
    }
}

/// Each page of 16 KiB reads from the primary slot that its two bits of the register name,
/// and a write goes there.
pub proof fn law_pages_show_slots(s: SlotsState, page: int, offset: int, value: u8)
    requires
        s.wf(),
        0 <= page < 4,
        0 <= offset < 16384,
    ensures
        ({
            let addr = page * 16384 + offset;
            let i = bits_for(s.reg, page);
            let t = s.written(addr, value);
            &&& s.read(addr) == s.slots[i].read(addr)
            &&& t.slots[i] == s.slots[i].written(addr, value)
            &&& t.reg == s.reg
            &&& forall|k: int| 0 <= k < 4 && k != i ==> #[trigger] t.slots[k] == s.slots[k]
            &&& s.fetched(addr).slots[i] == s.slots[i].fetched(addr)
            &&& s.scc_write(addr, value) == s.slots[i].scc_write(addr, value)
        }),
{
}

/// In an expanded slot each page reads from the subslot that its two bits of the value at
/// the last address name, and a write goes there. That address itself reads as the
/// complement of the value.
pub proof fn law_pages_show_subslots(
    s: SubslotState,
    reg: u8,
    page: int,
    offset: int,
    value: u8,
)
    requires
        s.wf(),
        0 <= page < 4,
        0 <= offset < 16384,
    ensures
        ({
            let t = s.written(0xFFFF, reg);
            let addr = page * 16384 + offset;
            let i = bits_for(reg, page);
            let u = t.written(addr, value);
            &&& t.subs == s.subs
            &&& t.read(0xFFFF) == 255 - reg
            &&& addr != 0xFFFF ==> {
                &&& t.read(addr) == s.subs[i].read(addr)
                &&& u.subs[i] == s.subs[i].written(addr, value)
                &&& u.reg == reg
                &&& forall|k: int| 0 <= k < 4 && k != i ==> #[trigger] u.subs[k] == s.subs[k]
            }
        }),
{
    assert(!reg == 255 - reg) by (bit_vector);
}

/// A bank of the RAM mapper is the low four bits of what was selected for a page: every
/// address of the page reads from it, the other pages read as before, and no byte of
/// RAM changes.
pub proof fn law_ram_banks(s: MappedState, page: int, value: u8, addr: int)
    requires
        s.wf(),
        0 <= page < 4,
        0 <= addr < 65536,
    ensures
        ({
            let t = s.with_bank(page, value);
            &&& t.wf()
            &&& t.ram == s.ram
            &&& t.read(addr) == (if addr / 16384 == page {
                s.ram[(value % 16) * 16384 + addr % 16384]
            } else {
                s.read(addr)
            })
            &&& t.bank_value(page) == 0xF0 + value % 16
        }),
{
}

/// The RAM mapper starts with its first four banks in reverse: the lowest page of the
/// address space has bank 3, the highest bank 0, and all of RAM is 0.
pub proof fn law_ram_starts(addr: int)
    requires
        0 <= addr < 65536,
    ensures
        MappedState::power_on().wf(),
        MappedState::power_on().read(addr) == 0,
        MappedState::power_on().place(addr) == 16384 * (3 - addr / 16384) + addr % 16384,
{
}

/// A ROM reads as its bytes from its base on, and as 0xFF everywhere else.
pub proof fn law_rom_reads(rom: RomState, addr: int)
    requires
        0 <= addr < 65536,
    ensures
        rom.base <= addr < rom.base + rom.rom.len() ==> rom.read(addr) == rom.rom[addr - rom.base],
        addr < rom.base || addr >= rom.base + rom.rom.len() ==> rom.read(addr) == 0xFF,
{
}

/// Writes change RAM at their address alone, and neither a ROM nor an empty slot.
pub proof fn law_plain_writes(s: SlotState, addr: int, value: u8, other: int)
    requires
        s.wf(),
        0 <= addr < 65536,
        0 <= other < 65536,
    ensures
        s is Ram ==> s.written(addr, value).read(other) == (if other == addr {
            value
        } else {
            s.read(other)
        }),
        s is Rom || s is Empty ==> s.written(addr, value) == s,
        s is Empty ==> s.read(other) == 0xFF,
        !(s is Subslotted || s is DiskRom) ==> s.fetched(addr) == s,
{
}

/// The disk interface is its ROM but for the last eight addresses of page 1: those are the
/// registers of the controller, in order.
pub proof fn law_disk_interface(s: DiskRomState, r: int, value: u8, addr: int)
    requires
        0 <= r < 8,
        0 <= addr < 65536,
    ensures
        s.read(0x7FF8 + r) == s.fdc.value(r),
        s.fetched(0x7FF8 + r).fdc == s.fdc.after_read(r),
        s.written(0x7FF8 + r, value).fdc == s.fdc.after_write(r, value),
        !(0x7FF8 <= addr < 0x8000) ==> s.read(addr) == s.rom.read(addr) && s.fetched(addr) == s
            && s.written(addr, value) == s,
        s.written(addr, value).rom == s.rom,
{
}

/// How many of the first `n` places of a ROM hold the instruction that stores A to an
/// address: 0x32 and the address, low byte first.
pub open spec fn stores(rom: Seq<u8>, addr: int, n: int) -> int
    decreases n,
{
    if n <= 0 {
        0
    } else {
        stores(rom, addr, n - 1) + (if rom[n - 1] == 0x32 && rom[n] + 256 * rom[n + 1] == addr {
            1int
        } else {
            0
        })
    }
}

/// Stores of a whole ROM.
pub open spec fn all_stores(rom: Seq<u8>, addr: int) -> int {
    stores(rom, addr, rom.len() - 2)
}

proof fn lemma_counts(rom: Seq<u8>, n: int)
    ensures
        switch_count(rom, CartridgeMapper::KonamiBasic, n) == stores(rom, 0x4000, n) + stores(
            rom,
            0x6000,
            n,
        ) + stores(rom, 0x8000, n) + stores(rom, 0xA000, n),
        switch_count(rom, CartridgeMapper::KonamiSCC, n) == stores(rom, 0x5000, n) + stores(
            rom,
            0x7000,
            n,
        ) + stores(rom, 0x9000, n) + stores(rom, 0xB000, n),
        switch_count(rom, CartridgeMapper::Ascii8, n) == stores(rom, 0x6000, n) + stores(
            rom,
            0x6800,
            n,
        ) + stores(rom, 0x7000, n) + stores(rom, 0x7800, n),
        switch_count(rom, CartridgeMapper::Ascii16, n) == stores(rom, 0x6000, n) + stores(
            rom,
            0x7000,
            n,
        ) + stores(rom, 0x77FF, n),
    decreases n,
{
    if n > 0 {
        lemma_counts(rom, n - 1);
        assert(store_target(rom, n - 1) is Some <==> rom[n - 1] == 0x32);
    }
}

/// A ROM of up to 32 KiB has no mapper. A larger one has that whose bank switches it makes
/// most: stores to 0x4000, 0x6000, 0x8000 and 0xA000 speak for Konami, which has one for
/// free; to 0x5000, 0x7000, 0x9000 and 0xB000 for Konami with the SCC; to 0x6000, 0x6800,
/// 0x7000 and 0x7800, less one, for ASCII8; to 0x6000, 0x7000 and 0x77FF for ASCII16.
/// Of equals the first counts.
pub proof fn law_mapper_by_stores(rom: Seq<u8>)
    ensures
        ({
            let konami = 1 + all_stores(rom, 0x4000) + all_stores(rom, 0x6000) + all_stores(
                rom,
                0x8000,
            ) + all_stores(rom, 0xA000);
            let scc = all_stores(rom, 0x5000) + all_stores(rom, 0x7000) + all_stores(rom, 0x9000)
                + all_stores(rom, 0xB000);
            let ascii8 = all_stores(rom, 0x6000) + all_stores(rom, 0x6800) + all_stores(
                rom,
                0x7000,
            ) + all_stores(rom, 0x7800) - 1;
            let ascii16 = all_stores(rom, 0x6000) + all_stores(rom, 0x7000) + all_stores(
                rom,
                0x77FF,
            );
            let large = rom.len() > 32768;
            &&& !large <==> detected(rom) == CartridgeMapper::Plain
            &&& detected(rom) == CartridgeMapper::KonamiBasic <==> large && konami >= scc && konami
                >= ascii8 && konami >= ascii16
            &&& detected(rom) == CartridgeMapper::KonamiSCC <==> large && scc > konami && scc
                >= ascii8 && scc >= ascii16
            &&& detected(rom) == CartridgeMapper::Ascii8 <==> large && ascii8 > konami && ascii8
                > scc && ascii8 >= ascii16
            &&& detected(rom) == CartridgeMapper::Ascii16 <==> large && ascii16 > konami && ascii16
                > scc && ascii16 > ascii8
        }),
{
    lemma_counts(rom, rom.len() - 2);
}

/// A slot reads and takes writes as what is in it does.
pub proof fn law_slots_are_their_contents(s: SlotState, addr: int, value: u8)
    ensures
        s matches SlotState::KonamiScc(c) ==> s.read(addr) == c.read(addr) && s.written(
            addr,
            value,
        ) == SlotState::KonamiScc(c.written(addr, value)) && s.scc_write(addr, value)
            == c.scc_write(addr, value),
        s matches SlotState::Konami(c) ==> s.read(addr) == c.read(addr) && s.written(addr, value)
            == SlotState::Konami(c.written(addr, value)),
        s matches SlotState::Ascii8(c) ==> s.read(addr) == c.read8(addr) && s.written(addr, value)
            == SlotState::Ascii8(c.written8(addr, value)),
        s matches SlotState::Ascii16(c) ==> s.read(addr) == c.read16(addr) && s.written(addr, value)
            == SlotState::Ascii16(c.written16(addr, value)),
        s matches SlotState::MappedRam(m) ==> s.read(addr) == m.read(addr) && s.written(addr, value)
            == SlotState::MappedRam(m.written(addr, value)),
        s matches SlotState::Rom(r) ==> s.read(addr) == r.read(addr),
        s matches SlotState::DiskRom(d) ==> s.read(addr) == d.read(addr) && s.written(addr, value)
            == SlotState::DiskRom(d.written(addr, value)) && s.fetched(addr) == SlotState::DiskRom(
            d.fetched(addr),
        ),
        s matches SlotState::Subslotted(x) ==> s.read(addr) == x.read(addr) && s.written(
            addr,
            value,
        ) == SlotState::Subslotted(x.written(addr, value)) && s.fetched(addr)
            == SlotState::Subslotted(x.fetched(addr)) && s.scc_write(addr, value) == x.scc_write(
            addr,
            value,
        ),
        !(s is KonamiScc || s is Subslotted) ==> s.scc_write(addr, value) is None,
{
}

/// There is a RAM mapper at a place: a primary slot, or a subslot of one.
pub open spec fn mapper_at(s: SlotsState, i: int, j: Option<int>) -> bool {
    &&& 0 <= i < 4
    &&& match j {
        None => s.slots[i] is MappedRam,
        Some(j) => s.slots[i] is Subslotted && 0 <= j < s.slots[i]->Subslotted_0.subs.len()
            && s.slots[i]->Subslotted_0.subs[j] is MappedRam,
    }
}

proof fn lemma_first_sub(subs: Seq<SlotState>, from: int)
    requires
        0 <= from <= subs.len(),
    ensures
        match first_mapper(subs, from) {
            Some(j) => from <= j < subs.len() && subs[j] is MappedRam && forall|k: int|
                from <= k < j ==> !(#[trigger] subs[k] is MappedRam),
            None => forall|k: int| from <= k < subs.len() ==> !(#[trigger] subs[k] is MappedRam),
        },
    decreases subs.len() - from,
{
    if from < subs.len() {
        lemma_first_sub(subs, from + 1);
    }
}

/// The RAM mapper that the ports reach is the first: no slot before its own has one, nor a
/// subslot before its own.
pub proof fn law_first_mapper_counts(s: SlotsState, from: int, i: int, j: Option<int>)
    requires
        s.wf(),
        0 <= from <= 4,
        from <= i,
        mapper_at(s, i, j),
    ensures
        s.mapper_place(from) matches Some((k, m)) && {
            &&& mapper_at(s, k, m)
            &&& from <= k <= i
            &&& k == i && j is Some ==> m is Some && m->Some_0 <= j->Some_0
        },
    decreases 4 - from,
{
    if let SlotState::Subslotted(x) = s.slots[from] {
        lemma_first_sub(x.subs, 0);
    }
    if from < i {
        law_first_mapper_counts(s, from + 1, i, j);
    }
}

} // verus!
