//! Slots: what the CPU's address space is made of.
//!
//! The 64 KiB are four pages of 16 KiB, and each page shows one of four primary
//! slots. The slot register has two bits for each page, the lowest for page 0.
//! A slot may be expanded into four subslots in the same way; the register for
//! that is at the last address of the slot.
pub mod bank_laws;
pub mod cartridge;
pub mod mapper;
pub mod page_laws;
pub mod storage;

pub use crate::slot::cartridge::{
    Ascii16Cartridge, Ascii8Cartridge, KonamiMegaRomCartridge, KonamiMegaRomSccCartridge,
};
pub use crate::slot::mapper::{detect_mapper, CartridgeMapper};
pub use crate::slot::storage::{DiskRomSlot, MappedRamSlot, RamSlot, RomSlot};

use crate::bus::Memory;
use crate::scc::SccWrite;
use vstd::prelude::*;

verus! {

#[allow(unused_imports)]
use crate::slot::cartridge::{AsciiState, KonamiSccState, KonamiState};
#[allow(unused_imports)]
use crate::slot::storage::{DiskRomState, MappedState, RomState};

/// What two bits of a register select for the page of an address.
pub open spec fn selected(reg: u8, addr: int) -> int {
    let page = addr / 16384;
    if page == 0 {
        (reg % 4) as int
    } else if page == 1 {
        ((reg / 4) % 4) as int
    } else if page == 2 {
        ((reg / 16) % 4) as int
    } else {
        (reg / 64) as int
    }
}

/// The slot that a register selects for the page of an address.
pub fn select(reg: u8, addr: u16) -> (r: usize)
    ensures
        r == selected(reg, addr as int),
        r < 4,
{
    let r: u8 = match addr / 16384 {
        0 => reg % 4,
        1 => (reg / 4) % 4,
        2 => (reg / 16) % 4,
        _ => reg / 64,
    };
    r as usize
}

/// A slot as values.
#[verifier::ext_equal]
pub enum SlotState {
    Empty,
    Rom(RomState),
    Ram(Seq<u8>),
    MappedRam(MappedState),
    Subslotted(SubslotState),
    KonamiScc(KonamiSccState),
    Konami(KonamiState),
    Ascii8(AsciiState),
    Ascii16(AsciiState),
    DiskRom(DiskRomState),
}

/// An expanded slot as values.
#[verifier::ext_equal]
pub struct SubslotState {
    pub reg: u8,
    pub subs: Seq<SlotState>,
}

impl SlotState {
    pub open spec fn wf(self) -> bool
        decreases self,
    {
        match self {
            SlotState::Ram(ram) => ram.len() == 65536,
            SlotState::MappedRam(m) => m.wf(),
            SlotState::Subslotted(s) => s.wf(),
            SlotState::KonamiScc(c) => c.wf(),
            SlotState::Konami(c) => c.pages.len() == 8,
            SlotState::Ascii8(c) => c.wf8(),
            SlotState::Ascii16(c) => c.wf16(),
            SlotState::DiskRom(d) => d.fdc.wf(),
            _ => true,
        }
    }

    /// The byte at an address; an empty slot reads as 0xFF.
    pub open spec fn read(self, addr: int) -> u8
        decreases self,
    {
        match self {
            SlotState::Empty => 0xFF,
            SlotState::Rom(r) => r.read(addr),
            SlotState::Ram(ram) => ram[addr],
            SlotState::MappedRam(m) => m.read(addr),
            SlotState::Subslotted(s) => s.read(addr),
            SlotState::KonamiScc(c) => c.read(addr),
            SlotState::Konami(c) => c.read(addr),
            SlotState::Ascii8(c) => c.read8(addr),
            SlotState::Ascii16(c) => c.read16(addr),
            SlotState::DiskRom(d) => d.read(addr),
        }
    }

    /// The slot after a read, which only a floppy controller notices.
    pub open spec fn fetched(self, addr: int) -> SlotState
        decreases self,
    {
        match self {
            SlotState::Subslotted(s) => SlotState::Subslotted(s.fetched(addr)),
            SlotState::DiskRom(d) => SlotState::DiskRom(d.fetched(addr)),
            _ => self,
        }
    }

    /// The slot after a write.
    pub open spec fn written(self, addr: int, value: u8) -> SlotState
        decreases self,
    {
        match self {
            SlotState::Empty => self,
            SlotState::Rom(_) => self,
            SlotState::Ram(ram) => SlotState::Ram(ram.update(addr, value)),
            SlotState::MappedRam(m) => SlotState::MappedRam(m.written(addr, value)),
            SlotState::Subslotted(s) => SlotState::Subslotted(s.written(addr, value)),
            SlotState::KonamiScc(c) => SlotState::KonamiScc(c.written(addr, value)),
            SlotState::Konami(c) => SlotState::Konami(c.written(addr, value)),
            SlotState::Ascii8(c) => SlotState::Ascii8(c.written8(addr, value)),
            SlotState::Ascii16(c) => SlotState::Ascii16(c.written16(addr, value)),
            SlotState::DiskRom(d) => SlotState::DiskRom(d.written(addr, value)),
        }
    }

    /// What a write hands to the sound chip of a cartridge.
    pub open spec fn scc_write(self, addr: int, value: u8) -> Option<SccWrite>
        decreases self,
    {
        match self {
            SlotState::Subslotted(s) => s.scc_write(addr, value),
            SlotState::KonamiScc(c) => c.scc_write(addr, value),
            _ => None,
        }
    }
}

impl SubslotState {
    pub open spec fn wf(self) -> bool
        decreases self,
    {
        self.subs.len() == 4 && forall|i: int|
            0 <= i < self.subs.len() ==> (#[trigger] self.subs[i]).wf()
    }

    /// The last address reads as the complement of the register, by which
    /// software finds out that the slot is expanded.
    pub open spec fn read(self, addr: int) -> u8
        decreases self,
    {
        let i = selected(self.reg, addr);
        if addr == 0xFFFF {
            !self.reg
        } else if 0 <= i < self.subs.len() {
            self.subs[i].read(addr)
        } else {
            0xFF
        }
    }

    pub open spec fn fetched(self, addr: int) -> SubslotState
        decreases self,
    {
        let i = selected(self.reg, addr);
        if addr != 0xFFFF && 0 <= i < self.subs.len() {
            SubslotState { subs: self.subs.update(i, self.subs[i].fetched(addr)), ..self }
        } else {
            self
        }
    }

    /// A write to the last address sets the register and goes no further.
    pub open spec fn written(self, addr: int, value: u8) -> SubslotState
        decreases self,
    {
        let i = selected(self.reg, addr);
        if addr == 0xFFFF {
            SubslotState { reg: value, ..self }
        } else if 0 <= i < self.subs.len() {
            SubslotState { subs: self.subs.update(i, self.subs[i].written(addr, value)), ..self }
        } else {
            self
        }
    }

    pub open spec fn scc_write(self, addr: int, value: u8) -> Option<SccWrite>
        decreases self,
    {
        let i = selected(self.reg, addr);
        if addr != 0xFFFF && 0 <= i < self.subs.len() {
            self.subs[i].scc_write(addr, value)
        } else {
            None
        }
    }
}

/// What is in a slot.
pub enum Slot {
    Empty,
    Rom(RomSlot),
    Ram(RamSlot),
    MappedRam(MappedRamSlot),
    Subslotted(Box<SubslottedSlot>),
    KonamiMegaRomSccCartridge(KonamiMegaRomSccCartridge),
    KonamiMegaRomCartridge(KonamiMegaRomCartridge),
    Ascii8Cartridge(Ascii8Cartridge),
    Ascii16Cartridge(Ascii16Cartridge),
    DiskRom(DiskRomSlot),
}

/// An expanded slot: four subslots and their register.
pub struct SubslottedSlot {
    pub subslot_register: u8,
    pub subslots: Vec<Slot>,
}

impl Slot {
    pub open spec fn state(&self) -> SlotState
        decreases self,
    {
        match self {
            Slot::Empty => SlotState::Empty,
            Slot::Rom(r) => SlotState::Rom(r@),
            Slot::Ram(r) => SlotState::Ram(r@),
            Slot::MappedRam(r) => SlotState::MappedRam(r@),
            Slot::Subslotted(s) => SlotState::Subslotted(s.state()),
            Slot::KonamiMegaRomSccCartridge(c) => SlotState::KonamiScc(c@),
            Slot::KonamiMegaRomCartridge(c) => SlotState::Konami(c@),
            Slot::Ascii8Cartridge(c) => SlotState::Ascii8(c@),
            Slot::Ascii16Cartridge(c) => SlotState::Ascii16(c@),
            Slot::DiskRom(d) => SlotState::DiskRom(d@),
        }
    }
}

impl SubslottedSlot {
    pub open spec fn state(&self) -> SubslotState
        decreases self,
    {
        SubslotState {
            reg: self.subslot_register,
            subs: Seq::new(
                self.subslots@.len(),
                |i: int|
                    if 0 <= i < self.subslots@.len() {
                        self.subslots@[i].state()
                    } else {
                        SlotState::Empty
                    },
            ),
        }
    }

    /// Four subslots; the first is selected everywhere.
    pub fn new(subslots: Vec<Slot>) -> (r: Self)
        requires
            subslots.len() == 4,
            forall|i: int| 0 <= i < 4 ==> (#[trigger] subslots@[i]).state().wf(),
        ensures
            r.mem_wf(),
            r.state() == (SubslotState {
                reg: 0,
                subs: Seq::new(4, |i: int| subslots@[i].state()),
            }),
    {
        let r = SubslottedSlot { subslot_register: 0, subslots };
        assert(r.state().subs =~= Seq::new(4, |i: int| subslots@[i].state()));
        r
    }
}

impl Memory for Slot {
    open spec fn mem_wf(&self) -> bool {
        self.state().wf()
    }

    open spec fn byte_at(&self, addr: int) -> u8 {
        self.state().read(addr)
    }

    fn read8(&self, addr: u16) -> (r: u8)
        decreases self,
    {
        match self {
            Slot::Empty => 0xFF,
            Slot::Rom(r) => r.read8(addr),
            Slot::Ram(r) => r.read8(addr),
            Slot::MappedRam(r) => r.read8(addr),
            Slot::Subslotted(s) => s.read8(addr),
            Slot::KonamiMegaRomSccCartridge(c) => c.read8(addr),
            Slot::KonamiMegaRomCartridge(c) => c.read8(addr),
            Slot::Ascii8Cartridge(c) => c.read8(addr),
            Slot::Ascii16Cartridge(c) => c.read8(addr),
            Slot::DiskRom(d) => d.read8(addr),
        }
    }

    fn fetch8(&mut self, addr: u16) -> (r: u8)
        ensures
            final(self).state() == old(self).state().fetched(addr as int),
        decreases *old(self),
    {
        match self {
            Slot::Subslotted(s) => s.fetch8(addr),
            Slot::DiskRom(d) => d.fetch8(addr),
            _ => self.read8(addr),
        }
    }

    fn write8(&mut self, addr: u16, value: u8) -> (r: Option<SccWrite>)
        ensures
            final(self).state() == old(self).state().written(addr as int, value),
            r == old(self).state().scc_write(addr as int, value),
        decreases *old(self),
    {
        match self {
            Slot::Empty => None,
            Slot::Rom(_) => None,
            Slot::Ram(r) => r.write8(addr, value),
            Slot::MappedRam(r) => r.write8(addr, value),
            Slot::Subslotted(s) => s.write8(addr, value),
            Slot::KonamiMegaRomSccCartridge(c) => c.write8(addr, value),
            Slot::KonamiMegaRomCartridge(c) => c.write8(addr, value),
            Slot::Ascii8Cartridge(c) => c.write8(addr, value),
            Slot::Ascii16Cartridge(c) => c.write8(addr, value),
            Slot::DiskRom(d) => d.write8(addr, value),
        }
    }
}

impl Memory for SubslottedSlot {
    open spec fn mem_wf(&self) -> bool {
        self.state().wf()
    }

    open spec fn byte_at(&self, addr: int) -> u8 {
        self.state().read(addr)
    }

    fn read8(&self, addr: u16) -> (r: u8)
        decreases self,
    {
        if addr == 0xFFFF {
            !self.subslot_register
        } else {
            let i = select(self.subslot_register, addr);
            assert(self.state().subs[i as int].wf());
            self.subslots[i].read8(addr)
        }
    }

    fn fetch8(&mut self, addr: u16) -> (r: u8)
        ensures
            final(self).state() == old(self).state().fetched(addr as int),
        decreases *old(self),
    {
        if addr == 0xFFFF {
            return !self.subslot_register;
        }
        let ghost s = self.state();
        let i = select(self.subslot_register, addr);
        assert(s.subs[i as int].wf());
        let r = self.subslots[i].fetch8(addr);
        assert(self.state().subs =~= s.subs.update(
            i as int,
            s.subs[i as int].fetched(addr as int),
        ));
        r
    }

    fn write8(&mut self, addr: u16, value: u8) -> (r: Option<SccWrite>)
        ensures
            final(self).state() == old(self).state().written(addr as int, value),
            r == old(self).state().scc_write(addr as int, value),
        decreases *old(self),
    {
        let ghost s = self.state();
        if addr == 0xFFFF {
            self.subslot_register = value;
            assert(self.state().subs =~= s.subs);
            return None;
        }
        let i = select(self.subslot_register, addr);
        assert(s.subs[i as int].wf());
        let r = self.subslots[i].write8(addr, value);
        assert(self.state().subs =~= s.subs.update(
            i as int,
            s.subs[i as int].written(addr as int, value),
        ));
        r
    }
}

/// The primary slots as values.
#[verifier::ext_equal]
pub struct SlotsState {
    pub reg: u8,
    pub slots: Seq<SlotState>,
}

/// The first RAM mapper among subslots, from `i` on.
pub open spec fn first_mapper(subs: Seq<SlotState>, i: int) -> Option<int>
    decreases subs.len() - i,
{
    if i >= subs.len() {
        None
    } else if subs[i] is MappedRam {
        Some(i)
    } else {
        first_mapper(subs, i + 1)
    }
}

impl SlotsState {
    pub open spec fn wf(self) -> bool {
        self.slots.len() == 4 && forall|i: int| 0 <= i < 4 ==> (#[trigger] self.slots[i]).wf()
    }

    pub open spec fn read(self, addr: int) -> u8 {
        self.slots[selected(self.reg, addr)].read(addr)
    }

    pub open spec fn fetched(self, addr: int) -> SlotsState {
        let i = selected(self.reg, addr);
        SlotsState { slots: self.slots.update(i, self.slots[i].fetched(addr)), ..self }
    }

    pub open spec fn written(self, addr: int, value: u8) -> SlotsState {
        let i = selected(self.reg, addr);
        SlotsState { slots: self.slots.update(i, self.slots[i].written(addr, value)), ..self }
    }

    pub open spec fn scc_write(self, addr: int, value: u8) -> Option<SccWrite> {
        self.slots[selected(self.reg, addr)].scc_write(addr, value)
    }

    /// Where the first RAM mapper is, from slot `i` on: its slot, and its subslot
    /// where the slot is expanded.
    pub open spec fn mapper_place(self, i: int) -> Option<(int, Option<int>)>
        decreases 4 - i,
    {
        if i >= 4 {
            None
        } else {
            match self.slots[i] {
                SlotState::MappedRam(_) => Some((i, None)),
                SlotState::Subslotted(s) => match first_mapper(s.subs, 0) {
                    Some(j) => Some((i, Some(j))),
                    None => self.mapper_place(i + 1),
                },
                _ => self.mapper_place(i + 1),
            }
        }
    }

    /// The first RAM mapper.
    pub open spec fn mapper(self) -> Option<MappedState> {
        match self.mapper_place(0) {
            None => None,
            Some((i, None)) => Some(self.slots[i]->MappedRam_0),
            Some((i, Some(j))) => Some(self.slots[i]->Subslotted_0.subs[j]->MappedRam_0),
        }
    }

    /// The slots with the first RAM mapper replaced.
    pub open spec fn with_mapper(self, m: MappedState) -> SlotsState {
        match self.mapper_place(0) {
            None => self,
            Some((i, None)) => SlotsState {
                slots: self.slots.update(i, SlotState::MappedRam(m)),
                ..self
            },
            Some((i, Some(j))) => {
                let s = self.slots[i]->Subslotted_0;
                SlotsState {
                    slots: self.slots.update(
                        i,
                        SlotState::Subslotted(
                            SubslotState {
                                subs: s.subs.update(j, SlotState::MappedRam(m)),
                                ..s
                            },
                        ),
                    ),
                    ..self
                }
            },
        }
    }
}

/// The values of some slots.
pub open spec fn states_of(slots: Seq<Slot>) -> Seq<SlotState> {
    slots.map_values(|s: Slot| s.state())
}

proof fn lemma_states_update(slots: Seq<Slot>, i: int, x: Slot)
    requires
        0 <= i < slots.len(),
    ensures
        states_of(slots.update(i, x)) == states_of(slots).update(i, x.state()),
{
    assert(states_of(slots.update(i, x)) =~= states_of(slots).update(i, x.state()));
}

impl SubslottedSlot {
    /// The RAM mapper in a subslot.
    fn mapper_in(&mut self, j: usize) -> (r: Option<&mut MappedRamSlot>)
        requires
            j < old(self).subslots.len(),
            old(self).subslots@[j as int] is MappedRam,
            old(self).state().wf(),
        ensures
            r matches Some(m) && {
                &&& old(self).state().subs[j as int] == SlotState::MappedRam(m@)
                &&& m.mem_wf()
                &&& final(self).state() == (SubslotState {
                    subs: old(self).state().subs.update(j as int, SlotState::MappedRam(final(m)@)),
                    ..old(self).state()
                })
            },
    {
        proof {
            let before = *self;
            assert(self.state().subs[j as int].wf());
            assert forall|t: SubslottedSlot, m: MappedRamSlot|
                #![trigger t.state(), m.view()]
                t.subslot_register == before.subslot_register && t.subslots@
                    == before.subslots@.update(j as int, Slot::MappedRam(m)) implies t.state() == (
            SubslotState {
                subs: before.state().subs.update(j as int, SlotState::MappedRam(m@)),
                ..before.state()
            }) by {
                assert(t.state().subs =~= before.state().subs.update(
                    j as int,
                    SlotState::MappedRam(m@),
                ));
            }
        }
        match &mut self.subslots[j] {
            Slot::MappedRam(m) => Some(m),
            _ => None,
        }
    }
}

/// The primary slots and their register.
pub struct Slots {
    slot_register: u8,
    slots: [Slot; 4],
}

impl View for Slots {
    type V = SlotsState;

    closed spec fn view(&self) -> SlotsState {
        SlotsState { reg: self.slot_register, slots: states_of(self.slots@) }
    }
}

impl Slots {
    /// Four slots; the first is selected everywhere.
    pub fn new(slots: [Slot; 4]) -> (r: Self)
        requires
            forall|i: int| 0 <= i < 4 ==> (#[trigger] slots@[i]).state().wf(),
        ensures
            r.mem_wf(),
            r@ == (SlotsState { reg: 0, slots: states_of(slots@) }),
    {
        Slots { slot_register: 0, slots }
    }

    /// The slot register.
    pub fn register(&self) -> (r: u8)
        ensures
            r == self@.reg,
    {
        self.slot_register
    }

    /// Set the slot register.
    pub fn set_register(&mut self, value: u8)
        requires
            old(self).mem_wf(),
        ensures
            final(self).mem_wf(),
            final(self)@ == (SlotsState { reg: value, ..old(self)@ }),
    {
        self.slot_register = value;
    }

    /// Replace what is in a slot.
    pub fn set_slot(&mut self, idx: usize, slot: Slot)
        requires
            old(self).mem_wf(),
            idx < 4,
            slot.state().wf(),
        ensures
            final(self).mem_wf(),
            final(self)@ == (SlotsState {
                slots: old(self)@.slots.update(idx as int, slot.state()),
                ..old(self)@
            }),
    {
        let ghost s = self@;
        self.slots[idx] = slot;
        assert(self@.slots =~= s.slots.update(idx as int, slot.state()));
    }

    /// The subslot that has a RAM mapper first.
    fn find_sub(subs: &Vec<Slot>, Ghost(s): Ghost<SubslotState>) -> (r: Option<usize>)
        requires
            s.subs.len() == subs.len(),
            forall|i: int| 0 <= i < subs.len() ==> #[trigger] s.subs[i] == subs@[i].state(),
        ensures
            match r {
                Some(j) => first_mapper(s.subs, 0) == Some(j as int) && j < subs.len()
                    && subs@[j as int] is MappedRam,
                None => first_mapper(s.subs, 0) is None,
            },
    {
        let mut j: usize = 0;
        while j < subs.len()
            invariant
                s.subs.len() == subs.len(),
                forall|i: int| 0 <= i < subs.len() ==> #[trigger] s.subs[i] == subs@[i].state(),
                j <= subs.len(),
                first_mapper(s.subs, 0) == first_mapper(s.subs, j as int),
            decreases subs.len() - j,
        {
            assert(s.subs[j as int] == subs@[j as int].state());
            if let Slot::MappedRam(_) = &subs[j] {
                return Some(j);
            }
            j = j + 1;
        }
        None
    }

    /// Where the first RAM mapper is.
    fn find_mapper(&self) -> (r: Option<(usize, Option<usize>)>)
        requires
            self.mem_wf(),
        ensures
            match r {
                Some((i, None)) => self@.mapper_place(0) == Some((i as int, None::<int>)) && i < 4
                    && self.slots@[i as int] is MappedRam,
                Some((i, Some(j))) => {
                    &&& self@.mapper_place(0) == Some((i as int, Some(j as int)))
                    &&& i < 4
                    &&& self.slots@[i as int] matches Slot::Subslotted(s) && j < s.subslots.len()
                        && s.subslots@[j as int] is MappedRam
                },
                None => self@.mapper_place(0) is None,
            },
    {
        let mut i: usize = 0;
        while i < 4
            invariant
                self.mem_wf(),
                i <= 4,
                self@.mapper_place(0) == self@.mapper_place(i as int),
            decreases 4 - i,
        {
            assert(self@.slots[i as int] == self.slots@[i as int].state());
            match &self.slots[i] {
                Slot::MappedRam(_) => {
                    return Some((i, None));
                },
                Slot::Subslotted(s) => {
                    if let Some(j) = Self::find_sub(&s.subslots, Ghost(s.state())) {
                        return Some((i, Some(j)));
                    }
                },
                _ => {},
            }
            i = i + 1;
        }
        None
    }

    /// The first RAM mapper.
    pub fn mapper(&self) -> (r: Option<&MappedRamSlot>)
        requires
            self.mem_wf(),
        ensures
            match r {
                Some(m) => self@.mapper() == Some(m@) && m.mem_wf(),
                None => self@.mapper() is None,
            },
    {
        match self.find_mapper() {
            None => None,
            Some((i, None)) => {
                assert(self@.slots[i as int].wf());
                match &self.slots[i] {
                    Slot::MappedRam(m) => Some(m),
                    _ => None,
                }
            },
            Some((i, Some(j))) => {
                assert(self@.slots[i as int].wf());
                match &self.slots[i] {
                    Slot::Subslotted(s) => {
                        assert(s.state().subs[j as int].wf());
                        match &s.subslots[j] {
                            Slot::MappedRam(m) => Some(m),
                            _ => None,
                        }
                    },
                    _ => None,
                }
            },
        }
    }
}

impl Slots {
    /// The first RAM mapper, to change it.
    pub fn mapper_mut(&mut self) -> (r: Option<&mut MappedRamSlot>)
        requires
            old(self).mem_wf(),
        ensures
            match r {
                Some(m) => {
                    &&& old(self)@.mapper() == Some(m@)
                    &&& m.mem_wf()
                    &&& final(self)@ == old(self)@.with_mapper(final(m)@)
                },
                None => old(self)@.mapper() is None && final(self)@ == old(self)@,
            },
    {
        match self.find_mapper() {
            None => None,
            Some((i, None)) => {
                proof {
                    assert(self@.slots[i as int].wf());
                    assert forall|x: Slot|
                        #[trigger] states_of(self.slots@.update(i as int, x)) == self@.slots.update(
                            i as int,
                            x.state(),
                        ) by {
                        lemma_states_update(self.slots@, i as int, x);
                    }
                }
                match &mut self.slots[i] {
                    Slot::MappedRam(m) => Some(m),
                    _ => None,
                }
            },
            Some((i, Some(j))) => {
                proof {
                    assert(self@.slots[i as int].wf());
                    assert forall|x: Slot|
                        #[trigger] states_of(self.slots@.update(i as int, x)) == self@.slots.update(
                            i as int,
                            x.state(),
                        ) by {
                        lemma_states_update(self.slots@, i as int, x);
                    }
                }
                match &mut self.slots[i] {
                    Slot::Subslotted(s) => s.mapper_in(j),
                    _ => None,
                }
            },
        }
    }
}

impl Memory for Slots {
    open spec fn mem_wf(&self) -> bool {
        self@.wf()
    }

    open spec fn byte_at(&self, addr: int) -> u8 {
        self@.read(addr)
    }

    fn read8(&self, addr: u16) -> (r: u8) {
        let i = select(self.slot_register, addr);
        assert(self@.slots[i as int].wf());
        self.slots[i].read8(addr)
    }

    fn fetch8(&mut self, addr: u16) -> (r: u8)
        ensures
            final(self)@ == old(self)@.fetched(addr as int),
    {
        let ghost s = self@;
        let i = select(self.slot_register, addr);
        assert(s.slots[i as int].wf());
        let r = self.slots[i].fetch8(addr);
        assert(self@.slots =~= s.slots.update(
            i as int,
            s.slots[i as int].fetched(addr as int),
        ));
        r
    }

    fn write8(&mut self, addr: u16, value: u8) -> (r: Option<SccWrite>)
        ensures
            final(self)@ == old(self)@.written(addr as int, value),
            r == old(self)@.scc_write(addr as int, value),
    {
        let ghost s = self@;
        let i = select(self.slot_register, addr);
        assert(s.slots[i as int].wf());
        let r = self.slots[i].write8(addr, value);
        assert(self@.slots =~= s.slots.update(
            i as int,
            s.slots[i as int].written(addr as int, value),
        ));
        r
    }
}

proof fn lemma_first_mapper(subs: Seq<SlotState>, i: int)
    requires
        0 <= i,
    ensures
        first_mapper(subs, i) matches Some(j) ==> i <= j < subs.len() && subs[j] is MappedRam,
    decreases subs.len() - i,
{
    if i < subs.len() {
        lemma_first_mapper(subs, i + 1);
    }
}

proof fn lemma_mapper_place(s: SlotsState, i: int)
    requires
        s.wf(),
        0 <= i,
    ensures
        match s.mapper_place(i) {
            None => true,
            Some((k, None)) => i <= k < 4 && s.slots[k] is MappedRam,
            Some((k, Some(j))) => i <= k < 4 && s.slots[k] is Subslotted && 0 <= j
                < s.slots[k]->Subslotted_0.subs.len()
                && s.slots[k]->Subslotted_0.subs[j] is MappedRam,
        },
    decreases 4 - i,
{
    if i < 4 {
        if let SlotState::Subslotted(t) = s.slots[i] {
            lemma_first_mapper(t.subs, 0);
        }
        lemma_mapper_place(s, i + 1);
    }
}

/// The RAM mapper of slots in order is in order.
pub proof fn lemma_mapper_wf(s: SlotsState)
    requires
        s.wf(),
        s.mapper() is Some,
    ensures
        s.mapper()->Some_0.wf(),
{
    lemma_mapper_place(s, 0);
    let (k, sub) = s.mapper_place(0)->Some_0;
    assert(s.slots[k].wf());
    if let Some(j) = sub {
        assert(s.slots[k]->Subslotted_0.subs[j].wf());
    }
}

/// Changing the RAM mapper keeps the slots in order, and the mapper is then as
/// it was changed to.
pub proof fn law_with_mapper(s: SlotsState, m: MappedState)
    requires
        s.wf(),
        m.wf(),
        s.mapper() is Some,
    ensures
        s.with_mapper(m).wf(),
        s.with_mapper(m).mapper() == Some(m),
        s.with_mapper(m).reg == s.reg,
{
    lemma_mapper_place(s, 0);
    let t = s.with_mapper(m);
    let (k, sub) = s.mapper_place(0)->Some_0;
    assert(s.slots[k].wf());
    assert forall|i: int| 0 <= i < 4 implies (#[trigger] t.slots[i]).wf() by {
        assert(s.slots[i].wf());
        if i == k {
            if let Some(j) = sub {
                let old_subs = s.slots[k]->Subslotted_0;
                let new_subs = t.slots[k]->Subslotted_0;
                assert forall|n: int| 0 <= n < new_subs.subs.len() implies (
                #[trigger] new_subs.subs[n]).wf() by {
                    assert(old_subs.subs[n].wf());
                }
            }
        }
    }
    lemma_place_kept(s, m, 0);
}

/// The mapper is still the first one after it was changed.
proof fn lemma_place_kept(s: SlotsState, m: MappedState, i: int)
    requires
        s.wf(),
        0 <= i,
        s.mapper_place(0) is Some,
        s.mapper_place(i) == s.mapper_place(0),
    ensures
        s.with_mapper(m).mapper_place(i) == s.mapper_place(0),
    decreases 4 - i,
{
    lemma_mapper_place(s, 0);
    lemma_mapper_place(s, i);
    lemma_mapper_place(s, i + 1);
    let t = s.with_mapper(m);
    let (k, sub) = s.mapper_place(0)->Some_0;
    if i < k {
        assert(t.slots[i] == s.slots[i]);
        lemma_mapper_place(s, i + 1);
        lemma_place_kept(s, m, i + 1);
    } else if let Some(j) = sub {
        let subs = s.slots[k]->Subslotted_0.subs;
        lemma_first_kept(subs, subs.update(j, SlotState::MappedRam(m)), j, 0);
    }
}

proof fn lemma_first_kept(a: Seq<SlotState>, b: Seq<SlotState>, j: int, i: int)
    requires
        first_mapper(a, i) == Some(j),
        a.len() == b.len(),
        0 <= i,
        forall|k: int| 0 <= k < a.len() && k != j ==> #[trigger] b[k] == a[k],
        0 <= j < b.len(),
        b[j] is MappedRam,
    ensures
        first_mapper(b, i) == Some(j),
    decreases a.len() - i,
{
    lemma_first_mapper(a, i);
    if i < j {
        assert(b[i] == a[i]);
        lemma_first_kept(a, b, j, i + 1);
    }
}

/// An expanded slot shows itself: what is written to its last address reads
/// back inverted, and no subslot changes.
pub proof fn law_expanded_slot_inverts(s: SubslotState, value: u8)
    ensures
        s.written(0xFFFF, value).read(0xFFFF) == !value,
        s.written(0xFFFF, value).subs == s.subs,
{
}

/// A write reaches only the slot that the register selects for its page.
pub proof fn law_writes_reach_selected_slot(s: SlotsState, addr: int, value: u8, i: int)
    requires
        s.wf(),
        0 <= addr < 65536,
        0 <= i < 4,
        i != selected(s.reg, addr),
    ensures
        s.written(addr, value).slots[i] == s.slots[i],
        s.written(addr, value).reg == s.reg,
{
}

/// What is written to RAM reads back.
pub proof fn law_ram_reads_back(s: SlotsState, addr: int, value: u8)
    requires
        s.wf(),
        0 <= addr < 65536,
        s.slots[selected(s.reg, addr)] is Ram || s.slots[selected(s.reg, addr)] is MappedRam,
    ensures
        s.written(addr, value).read(addr) == value,
{
    let i = selected(s.reg, addr);
    assert(s.slots[i].wf());
    if let SlotState::MappedRam(m) = s.slots[i] {
        storage::law_mapped_ram_reads_back(m, addr, value, addr);
    }
}

} // verus!
