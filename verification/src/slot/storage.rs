//! ROM and RAM in slots.
use crate::bus::Memory;
use crate::fdc::Wd2793;
use crate::scc::SccWrite;
use vstd::prelude::*;

verus! {

#[allow(unused_imports)]
use crate::fdc::FdcState;

/// The byte at an offset; 0xFF past the end.
pub open spec fn byte_or_open(data: Seq<u8>, offset: int) -> u8 {
    if 0 <= offset < data.len() {
        data[offset]
    } else {
        0xFF
    }
}

/// A ROM as values: its bytes, and the address of the first.
#[verifier::ext_equal]
pub struct RomState {
    pub rom: Seq<u8>,
    pub base: u16,
}

impl RomState {
    /// The byte at an address; 0xFF below the base and past the end.
    pub open spec fn read(self, addr: int) -> u8 {
        if addr >= self.base {
            byte_or_open(self.rom, addr - self.base)
        } else {
            0xFF
        }
    }
}

/// Read-only memory. Addresses outside it read as 0xFF.
pub struct RomSlot {
    rom: Box<[u8]>,
    base: u16,
}

impl View for RomSlot {
    type V = RomState;

    closed spec fn view(&self) -> RomState {
        RomState { rom: self.rom@, base: self.base }
    }
}

impl RomSlot {
    pub fn new(rom: Box<[u8]>, base: u16) -> (r: Self)
        ensures
            r@ == (RomState { rom: rom@, base }),
    {
        RomSlot { rom, base }
    }
}

impl Memory for RomSlot {
    open spec fn mem_wf(&self) -> bool {
        true
    }

    open spec fn byte_at(&self, addr: int) -> u8 {
        self@.read(addr)
    }

    fn read8(&self, addr: u16) -> (r: u8) {
        if addr < self.base {
            return 0xFF;
        }
        let offset: usize = (addr - self.base) as usize;
        if offset < self.rom.len() {
            self.rom[offset]
        } else {
            0xFF
        }
    }

    fn fetch8(&mut self, addr: u16) -> (r: u8)
        ensures
            final(self)@ == old(self)@,
    {
        self.read8(addr)
    }

    /// Nothing happens.
    fn write8(&mut self, addr: u16, value: u8) -> (r: Option<SccWrite>)
        ensures
            final(self)@ == old(self)@,
            r is None,
    {
        None
    }
}

/// 64 KiB of RAM.
pub struct RamSlot {
    ram: Vec<u8>,
}

impl View for RamSlot {
    type V = Seq<u8>;

    closed spec fn view(&self) -> Seq<u8> {
        self.ram@
    }
}

impl RamSlot {
    pub fn new() -> (r: Self)
        ensures
            r.mem_wf(),
            r@ == Seq::new(65536, |i: int| 0u8),
    {
        RamSlot { ram: vec![0; 65536] }
    }
}

impl Default for RamSlot {
    fn default() -> (r: Self)
        ensures
            r.mem_wf(),
            r@ == Seq::new(65536, |i: int| 0u8),
    {
        RamSlot::new()
    }
}

impl Memory for RamSlot {
    open spec fn mem_wf(&self) -> bool {
        self@.len() == 65536
    }

    open spec fn byte_at(&self, addr: int) -> u8 {
        self@[addr]
    }

    fn read8(&self, addr: u16) -> (r: u8) {
        self.ram[addr as usize]
    }

    fn fetch8(&mut self, addr: u16) -> (r: u8)
        ensures
            final(self)@ == old(self)@,
    {
        self.read8(addr)
    }

    fn write8(&mut self, addr: u16, value: u8) -> (r: Option<SccWrite>)
        ensures
            final(self)@ == old(self)@.update(addr as int, value),
            r is None,
    {
        self.ram[addr as usize] = value;
        None
    }
}

/// 16 banks of 16 KiB.
pub const MAPPER_RAM_SIZE: usize = 262144;

/// A RAM mapper as values.
#[verifier::ext_equal]
pub struct MappedState {
    pub ram: Seq<u8>,
    /// The bank in each 16 KiB page of the address space.
    pub banks: Seq<u8>,
}

impl MappedState {
    pub open spec fn wf(self) -> bool {
        self.ram.len() == MAPPER_RAM_SIZE && self.banks.len() == 4 && forall|i: int|
            0 <= i < 4 ==> #[trigger] self.banks[i] < 16
    }

    /// Where in RAM an address is.
    pub open spec fn place(self, addr: int) -> int {
        self.banks[addr / 16384] * 16384 + addr % 16384
    }

    pub open spec fn read(self, addr: int) -> u8 {
        self.ram[self.place(addr)]
    }

    pub open spec fn written(self, addr: int, value: u8) -> MappedState {
        MappedState { ram: self.ram.update(self.place(addr), value), ..self }
    }

    /// A bank selected for a page; only four bits are wired.
    pub open spec fn with_bank(self, page: int, value: u8) -> MappedState {
        if page < 4 {
            MappedState { banks: self.banks.update(page, value % 16), ..self }
        } else {
            self
        }
    }

    /// A bank register as it reads back: the missing bits are up.
    pub open spec fn bank_value(self, page: int) -> u8 {
        if page < 4 {
            (0xF0 + self.banks[page]) as u8
        } else {
            0xFF
        }
    }

    /// The mapper at power-on: the first four banks, the last page first.
    pub open spec fn power_on() -> MappedState {
        MappedState {
            ram: Seq::new(MAPPER_RAM_SIZE as nat, |i: int| 0u8),
            banks: seq![3, 2, 1, 0],
        }
    }
}

/// 256 KiB of RAM behind four bank registers.
pub struct MappedRamSlot {
    ram: Vec<u8>,
    banks: [u8; 4],
}

impl View for MappedRamSlot {
    type V = MappedState;

    closed spec fn view(&self) -> MappedState {
        MappedState { ram: self.ram@, banks: self.banks@ }
    }
}

impl MappedRamSlot {
    pub fn new() -> (r: Self)
        ensures
            r.mem_wf(),
            r@ == MappedState::power_on(),
    {
        let r = MappedRamSlot { ram: vec![0; MAPPER_RAM_SIZE], banks: [3, 2, 1, 0] };
        assert(r@ =~= MappedState::power_on());
        r
    }

    /// Select the bank of a page. There are no pages past the fourth.
    pub fn set_bank(&mut self, page: usize, value: u8)
        requires
            old(self).mem_wf(),
        ensures
            final(self).mem_wf(),
            final(self)@ == old(self)@.with_bank(page as int, value),
    {
        if page < 4 {
            self.banks[page] = value % 16;
        }
    }

    /// The bank register of a page.
    pub fn get_bank(&self, page: usize) -> (r: u8)
        requires
            self.mem_wf(),
        ensures
            r == self@.bank_value(page as int),
    {
        if page < 4 {
            assert(self@.banks[page as int] < 16);
            0xF0 + self.banks[page]
        } else {
            0xFF
        }
    }

    fn place_of(&self, addr: u16) -> (r: usize)
        requires
            self.mem_wf(),
        ensures
            r == self@.place(addr as int),
            r < MAPPER_RAM_SIZE,
    {
        let page: usize = addr as usize / 16384;
        assert(self@.banks[page as int] < 16);
        self.banks[page] as usize * 16384 + addr as usize % 16384
    }
}

impl Default for MappedRamSlot {
    fn default() -> (r: Self)
        ensures
            r.mem_wf(),
            r@ == MappedState::power_on(),
    {
        MappedRamSlot::new()
    }
}

impl Memory for MappedRamSlot {
    open spec fn mem_wf(&self) -> bool {
        self@.wf()
    }

    open spec fn byte_at(&self, addr: int) -> u8 {
        self@.read(addr)
    }

    fn read8(&self, addr: u16) -> (r: u8) {
        self.ram[self.place_of(addr)]
    }

    fn fetch8(&mut self, addr: u16) -> (r: u8)
        ensures
            final(self)@ == old(self)@,
    {
        self.read8(addr)
    }

    fn write8(&mut self, addr: u16, value: u8) -> (r: Option<SccWrite>)
        ensures
            final(self)@ == old(self)@.written(addr as int, value),
            r is None,
    {
        let at = self.place_of(addr);
        self.ram[at] = value;
        None
    }
}

/// A disk interface as values.
pub struct DiskRomState {
    pub rom: RomState,
    pub fdc: FdcState,
}

/// The eight addresses of the controller's registers.
pub open spec fn fdc_address(addr: int) -> bool {
    0x7FF8 <= addr <= 0x7FFF
}

impl DiskRomState {
    pub open spec fn read(self, addr: int) -> u8 {
        if fdc_address(addr) {
            self.fdc.value(addr % 8)
        } else {
            self.rom.read(addr)
        }
    }

    pub open spec fn fetched(self, addr: int) -> DiskRomState {
        if fdc_address(addr) {
            DiskRomState { fdc: self.fdc.after_read(addr % 8), ..self }
        } else {
            self
        }
    }

    pub open spec fn written(self, addr: int, value: u8) -> DiskRomState {
        if fdc_address(addr) {
            DiskRomState { fdc: self.fdc.after_write(addr % 8, value), ..self }
        } else {
            self
        }
    }
}

/// The disk ROM at 0x4000, with the floppy controller over its last bytes.
pub struct DiskRomSlot {
    rom: RomSlot,
    fdc: Wd2793,
}

impl View for DiskRomSlot {
    type V = DiskRomState;

    closed spec fn view(&self) -> DiskRomState {
        DiskRomState { rom: self.rom@, fdc: self.fdc@ }
    }
}

impl DiskRomSlot {
    pub fn new(rom: Box<[u8]>, fdc: Wd2793) -> (r: Self)
        requires
            fdc.wf(),
        ensures
            r.mem_wf(),
            r@ == (DiskRomState { rom: RomState { rom: rom@, base: 0x4000 }, fdc: fdc@ }),
    {
        DiskRomSlot { rom: RomSlot::new(rom, 0x4000), fdc }
    }
}

impl Memory for DiskRomSlot {
    open spec fn mem_wf(&self) -> bool {
        self@.fdc.wf()
    }

    open spec fn byte_at(&self, addr: int) -> u8 {
        self@.read(addr)
    }

    fn read8(&self, addr: u16) -> (r: u8) {
        if 0x7FF8 <= addr && addr <= 0x7FFF {
            self.fdc.peek(addr)
        } else {
            self.rom.read8(addr)
        }
    }

    fn fetch8(&mut self, addr: u16) -> (r: u8)
        ensures
            final(self)@ == old(self)@.fetched(addr as int),
    {
        if 0x7FF8 <= addr && addr <= 0x7FFF {
            self.fdc.read(addr)
        } else {
            self.rom.read8(addr)
        }
    }

    fn write8(&mut self, addr: u16, value: u8) -> (r: Option<SccWrite>)
        ensures
            final(self)@ == old(self)@.written(addr as int, value),
            r is None,
    {
        if 0x7FF8 <= addr && addr <= 0x7FFF {
            self.fdc.write(addr, value);
        }
        None
    }
}

/// A byte written to mapped RAM reads back at its address, and at every address
/// that the banks map to the same place; the rest of RAM stays.
pub proof fn law_mapped_ram_reads_back(s: MappedState, addr: int, value: u8, other: int)
    requires
        s.wf(),
        0 <= addr < 65536,
        0 <= other < 65536,
    ensures
        s.written(addr, value).read(addr) == value,
        s.written(addr, value).read(other) == (if s.place(other) == s.place(addr) {
            value
        } else {
            s.read(other)
        }),
{
    assert(s.banks[addr / 16384] < 16);
    assert(s.banks[other / 16384] < 16);
}

/// What a page holds survives another bank being selected for it: selecting the
/// first bank again brings it back.
pub proof fn law_banks_keep_contents(s: MappedState, page: int, bank: u8, addr: int)
    requires
        s.wf(),
        0 <= page < 4,
        0 <= addr < 65536,
    ensures
        s.with_bank(page, bank).with_bank(page, s.banks[page]).read(addr) == s.read(addr),
{
    assert(s.banks[page] < 16);
}

} // verus!
