//! Cartridges with bank switching.
use crate::bus::Memory;
use crate::scc::SccWrite;
use vstd::prelude::*;

verus! {

#[allow(unused_imports)]
use crate::slot::storage::byte_or_open;

const KONAMI_PAGE_SIZE: usize = 0x2000;

const KONAMI_SCC_BANK: u8 = 0x3F;

/// A Konami cartridge as values: the ROM, and the bank in each of the eight
/// regions of 8 KiB that the address space has.
#[verifier::ext_equal]
pub struct KonamiState {
    pub rom: Seq<u8>,
    pub pages: Seq<u8>,
}

/// The byte of a region's bank.
pub open spec fn bank_byte(rom: Seq<u8>, pages: Seq<u8>, addr: int) -> u8 {
    byte_or_open(rom, pages[addr / 8192] * 8192 + addr % 8192)
}

impl KonamiState {
    /// The first four banks in the regions from 0x4000 to 0xBFFF.
    pub open spec fn power_on(rom: Seq<u8>) -> KonamiState {
        KonamiState { rom, pages: seq![0, 0, 0, 1, 2, 3, 0, 0] }
    }

    pub open spec fn read(self, addr: int) -> u8 {
        bank_byte(self.rom, self.pages, addr)
    }

    pub open spec fn with_page(self, region: int, value: u8) -> KonamiState {
        KonamiState { pages: self.pages.update(region, value % 64), ..self }
    }

    /// A write: any address of a region selects its bank, but the first region
    /// keeps bank 0.
    pub open spec fn written(self, addr: int, value: u8) -> KonamiState {
        if 0x6000 <= addr <= 0x7FFF {
            self.with_page(3, value)
        } else if 0x8000 <= addr <= 0x9FFF {
            self.with_page(4, value)
        } else if 0xA000 <= addr <= 0xBFFF {
            self.with_page(5, value)
        } else {
            self
        }
    }
}

/// A Konami cartridge with the SCC as values: its banks, and whether writes to
/// the chip are handed on.
#[verifier::ext_equal]
pub struct KonamiSccState {
    pub banks: KonamiState,
    pub attached: bool,
}

impl KonamiSccState {
    pub open spec fn power_on(rom: Seq<u8>, attached: bool) -> KonamiSccState {
        KonamiSccState { banks: KonamiState::power_on(rom), attached }
    }

    pub open spec fn wf(self) -> bool {
        self.banks.pages.len() == 8
    }

    pub open spec fn read(self, addr: int) -> u8 {
        self.banks.read(addr)
    }

    pub open spec fn with_page(self, region: int, value: u8) -> KonamiSccState {
        KonamiSccState { banks: self.banks.with_page(region, value), ..self }
    }

    /// The SCC answers at 0x9800-0x9FFF while bank 0x3F is in its region.
    pub open spec fn scc_mapped(self, addr: int) -> bool {
        0x9800 <= addr <= 0x9FFF && self.banks.pages[4] == 0x3F
    }

    /// A write: each region from 0x4000 to 0xBFFF has 2 KiB at its 0x1000 that
    /// select its bank.
    pub open spec fn written(self, addr: int, value: u8) -> KonamiSccState {
        if self.scc_mapped(addr) {
            self
        } else if 0x5000 <= addr <= 0x57FF {
            self.with_page(2, value)
        } else if 0x7000 <= addr <= 0x77FF {
            self.with_page(3, value)
        } else if 0x9000 <= addr <= 0x97FF {
            self.with_page(4, value)
        } else if 0xB000 <= addr <= 0xB7FF {
            self.with_page(5, value)
        } else {
            self
        }
    }

    /// What a write hands on to the chip.
    pub open spec fn scc_write(self, addr: int, value: u8) -> Option<SccWrite> {
        if self.scc_mapped(addr) && self.attached {
            Some(SccWrite { reg: (addr % 256) as u8, value })
        } else {
            None
        }
    }
}

/// The byte of a ROM at a bank and an address in it.
fn rom_byte(rom: &Box<[u8]>, bank: u8, page_size: usize, addr: u16) -> (r: u8)
    requires
        page_size == 0x2000 || page_size == 0x4000,
    ensures
        page_size == 0x2000 ==> r == byte_or_open(rom@, bank * 8192 + addr as int % 8192),
        page_size == 0x4000 ==> r == byte_or_open(rom@, bank * 16384 + addr as int % 16384),
{
    let offset: usize = if page_size == 0x2000 {
        bank as usize * 0x2000 + addr as usize % 0x2000
    } else {
        bank as usize * 0x4000 + addr as usize % 0x4000
    };
    if offset < rom.len() {
        rom[offset]
    } else {
        0xFF
    }
}

/// A Konami cartridge with the SCC sound chip.
pub struct KonamiMegaRomSccCartridge {
    rom: Box<[u8]>,
    selected_pages: [u8; 8],
    /// Whether writes to the chip are handed on.
    attached: bool,
}

impl View for KonamiMegaRomSccCartridge {
    type V = KonamiSccState;

    closed spec fn view(&self) -> KonamiSccState {
        KonamiSccState {
            banks: KonamiState { rom: self.rom@, pages: self.selected_pages@ },
            attached: self.attached,
        }
    }
}

impl KonamiMegaRomSccCartridge {
    pub fn new(rom: Box<[u8]>, attached: bool) -> (r: Self)
        ensures
            r.mem_wf(),
            r@ == KonamiSccState::power_on(rom@, attached),
    {
        let r = KonamiMegaRomSccCartridge {
            rom,
            selected_pages: [0, 0, 0, 1, 2, 3, 0, 0],
            attached,
        };
        assert(r@.banks =~= KonamiState::power_on(rom@));
        r
    }
}

impl Memory for KonamiMegaRomSccCartridge {
    open spec fn mem_wf(&self) -> bool {
        self@.wf()
    }

    open spec fn byte_at(&self, addr: int) -> u8 {
        self@.read(addr)
    }

    fn read8(&self, addr: u16) -> (r: u8) {
        let region: usize = addr as usize / 0x2000;
        rom_byte(&self.rom, self.selected_pages[region], KONAMI_PAGE_SIZE, addr)
    }

    fn fetch8(&mut self, addr: u16) -> (r: u8)
        ensures
            final(self)@ == old(self)@,
    {
        self.read8(addr)
    }

    fn write8(&mut self, addr: u16, value: u8) -> (r: Option<SccWrite>)
        ensures
            final(self)@ == old(self)@.written(addr as int, value),
            r == old(self)@.scc_write(addr as int, value),
    {
        if 0x9800 <= addr && addr <= 0x9FFF && self.selected_pages[4] == KONAMI_SCC_BANK {
            if self.attached {
                return Some(SccWrite { reg: (addr % 256) as u8, value });
            }
            return None;
        }
        match addr {
            0x5000..=0x57FF => {
                self.selected_pages[2] = value % 64;
            },
            0x7000..=0x77FF => {
                self.selected_pages[3] = value % 64;
            },
            0x9000..=0x97FF => {
                self.selected_pages[4] = value % 64;
            },
            0xB000..=0xB7FF => {
                self.selected_pages[5] = value % 64;
            },
            _ => {},
        }
        None
    }
}

/// A Konami cartridge without the SCC.
pub struct KonamiMegaRomCartridge {
    rom: Box<[u8]>,
    selected_pages: [u8; 8],
}

impl View for KonamiMegaRomCartridge {
    type V = KonamiState;

    closed spec fn view(&self) -> KonamiState {
        KonamiState { rom: self.rom@, pages: self.selected_pages@ }
    }
}

impl KonamiMegaRomCartridge {
    pub fn new(rom: Box<[u8]>) -> (r: Self)
        ensures
            r.mem_wf(),
            r@ == KonamiState::power_on(rom@),
    {
        let r = KonamiMegaRomCartridge { rom, selected_pages: [0, 0, 0, 1, 2, 3, 0, 0] };
        assert(r@ =~= KonamiState::power_on(rom@));
        r
    }
}

impl Memory for KonamiMegaRomCartridge {
    open spec fn mem_wf(&self) -> bool {
        self@.pages.len() == 8
    }

    open spec fn byte_at(&self, addr: int) -> u8 {
        self@.read(addr)
    }

    fn read8(&self, addr: u16) -> (r: u8) {
        let region: usize = addr as usize / 0x2000;
        rom_byte(&self.rom, self.selected_pages[region], KONAMI_PAGE_SIZE, addr)
    }

    fn fetch8(&mut self, addr: u16) -> (r: u8)
        ensures
            final(self)@ == old(self)@,
    {
        self.read8(addr)
    }

    fn write8(&mut self, addr: u16, value: u8) -> (r: Option<SccWrite>)
        ensures
            final(self)@ == old(self)@.written(addr as int, value),
            r is None,
    {
        match addr {
            0x6000..=0x7FFF => {
                self.selected_pages[3] = value % 64;
            },
            0x8000..=0x9FFF => {
                self.selected_pages[4] = value % 64;
            },
            0xA000..=0xBFFF => {
                self.selected_pages[5] = value % 64;
            },
            _ => {},
        }
        None
    }
}

/// An ASCII cartridge as values: the ROM, the bank in each region, the regions
/// that show the battery-backed RAM instead, and that RAM.
#[verifier::ext_equal]
pub struct AsciiState {
    pub rom: Seq<u8>,
    pub pages: Seq<u8>,
    pub sram_mapped: Seq<bool>,
    pub sram: Seq<u8>,
    /// Bits of a bank number that the ROM has.
    pub mask: u8,
}

/// The mask over `n` banks: one less than the next power of two, and at most
/// eight bits.
pub open spec fn mask_for(n: int) -> u8 {
    if n <= 1 {
        0
    } else if n <= 2 {
        1
    } else if n <= 4 {
        3
    } else if n <= 8 {
        7
    } else if n <= 16 {
        15
    } else if n <= 32 {
        31
    } else if n <= 64 {
        63
    } else if n <= 128 {
        127
    } else {
        255
    }
}

fn bank_mask_for(n: usize) -> (r: u8)
    ensures
        r == mask_for(n as int),
{
    if n <= 1 {
        0
    } else if n <= 2 {
        1
    } else if n <= 4 {
        3
    } else if n <= 8 {
        7
    } else if n <= 16 {
        15
    } else if n <= 32 {
        31
    } else if n <= 64 {
        63
    } else if n <= 128 {
        127
    } else {
        255
    }
}

impl AsciiState {
    /// A bank selected for a region. The bit above the ROM's banks selects the
    /// RAM.
    pub open spec fn with_bank(self, region: int, value: u8) -> AsciiState {
        AsciiState {
            sram_mapped: self.sram_mapped.update(
                region,
                value as u16 & ((self.mask + 1) as u16) != 0,
            ),
            pages: self.pages.update(region, value & self.mask),
            ..self
        }
    }

    pub open spec fn wf8(self) -> bool {
        self.pages.len() == 8 && self.sram_mapped.len() == 8 && self.sram.len() == 8192
    }

    pub open spec fn power_on8(rom: Seq<u8>) -> AsciiState {
        AsciiState {
            rom,
            pages: Seq::new(8, |i: int| 0u8),
            sram_mapped: Seq::new(8, |i: int| false),
            sram: Seq::new(8192, |i: int| 0u8),
            mask: mask_for(rom.len() as int / 8192),
        }
    }

    pub open spec fn read8(self, addr: int) -> u8 {
        if self.sram_mapped[addr / 8192] {
            self.sram[addr % 8192]
        } else {
            bank_byte(self.rom, self.pages, addr)
        }
    }

    /// A write to an 8 KiB mapper. Four windows of 2 KiB from 0x6000 on select
    /// the banks of the regions from 0x4000 on; elsewhere a write goes to the RAM
    /// where the region shows it.
    pub open spec fn written8(self, addr: int, value: u8) -> AsciiState {
        if 0x6000 <= addr <= 0x7FFF {
            self.with_bank((addr - 0x6000) / 2048 + 2, value)
        } else if 0x4000 <= addr <= 0xBFFF && self.sram_mapped[addr / 8192] {
            AsciiState { sram: self.sram.update(addr % 8192, value), ..self }
        } else {
            self
        }
    }

    pub open spec fn wf16(self) -> bool {
        self.pages.len() == 2 && self.sram_mapped.len() == 2 && self.sram.len() == 2048
    }

    pub open spec fn power_on16(rom: Seq<u8>) -> AsciiState {
        AsciiState {
            rom,
            pages: Seq::new(2, |i: int| 0u8),
            sram_mapped: Seq::new(2, |i: int| false),
            sram: Seq::new(2048, |i: int| 0u8),
            mask: mask_for(rom.len() as int / 16384),
        }
    }

    /// A 16 KiB mapper answers from 0x4000 to 0xBFFF; its RAM repeats every
    /// 2 KiB.
    pub open spec fn read16(self, addr: int) -> u8 {
        let region = (addr - 0x4000) / 16384;
        if !(0x4000 <= addr <= 0xBFFF) {
            0xFF
        } else if self.sram_mapped[region] {
            self.sram[addr % 2048]
        } else {
            byte_or_open(self.rom, self.pages[region] * 16384 + addr % 16384)
        }
    }

    /// A write to a 16 KiB mapper: 0x6000-0x67FF and 0x7000-0x77FF select the
    /// banks of the two regions.
    pub open spec fn written16(self, addr: int, value: u8) -> AsciiState {
        if 0x6000 <= addr <= 0x67FF {
            self.with_bank(0, value)
        } else if 0x7000 <= addr <= 0x77FF {
            self.with_bank(1, value)
        } else if 0x4000 <= addr <= 0xBFFF && self.sram_mapped[(addr - 0x4000) / 16384] {
            AsciiState { sram: self.sram.update(addr % 2048, value), ..self }
        } else {
            self
        }
    }
}

/// A cartridge with the ASCII 8 KiB mapper.
pub struct Ascii8Cartridge {
    rom: Box<[u8]>,
    selected_pages: [u8; 8],
    sram_mapped: [bool; 8],
    sram: Vec<u8>,
    bank_mask: u8,
}

impl View for Ascii8Cartridge {
    type V = AsciiState;

    closed spec fn view(&self) -> AsciiState {
        AsciiState {
            rom: self.rom@,
            pages: self.selected_pages@,
            sram_mapped: self.sram_mapped@,
            sram: self.sram@,
            mask: self.bank_mask,
        }
    }
}

impl Ascii8Cartridge {
    pub fn new(rom: Box<[u8]>) -> (r: Self)
        ensures
            r.mem_wf(),
            r@ == AsciiState::power_on8(rom@),
    {
        let bank_mask = bank_mask_for(rom.len() / 0x2000);
        let r = Ascii8Cartridge {
            rom,
            selected_pages: [0; 8],
            sram_mapped: [false; 8],
            sram: vec![0; 8192],
            bank_mask,
        };
        assert(r@ =~= AsciiState::power_on8(rom@));
        r
    }
}

impl Memory for Ascii8Cartridge {
    open spec fn mem_wf(&self) -> bool {
        self@.wf8()
    }

    open spec fn byte_at(&self, addr: int) -> u8 {
        self@.read8(addr)
    }

    fn read8(&self, addr: u16) -> (r: u8) {
        let region: usize = addr as usize / 0x2000;
        if self.sram_mapped[region] {
            return self.sram[addr as usize % 0x2000];
        }
        rom_byte(&self.rom, self.selected_pages[region], KONAMI_PAGE_SIZE, addr)
    }

    fn fetch8(&mut self, addr: u16) -> (r: u8)
        ensures
            final(self)@ == old(self)@,
    {
        self.read8(addr)
    }

    fn write8(&mut self, addr: u16, value: u8) -> (r: Option<SccWrite>)
        ensures
            final(self)@ == old(self)@.written8(addr as int, value),
            r is None,
    {
        if 0x6000 <= addr && addr <= 0x7FFF {
            let region: usize = (addr as usize - 0x6000) / 2048 + 2;
            let sram_bit: u16 = self.bank_mask as u16 + 1;
            self.sram_mapped[region] = value as u16 & sram_bit != 0;
            self.selected_pages[region] = value & self.bank_mask;
        } else if 0x4000 <= addr && addr <= 0xBFFF {
            let region: usize = addr as usize / 0x2000;
            if self.sram_mapped[region] {
                self.sram[addr as usize % 0x2000] = value;
            }
        }
        None
    }
}

/// A cartridge with the ASCII 16 KiB mapper.
pub struct Ascii16Cartridge {
    rom: Box<[u8]>,
    selected_pages: [u8; 2],
    sram_mapped: [bool; 2],
    sram: Vec<u8>,
    bank_mask: u8,
}

impl View for Ascii16Cartridge {
    type V = AsciiState;

    closed spec fn view(&self) -> AsciiState {
        AsciiState {
            rom: self.rom@,
            pages: self.selected_pages@,
            sram_mapped: self.sram_mapped@,
            sram: self.sram@,
            mask: self.bank_mask,
        }
    }
}

impl Ascii16Cartridge {
    pub fn new(rom: Box<[u8]>) -> (r: Self)
        ensures
            r.mem_wf(),
            r@ == AsciiState::power_on16(rom@),
    {
        let bank_mask = bank_mask_for(rom.len() / 0x4000);
        let r = Ascii16Cartridge {
            rom,
            selected_pages: [0; 2],
            sram_mapped: [false; 2],
            sram: vec![0; 2048],
            bank_mask,
        };
        assert(r@ =~= AsciiState::power_on16(rom@));
        r
    }

    fn select(&mut self, region: usize, value: u8)
        requires
            old(self).mem_wf(),
            region < 2,
        ensures
            final(self).mem_wf(),
            final(self)@ == old(self)@.with_bank(region as int, value),
    {
        let sram_bit: u16 = self.bank_mask as u16 + 1;
        self.sram_mapped[region] = value as u16 & sram_bit != 0;
        self.selected_pages[region] = value & self.bank_mask;
    }
}

impl Memory for Ascii16Cartridge {
    open spec fn mem_wf(&self) -> bool {
        self@.wf16()
    }

    open spec fn byte_at(&self, addr: int) -> u8 {
        self@.read16(addr)
    }

    fn read8(&self, addr: u16) -> (r: u8) {
        if addr < 0x4000 || addr > 0xBFFF {
            return 0xFF;
        }
        let region: usize = (addr as usize - 0x4000) / 0x4000;
        if self.sram_mapped[region] {
            return self.sram[addr as usize % 2048];
        }
        rom_byte(&self.rom, self.selected_pages[region], 0x4000, addr)
    }

    fn fetch8(&mut self, addr: u16) -> (r: u8)
        ensures
            final(self)@ == old(self)@,
    {
        self.read8(addr)
    }

    fn write8(&mut self, addr: u16, value: u8) -> (r: Option<SccWrite>)
        ensures
            final(self)@ == old(self)@.written16(addr as int, value),
            r is None,
    {
        match addr {
            0x6000..=0x67FF => self.select(0, value),
            0x7000..=0x77FF => self.select(1, value),
            0x4000..=0xBFFF => {
                let region: usize = (addr as usize - 0x4000) / 0x4000;
                if self.sram_mapped[region] {
                    self.sram[addr as usize % 2048] = value;
                }
            },
            _ => {},
        }
        None
    }
}

/// A write that selects no bank leaves a Konami cartridge as it was, so that
/// stray writes of a game do no harm.
pub proof fn law_stray_writes_do_nothing(
    s: KonamiState,
    scc: KonamiSccState,
    addr: int,
    value: u8,
)
    requires
        0 <= addr < 65536,
    ensures
        addr < 0x5000 || addr > 0xB7FF || addr % 8192 < 0x1000 || addr % 8192 > 0x17FF
            ==> scc.written(addr, value) == scc,
        addr < 0x6000 || addr > 0xBFFF ==> s.written(addr, value) == s,
{
}

/// What was written to the battery-backed RAM of an 8 KiB mapper reads back, and
/// is still there after the region showed ROM for a while, whichever addresses
/// of its window switched it.
pub proof fn law_sram_survives_switching(
    s: AsciiState,
    addr: int,
    value: u8,
    away: (int, u8),
    back: (int, u8),
)
    requires
        s.wf8(),
        0x4000 <= addr < 0x6000 || 0x8000 <= addr < 0xC000,
        s.sram_mapped[addr / 8192],
        away.0 / 2048 == 12 + (addr / 8192 - 2),
        back.0 / 2048 == 12 + (addr / 8192 - 2),
        back.1 as u16 & ((s.mask + 1) as u16) != 0,
    ensures
        s.written8(addr, value).read8(addr) == value,
        s.written8(addr, value).written8(away.0, away.1).written8(back.0, back.1).read8(addr)
            == value,
{
}

/// What was written to the battery-backed RAM of a 16 KiB mapper reads back at
/// every address of the region that is a multiple of 2 KiB away, and is still
/// there after the region showed ROM for a while, whichever addresses of its
/// window switched it.
pub proof fn law_small_sram_survives_switching(
    s: AsciiState,
    addr: int,
    value: u8,
    mirror: int,
    away: (int, u8),
    back: (int, u8),
)
    requires
        s.wf16(),
        0x4000 <= addr < 0xC000,
        !(0x6000 <= addr < 0x6800) && !(0x7000 <= addr < 0x7800),
        s.sram_mapped[(addr - 0x4000) / 16384],
        0x4000 <= mirror < 0xC000,
        mirror / 16384 == addr / 16384,
        mirror % 2048 == addr % 2048,
        away.0 / 2048 == 12 + 2 * ((addr - 0x4000) / 16384),
        back.0 / 2048 == 12 + 2 * ((addr - 0x4000) / 16384),
        back.1 as u16 & ((s.mask + 1) as u16) != 0,
    ensures
        s.written16(addr, value).read16(mirror) == value,
        s.written16(addr, value).written16(away.0, away.1).written16(back.0, back.1).read16(mirror)
            == value,
{
}

} // verus!
