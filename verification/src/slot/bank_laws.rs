//! What a write to a cartridge with bank switching makes its addresses read.
#[allow(unused_imports)]
use crate::scc::SccWrite;
#[allow(unused_imports)]
use crate::slot::cartridge::{AsciiState, KonamiSccState, KonamiState};
use vstd::prelude::*;

verus! {

/// The byte of a ROM at an offset; 0xFF past its end.
pub open spec fn rom_at(rom: Seq<u8>, at: int) -> u8 {
    if at < rom.len() {
        rom[at]
    } else {
        0xFF
    }
}

/// On a Konami SCC cartridge a write from 0x1000 to 0x17FF past the start of one of
/// the four 8 KiB regions from 0x4000 on makes every address of that region read the
/// ROM at the bank in the low six bits of the value, and leaves what all other
/// addresses read.
pub proof fn law_scc_write_selects_bank(
    s: KonamiSccState,
    region: int,
    offset: int,
    value: u8,
    addr: int,
)
    requires
        s.wf(),
        0 <= region < 4,
        0x1000 <= offset < 0x1800,
        0 <= addr < 65536,
    ensures
        ({
            let start = 0x4000 + region * 0x2000;
            let t = s.written(start + offset, value);
            &&& t.wf()
            &&& start <= addr < start + 0x2000 ==> t.read(addr) == rom_at(
                s.banks.rom,
                (value % 64) * 0x2000 + (addr - start),
            )
            &&& !(start <= addr < start + 0x2000) ==> t.read(addr) == s.read(addr)
            &&& s.scc_write(start + offset, value) is None
            &&& t.attached == s.attached
        }),
{
}

/// While the region at 0x8000 shows bank 0x3F, a write from 0x9800 to 0x9FFF goes to
/// the sound chip, as a register number in the low byte of the address and a value,
/// and changes no bank. No other write goes there.
pub proof fn law_scc_window(
    s: KonamiSccState,
    select: (int, u8),
    addr: int,
    value: u8,
    reader: int,
)
    requires
        s.wf(),
        0x9000 <= select.0 < 0x9800,
        0 <= addr < 65536,
        0 <= reader < 65536,
    ensures
        ({
            let t = s.written(select.0, select.1);
            let window = 0x9800 <= addr < 0xA000;
            &&& window ==> t.written(addr, value).read(reader) == t.read(reader)
            &&& t.scc_write(addr, value) == (if window && select.1 % 64 == 63 && s.attached {
                Some(SccWrite { reg: (addr % 256) as u8, value })
            } else {
                None
            })
        }),
{
}

/// On a Konami cartridge a write anywhere in one of the three regions from 0x6000
/// to 0xBFFF makes every address of that region read the ROM at the bank in the low
/// six bits of the value. All other addresses read what they read before, and a
/// write elsewhere changes nothing.
pub proof fn law_konami_write_selects_bank(s: KonamiState, to: int, value: u8, addr: int)
    requires
        s.pages.len() == 8,
        0 <= to < 65536,
        0 <= addr < 65536,
    ensures
        ({
            let t = s.written(to, value);
            let start = to - to % 0x2000;
            &&& t.pages.len() == 8
            &&& 0x6000 <= to < 0xC000 && start <= addr < start + 0x2000 ==> t.read(addr) == rom_at(
                s.rom,
                (value % 64) * 0x2000 + (addr - start),
            )
            &&& !(0x6000 <= to < 0xC000 && start <= addr < start + 0x2000) ==> t.read(addr)
                == s.read(addr)
        }),
{
}

/// A Konami cartridge starts with the beginning of its ROM from 0x4000 to 0xBFFF.
pub proof fn law_konami_starts(rom: Seq<u8>, attached: bool, addr: int)
    requires
        0x4000 <= addr < 0xC000,
    ensures
        KonamiState::power_on(rom).read(addr) == rom_at(rom, addr - 0x4000),
        KonamiSccState::power_on(rom, attached).read(addr) == rom_at(rom, addr - 0x4000),
{
}

/// The low bits of a bank number count the banks, and the next bit up is the RAM's.
proof fn lemma_bank_bits(value: u8, mask: u8, bit: u16)
    by (bit_vector)
    requires
        mask == 0 || mask == 1 || mask == 3 || mask == 7 || mask == 15 || mask == 31 || mask == 63
            || mask == 127 || mask == 255,
        bit == mask + 1,
    ensures
        value & mask == (value as u16) % bit,
        (value as u16 & bit != 0) == ((value as u16 / bit) % 2 == 1),
{
}

/// Banks that a bank number can tell apart: a power of two.
pub open spec fn bank_range(banks: int) -> bool {
    ||| banks == 1
    ||| banks == 2
    ||| banks == 4
    ||| banks == 8
    ||| banks == 16
    ||| banks == 32
    ||| banks == 64
    ||| banks == 128
    ||| banks == 256
}

/// An ASCII cartridge tells apart as many banks as its ROM has, rounded up to a
/// power of two and at most 256. It starts with bank 0 everywhere.
pub proof fn law_ascii_starts(rom: Seq<u8>, addr: int)
    requires
        0x4000 <= addr < 0xC000,
    ensures
        ({
            let s = AsciiState::power_on8(rom);
            let banks = s.mask + 1;
            let n = rom.len() as int / 0x2000;
            &&& bank_range(banks)
            &&& banks >= n || banks == 256
            &&& banks / 2 < n || banks == 1
            &&& s.wf8()
            &&& s.read8(addr) == rom_at(rom, addr % 0x2000)
        }),
        ({
            let s = AsciiState::power_on16(rom);
            let banks = s.mask + 1;
            let n = rom.len() as int / 0x4000;
            &&& bank_range(banks)
            &&& banks >= n || banks == 256
            &&& banks / 2 < n || banks == 1
            &&& s.wf16()
            &&& s.read16(addr) == rom_at(rom, addr % 0x4000)
        }),
{
}

/// On an ASCII 8 KiB cartridge a write to one of the four 2 KiB windows from 0x6000 on
/// decides what the 8 KiB region of the same number from 0x4000 on reads: the
/// battery-backed RAM, where the bit above the bank number is up, and else the ROM
/// at that bank. All other addresses read what they read before.
pub proof fn law_ascii8_write_selects_bank(
    s: AsciiState,
    region: int,
    offset: int,
    value: u8,
    addr: int,
)
    requires
        s.wf8(),
        bank_range(s.mask + 1),
        0 <= region < 4,
        0 <= offset < 0x800,
        0 <= addr < 65536,
    ensures
        ({
            let banks = s.mask + 1;
            let t = s.written8(0x6000 + region * 0x800 + offset, value);
            let start = 0x4000 + region * 0x2000;
            &&& t.wf8()
            &&& t.mask == s.mask
            &&& t.sram == s.sram
            &&& start <= addr < start + 0x2000 ==> t.read8(addr) == (if (value as int / banks) % 2
                == 1 {
                s.sram[addr - start]
            } else {
                rom_at(s.rom, (value as int % banks) * 0x2000 + (addr - start))
            })
            &&& !(start <= addr < start + 0x2000) ==> t.read8(addr) == s.read8(addr)
        }),
{
    lemma_bank_bits(value, s.mask, (s.mask + 1) as u16);
}

/// On an ASCII 16 KiB cartridge a write from 0x6000 to 0x67FF decides what 0x4000-0x7FFF
/// reads, and one from 0x7000 to 0x77FF what 0x8000-0xBFFF reads: the battery-backed
/// RAM over and over, where the bit above the bank number is up, and else the ROM at
/// that bank. All other addresses read what they read before.
pub proof fn law_ascii16_write_selects_bank(
    s: AsciiState,
    region: int,
    offset: int,
    value: u8,
    addr: int,
)
    requires
        s.wf16(),
        bank_range(s.mask + 1),
        0 <= region < 2,
        0 <= offset < 0x800,
        0 <= addr < 65536,
    ensures
        ({
            let banks = s.mask + 1;
            let t = s.written16(0x6000 + region * 0x1000 + offset, value);
            let start = 0x4000 + region * 0x4000;
            &&& t.wf16()
            &&& t.mask == s.mask
            &&& t.sram == s.sram
            &&& start <= addr < start + 0x4000 ==> t.read16(addr) == (if (value as int / banks) % 2
                == 1 {
                s.sram[(addr - start) % 0x800]
            } else {
                rom_at(s.rom, (value as int % banks) * 0x4000 + (addr - start))
            })
            &&& !(start <= addr < start + 0x4000) ==> t.read16(addr) == s.read16(addr)
        }),
{
    lemma_bank_bits(value, s.mask, (s.mask + 1) as u16);
}

/// A write of an ASCII cartridge outside its windows changes no bank. Where the
/// region shows the battery-backed RAM it goes there, and else it changes nothing.
pub proof fn law_ascii_other_writes(s: AsciiState, to: int, value: u8, addr: int)
    requires
        0 <= to < 65536,
        0x4000 <= addr < 0xC000,
    ensures
        s.wf8() && !(0x6000 <= to < 0x8000) ==> ({
            let t = s.written8(to, value);
            let shown = 0x4000 <= to < 0xC000 && s.sram_mapped[to / 0x2000];
            let same = s.sram_mapped[addr / 0x2000] && addr % 0x2000 == to % 0x2000;
            t.read8(addr) == (if shown && same {
                value
            } else {
                s.read8(addr)
            })
        }),
        s.wf16() && !(0x6000 <= to < 0x6800) && !(0x7000 <= to < 0x7800) ==> ({
            let t = s.written16(to, value);
            let shown = 0x4000 <= to < 0xC000 && s.sram_mapped[to / 0x4000 - 1];
            let same = s.sram_mapped[addr / 0x4000 - 1] && addr % 0x800 == to % 0x800;
            t.read16(addr) == (if shown && same {
                value
            } else {
                s.read16(addr)
            })
        }),
        s.wf16() && !(0x4000 <= to < 0xC000) ==> s.read16(to) == 0xFF,
{
}

} // verus!
