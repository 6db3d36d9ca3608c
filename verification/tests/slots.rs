//! Slots, cartridges and mappers.
use msx_rs::bus::Memory;
use msx_rs::slot::{
    detect_mapper, select, Ascii16Cartridge, Ascii8Cartridge, CartridgeMapper,
    KonamiMegaRomCartridge, KonamiMegaRomSccCartridge, MappedRamSlot, RamSlot, RomSlot, Slot,
    Slots, SubslottedSlot,
};

fn numbered_rom(bank_size: usize, banks: usize) -> Box<[u8]> {
    let mut rom = vec![0u8; bank_size * banks];
    for (i, chunk) in rom.chunks_mut(bank_size).enumerate() {
        chunk.fill(i as u8);
    }
    rom.into_boxed_slice()
}

#[test]
fn ascii8_switches_all_four_regions() {
    let mut c = Ascii8Cartridge::new(numbered_rom(0x2000, 8));
    assert_eq!(c.read8(0x4000), 0);
    assert_eq!(c.read8(0xA000), 0);
    c.write8(0x6000, 4);
    c.write8(0x6800, 5);
    c.write8(0x7000, 6);
    c.write8(0x7800, 7);
    assert_eq!(c.read8(0x4000), 4);
    assert_eq!(c.read8(0x6000), 5);
    assert_eq!(c.read8(0x8000), 6);
    assert_eq!(c.read8(0xBFFF), 7);
    // Bank 8 is the SRAM, which keeps what is written.
    c.write8(0x7000, 8);
    c.write8(0x8000, 0xAB);
    assert_eq!(c.read8(0x8000), 0xAB);
    c.write8(0x7000, 6);
    assert_eq!(c.read8(0x8000), 6);
    c.write8(0x7000, 8);
    assert_eq!(c.read8(0x8000), 0xAB);
}

#[test]
fn ascii16_sram_select_and_mirror() {
    let mut c = Ascii16Cartridge::new(numbered_rom(0x4000, 8));
    c.write8(0x7000, 8);
    c.write8(0x8000, 0x5A);
    assert_eq!(c.read8(0x8000), 0x5A);
    assert_eq!(c.read8(0x8800), 0x5A);
    c.write8(0x7000, 2);
    assert_eq!(c.read8(0x8000), 2);
}

#[test]
fn ascii16_switches_both_regions() {
    let mut c = Ascii16Cartridge::new(numbered_rom(0x4000, 8));
    assert_eq!(c.read8(0x4000), 0);
    assert_eq!(c.read8(0x8000), 0);
    c.write8(0x6000, 3);
    c.write8(0x7000, 5);
    assert_eq!(c.read8(0x4000), 3);
    assert_eq!(c.read8(0x7FFF), 3);
    assert_eq!(c.read8(0x8000), 5);
    assert_eq!(c.read8(0xBFFF), 5);
    c.write8(0x77FF, 1);
    assert_eq!(c.read8(0x8000), 1);
    c.write8(0x6800, 7);
    assert_eq!(c.read8(0x4000), 3);
}

fn rom_with_writes(addrs: &[u16]) -> Vec<u8> {
    let mut rom = vec![0u8; 64 * 1024];
    let mut pos = 0usize;
    for addr in addrs.iter().cycle().take(64) {
        rom[pos] = 0x32;
        rom[pos + 1] = (*addr & 0xFF) as u8;
        rom[pos + 2] = (*addr >> 8) as u8;
        pos += 4;
    }
    rom
}

#[test]
fn detect_konami_scc_rom() {
    let rom = rom_with_writes(&[0x5000, 0x7000, 0x9000, 0xB000]);
    assert_eq!(detect_mapper(&rom), CartridgeMapper::KonamiSCC);
}

#[test]
fn detect_konami_basic_rom() {
    let rom = rom_with_writes(&[0x6000, 0x8000, 0xA000]);
    assert_eq!(detect_mapper(&rom), CartridgeMapper::KonamiBasic);
}

#[test]
fn detect_ascii8_rom() {
    let rom = rom_with_writes(&[0x6000, 0x6800, 0x7000, 0x7800]);
    assert_eq!(detect_mapper(&rom), CartridgeMapper::Ascii8);
}

#[test]
fn detect_ascii16_rom() {
    let rom = rom_with_writes(&[0x6000, 0x7000]);
    assert_eq!(detect_mapper(&rom), CartridgeMapper::Ascii16);
}

#[test]
fn detect_small_rom_as_plain() {
    let rom = vec![0u8; 16 * 1024];
    assert_eq!(detect_mapper(&rom), CartridgeMapper::Plain);
}

#[test]
fn mapper_names() {
    assert_eq!(CartridgeMapper::parse("Konami-SCC"), Some(CartridgeMapper::KonamiSCC));
    assert_eq!(CartridgeMapper::parse("scc"), Some(CartridgeMapper::KonamiSCC));
    assert_eq!(CartridgeMapper::parse("KONAMI"), Some(CartridgeMapper::KonamiBasic));
    assert_eq!(CartridgeMapper::parse("plain"), Some(CartridgeMapper::Plain));
    assert_eq!(CartridgeMapper::parse("ascii8"), Some(CartridgeMapper::Ascii8));
    assert_eq!(CartridgeMapper::parse("ascii16"), Some(CartridgeMapper::Ascii16));
    assert_eq!(CartridgeMapper::parse("r-type"), None);
    assert_eq!(
        CartridgeMapper::name_list(),
        "plain, konami, konami-scc, scc, ascii8, ascii16"
    );
}

#[test]
fn rom_reads_past_its_end_as_open_bus() {
    let mut rom = RomSlot::new(vec![0x11u8, 0x22].into_boxed_slice(), 0x4000);
    assert_eq!(rom.read8(0x4000), 0x11);
    assert_eq!(rom.read8(0x4001), 0x22);
    assert_eq!(rom.read8(0x4002), 0xFF);
    assert_eq!(rom.read8(0x3FFF), 0xFF);
    rom.write8(0x4000, 0x99);
    assert_eq!(rom.read8(0x4000), 0x11);
}

#[test]
fn rom_reads_below_its_base_as_open_bus() {
    let rom = RomSlot::new(vec![7u8; 0x10000].into_boxed_slice(), 0x4000);
    assert_eq!(rom.read8(0x4000), 7);
    assert_eq!(rom.read8(0xFFFF), 7);
    assert_eq!(rom.read8(0x3FFF), 0xFF);
    assert_eq!(rom.read8(0x0000), 0xFF);
}

#[test]
fn konami_banks() {
    let mut c = KonamiMegaRomCartridge::new(numbered_rom(0x2000, 16));
    assert_eq!(c.read8(0x4000), 0);
    assert_eq!(c.read8(0x6000), 1);
    assert_eq!(c.read8(0x8000), 2);
    assert_eq!(c.read8(0xA000), 3);
    c.write8(0x6000, 9);
    c.write8(0xA000, 12);
    c.write8(0x4000, 5);
    assert_eq!(c.read8(0x4000), 0);
    assert_eq!(c.read8(0x6000), 9);
    assert_eq!(c.read8(0xA000), 12);
}

#[test]
fn scc_window_reports_writes() {
    let mut c = KonamiMegaRomSccCartridge::new(numbered_rom(0x2000, 16), true);
    assert!(c.write8(0x9880, 0x12).is_none());
    c.write8(0x9000, 0x3F);
    let w = c.write8(0x9880, 0x12).unwrap();
    assert_eq!((w.reg, w.value), (0x80, 0x12));
    c.write8(0x5000, 7);
    assert_eq!(c.read8(0x4000), 7);
}

#[test]
fn ram_reads_back_through_the_slots() {
    let mut slots = Slots::new([
        Slot::Ram(RamSlot::new()),
        Slot::Empty,
        Slot::Ram(RamSlot::new()),
        Slot::Empty,
    ]);
    slots.write8(0x1234, 0xA1);
    slots.set_register(0b10_10_10_10);
    assert_eq!(slots.read8(0x1234), 0);
    slots.write8(0x1234, 0xB2);
    slots.set_register(0);
    assert_eq!(slots.read8(0x1234), 0xA1);
    slots.set_register(0b01_01_01_01);
    slots.write8(0x1234, 0xC3);
    assert_eq!(slots.read8(0x1234), 0xFF);
    slots.set_register(0b10);
    assert_eq!(slots.read8(0x1234), 0xB2);
    assert_eq!(slots.read8(0x8000), 0);
}

#[test]
fn expanded_slot_register_reads_inverted() {
    let mut slot = SubslottedSlot::new(vec![
        Slot::Ram(RamSlot::new()),
        Slot::Ram(RamSlot::new()),
        Slot::Empty,
        Slot::Empty,
    ]);
    slot.write8(0xFFFF, 0b01_00_00_00);
    assert_eq!(slot.read8(0xFFFF), !0b01_00_00_00);
    slot.write8(0xC000, 0x42);
    slot.write8(0xFFFF, 0);
    assert_eq!(slot.read8(0xC000), 0);
    slot.write8(0xFFFF, 0b01_00_00_00);
    assert_eq!(slot.read8(0xC000), 0x42);
}

#[test]
fn mapped_ram_banks() {
    let mut ram = MappedRamSlot::new();
    assert_eq!(ram.get_bank(0), 0xF3);
    assert_eq!(ram.get_bank(3), 0xF0);
    ram.set_bank(2, 5);
    ram.write8(0x8000, 0x77);
    ram.set_bank(2, 4);
    assert_eq!(ram.read8(0x8000), 0);
    ram.set_bank(1, 5);
    assert_eq!(ram.read8(0x4000), 0x77);
    assert_eq!(ram.get_bank(1), 0xF5);
    assert_eq!(ram.get_bank(4), 0xFF);
}

#[test]
fn mapper_is_found_inside_an_expanded_slot() {
    let inner = SubslottedSlot::new(vec![
        Slot::Empty,
        Slot::Empty,
        Slot::Empty,
        Slot::MappedRam(MappedRamSlot::new()),
    ]);
    let mut slots = Slots::new([
        Slot::Empty,
        Slot::Empty,
        Slot::Empty,
        Slot::Subslotted(Box::new(inner)),
    ]);
    slots.mapper_mut().unwrap().set_bank(0, 9);
    assert_eq!(slots.mapper().unwrap().get_bank(0), 0xF9);
    slots.set_slot(3, Slot::Empty);
    assert!(slots.mapper().is_none());
    assert!(slots.mapper_mut().is_none());
}

#[test]
fn small_sram_survives_switching() {
    let mut c = Ascii16Cartridge::new(numbered_rom(0x4000, 8));
    c.write8(0x67FF, 8);
    c.write8(0x4123, 0x5A);
    assert_eq!(c.read8(0x4923), 0x5A);
    assert_eq!(c.read8(0x7923), 0x5A);
    c.write8(0x6000, 3);
    assert_eq!(c.read8(0x4123), 3);
    c.write8(0x6400, 8);
    assert_eq!(c.read8(0x4123), 0x5A);
}

#[test]
fn page_selects_slot() {
    assert_eq!(select(0b11_10_01_00, 0x3FFF), 0);
    assert_eq!(select(0b11_10_01_00, 0x4000), 1);
    assert_eq!(select(0b11_10_01_00, 0xBFFF), 2);
    assert_eq!(select(0b11_10_01_00, 0xFFFF), 3);
}
