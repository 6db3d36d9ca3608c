//! The whole machine: bus, keyboard, sound and cartridges.
use msx_rs::archive::{pick_entry, unzip_rom, ZipEntry};
use msx_rs::bus::{Bus, CbiosRoms, Io, MachineRoms, Memory};
use msx_rs::ppi::Ppi;
use msx_rs::scc::{Scc, SccWrite};
use msx_rs::slot::CartridgeMapper;
use msx_rs::sound::{play, SoundWrite};
use msx_rs::vdp::Vdp;
use msx_rs::ym2413::Ym2413;
use std::io::{Cursor, Write};

fn roms() -> CbiosRoms {
    CbiosRoms {
        main: vec![0x01; 0x8000],
        sub: vec![0x02; 0x4000],
        basic: vec![0x03; 0x4000],
        music: vec![0x04; 0x4000],
    }
}

fn machine(cartridge: Option<Vec<u8>>) -> Bus {
    Bus::new(Vdp::new(), roms(), cartridge, MachineRoms::CBios, None)
}

/// Slots and subslots for all four pages.
fn select(bus: &mut Bus, slot: u8, sub: u8) {
    bus.out8(0xA8, 0xFF);
    bus.write8(0xFFFF, sub * 0x55);
    bus.out8(0xA8, slot * 0x55);
}

#[test]
fn slots_of_the_free_bios() {
    let mut bus = machine(None);
    assert_eq!(bus.read8(0x0000), 0x01);
    assert_eq!(bus.read8(0x8000), 0xFF);
    select(&mut bus, 1, 0);
    assert_eq!(bus.read8(0x4000), 0xFF);
    select(&mut bus, 2, 0);
    assert_eq!(bus.read8(0x4000), 0x03);
    assert_eq!(bus.read8(0x0000), 0xFF);
    select(&mut bus, 3, 1);
    assert_eq!(bus.read8(0x0000), 0x02);
    select(&mut bus, 3, 2);
    assert_eq!(bus.read8(0x4000), 0x04);
    select(&mut bus, 3, 3);
    bus.write8(0xC000, 0x99);
    assert_eq!(bus.read8(0xC000), 0x99);
    assert_eq!(bus.slot_register(), 0xFF);
    assert_eq!(bus.in8(0xA8), 0xFF);
}

#[test]
fn slots_of_the_philips() {
    let roms_8245 = MachineRoms::Nms8245 {
        main: vec![0x10; 0x8000],
        ext: vec![0x20; 0x4000],
        disk: Some(vec![0x30; 0x4000]),
        disk_image: None,
        fmpac: None,
    };
    let mut bus = Bus::new(Vdp::new(), roms(), None, roms_8245, None);
    assert_eq!(bus.read8(0), 0x10);
    select(&mut bus, 2, 0);
    assert_eq!(bus.read8(0x4000), 0x04);
    select(&mut bus, 3, 0);
    assert_eq!(bus.read8(0), 0x20);
    select(&mut bus, 3, 3);
    assert_eq!(bus.read8(0x4000), 0x30);
    select(&mut bus, 3, 2);
    bus.write8(0x8000, 0x44);
    assert_eq!(bus.fetch8(0x8000), 0x44);
}

#[test]
fn memory_mapper_ports() {
    let mut bus = machine(None);
    select(&mut bus, 3, 3);
    bus.out8(0xFE, 7);
    bus.write8(0x8000, 0x5A);
    bus.out8(0xFE, 6);
    assert_eq!(bus.read8(0x8000), 0);
    bus.out8(0xFE, 7);
    assert_eq!(bus.read8(0x8000), 0x5A);
    assert_eq!(bus.in8(0xFE), 0xF7);
    assert_eq!(bus.in8(0xFC), 0xF3);
}

#[test]
fn keys_pull_their_bits_down() {
    let mut bus = machine(None);
    bus.ppi.set_key(5, 0, true);
    bus.ppi.set_key(5, 7, true);
    bus.out8(0xAA, 0x05);
    assert_eq!(bus.in8(0xA9), 0b0111_1110);
    bus.out8(0xAA, 0x06);
    assert_eq!(bus.in8(0xA9), 0xFF);
    bus.ppi.set_key(5, 0, false);
    bus.out8(0xAA, 0x05);
    assert_eq!(bus.in8(0xA9), 0b0111_1111);
    let mut ppi = Ppi::new();
    ppi.set_key(15, 0, true);
    ppi.write_port_c(15);
    assert_eq!(ppi.read_row(), 0xFF);
}

#[test]
fn sound_writes_are_queued_in_order() {
    let mut bus = machine(None);
    bus.out8(0xA0, 8);
    bus.out8(0xA1, 15);
    bus.out8(0x7C, 0x30);
    bus.out8(0x7D, 0x10);
    let writes = bus.take_sound();
    assert_eq!(
        writes,
        vec![
            SoundWrite::Psg { reg: 8, value: 15 },
            SoundWrite::Fm { port: 0, value: 0x30 },
            SoundWrite::Fm { port: 1, value: 0x10 },
        ]
    );
    assert!(bus.take_sound().is_empty());
}

#[test]
fn clock_chip_is_on_the_bus() {
    let mut bus = machine(None);
    bus.out8(0xB4, 13);
    bus.out8(0xB5, 0x02);
    bus.out8(0xB4, 4);
    bus.out8(0xB5, 0x09);
    assert_eq!(bus.in8(0xB5), 0xF9);
    assert_eq!(bus.in8(0x10), 0xFF);
}

#[test]
fn clock_reads_at_a_given_time() {
    let mut bus = machine(None);
    // 2001-09-09 01:46:40, a Sunday.
    let secs = 1_000_000_000;
    let mut read = |reg: u8| {
        bus.out8(0xB4, reg);
        bus.in8_at(0xB5, secs)
    };
    let registers: Vec<u8> = (0..16).map(|reg| read(reg)).collect();
    assert_eq!(
        registers,
        [
            0xF0, 0xF4, 0xF6, 0xF4, 0xF1, 0xF0, 0xF0, 0xF9, 0xF0, 0xF9, 0xF0, 0xF1, 0xF2, 0xF0,
            0xFF, 0xFF
        ]
    );
    assert_eq!(bus.in8_at(0xA8, secs), bus.in8(0xA8));
    assert_eq!(bus.in8_at(0x10, secs), 0xFF);
}

#[test]
fn ports_read_without_a_clock() {
    let mut bus = machine(None);
    for reg in 0u8..13 {
        bus.out8(0xB4, reg);
        assert_eq!(bus.in8_unset(0xB5), 0xF0);
    }
    bus.out8(0xA8, 0x12);
    assert_eq!(bus.in8_unset(0xA8), 0x12);
    assert_eq!(bus.in8_unset(0x10), 0xFF);
}

#[test]
fn large_plain_cartridge_starts_at_its_page() {
    let mut bus = machine(None);
    bus.forced_mapper = Some(CartridgeMapper::Plain);
    bus.swap_cartridge(Some(vec![7u8; 0x10000]));
    bus.out8(0xA8, 0x55);
    assert_eq!(bus.read8(0x4000), 7);
    assert_eq!(bus.read8(0x0000), 0xFF);
}

#[test]
fn scc_cartridge_writes_are_queued() {
    let mut bus = machine(None);
    bus.forced_mapper = Some(CartridgeMapper::KonamiSCC);
    bus.swap_cartridge(Some(vec![0u8; 0x20000]));
    bus.take_sound();
    bus.out8(0xA8, 0x55);
    bus.write8(0x9000, 0x3F);
    bus.write8(0x988A, 0x0F);
    assert_eq!(bus.take_sound(), vec![SoundWrite::Scc { reg: 0x8A, value: 0x0F }]);
}

#[test]
fn swapping_resets_slots_keys_and_sound() {
    let mut bus = machine(None);
    bus.ppi.set_key(0, 0, true);
    bus.out8(0xA8, 0xA5);
    bus.vdp.load_demo();
    bus.load_cartridge(Some(vec![0x77; 0x4000]));
    assert_eq!(bus.slot_register(), 0);
    assert!(bus.vdp.vram().iter().all(|&b| b == 0));
    bus.out8(0xAA, 0);
    assert_eq!(bus.in8(0xA9), 0xFF);
    let cleared = bus.take_sound();
    assert_eq!(cleared.len(), 14);
    assert_eq!(cleared[7], SoundWrite::Psg { reg: 7, value: 0 });
    bus.out8(0xA8, 0x55);
    assert_eq!(bus.read8(0x4000), 0x77);
    bus.load_cartridge(None);
    bus.out8(0xA8, 0x55);
    assert_eq!(bus.read8(0x4000), 0xFF);
}

/// An SCC whose phase moves by the period itself.
fn scc() -> Scc {
    Scc::new((0..4096u32).map(|p| p << 20).collect())
}

#[test]
fn writes_reach_the_chips() {
    let mut psg = psg::PSG::new(1_789_772.5, 44_100).unwrap();
    let mut fm = Ym2413::new();
    let mut chip = scc();
    let writes = vec![
        SoundWrite::Psg { reg: 0, value: 0x40 },
        SoundWrite::Psg { reg: 7, value: 0x3E },
        SoundWrite::Psg { reg: 8, value: 0x0F },
        SoundWrite::Fm { port: 0, value: 0x30 },
        SoundWrite::Fm { port: 1, value: 0x10 },
        SoundWrite::Fm { port: 0, value: 0x10 },
        SoundWrite::Fm { port: 1, value: 0xAB },
        SoundWrite::Fm { port: 0, value: 0x20 },
        SoundWrite::Fm { port: 1, value: 0x18 },
        SoundWrite::Scc { reg: 0x00, value: 0x7F },
        SoundWrite::Scc { reg: 0x8A, value: 0x0F },
        SoundWrite::Scc { reg: 0x8F, value: 0x01 },
    ];
    play(&writes, &mut psg, &mut fm, &mut chip);
    let mut loud = 0.0f64;
    for _ in 0..2000 {
        let (l, r) = psg.render();
        loud = loud.max(l.abs()).max(r.abs());
    }
    assert!(loud > 0.0);
    let mut fm_peak = 0;
    for _ in 0..2000 {
        fm_peak = fm_peak.max(fm.sample().abs());
    }
    assert!(fm_peak > 0);
    assert_eq!(chip.next_sample(), 127 * 15);
}

#[test]
fn clearing_the_generator_silences_it() {
    let mut psg = psg::PSG::new(1_789_772.5, 44_100).unwrap();
    let mut fm = Ym2413::new();
    let mut chip = scc();
    let mut bus = machine(None);
    for (reg, value) in [(0u8, 0x40u8), (7, 0x3E), (8, 0x0F)] {
        bus.out8(0xA0, reg);
        bus.out8(0xA1, value);
    }
    bus.swap_cartridge(None);
    play(&bus.take_sound(), &mut psg, &mut fm, &mut chip);
    for _ in 0..4000 {
        psg.render();
    }
    let (first, _) = psg.render();
    for _ in 0..4000 {
        let (l, r) = psg.render();
        assert!((l - first).abs() < 1e-3 && (r - first).abs() < 1e-3);
    }
}

#[test]
fn scc_mixes_its_channels() {
    let mut chip = scc();
    for i in 0..32u8 {
        chip.write_reg(i, 0x10);
        chip.write_reg(0x20 + i, 0xF0);
    }
    chip.write_reg(0x8A, 0x0A);
    chip.write_reg(0x8B, 0x05);
    assert_eq!(chip.next_sample(), 0);
    chip.write_reg(0x8F, 0x01);
    assert_eq!(chip.next_sample(), 16 * 10);
    chip.write_reg(0x8F, 0x03);
    assert_eq!(chip.next_sample(), 16 * 10 - 16 * 5);
    chip.reset();
    assert_eq!(chip.next_sample(), 0);
    let w = SccWrite { reg: 1, value: 2 };
    assert_eq!(w.reg + w.value, 3);
}

#[test]
fn scc_period_restarts_the_wave() {
    let mut chip = scc();
    for i in 0..32u8 {
        chip.write_reg(i, i);
    }
    chip.write_reg(0x8A, 0x01);
    chip.write_reg(0x8F, 0x01);
    chip.write_reg(0x80, 0x80);
    chip.write_reg(0x81, 0x00);
    // A period of 128 moves by one byte of the wave per sample.
    assert_eq!((chip.next_sample(), chip.next_sample(), chip.next_sample()), (1, 2, 3));
    chip.write_reg(0x81, 0xF1);
    assert_eq!(chip.next_sample(), 3);
}

fn zip_of(files: &[(&str, &[u8])]) -> Vec<u8> {
    let mut w = zip::ZipWriter::new(Cursor::new(Vec::new()));
    for (name, bytes) in files {
        w.start_file(*name, zip::write::SimpleFileOptions::default()).unwrap();
        w.write_all(bytes).unwrap();
    }
    w.finish().unwrap().into_inner()
}

#[test]
fn archive_gives_its_rom() {
    let rom: Vec<u8> = (0..5000u32).map(|i| (i % 7) as u8).collect();
    let long = vec![0u8; 9000];
    let packed = zip_of(&[("readme.txt", &long), ("GAME.ROM", &rom), ("small.mx2", &[1, 2])]);
    assert_ne!(packed, rom);
    assert_eq!(unzip_rom(packed.clone()), rom);
    let mut bus = machine(Some(packed));
    bus.out8(0xA8, 0x55);
    assert_eq!(bus.read8(0x4000 + 6), 6);
}

#[test]
fn archive_without_rom_names_gives_the_largest() {
    let packed = zip_of(&[("a.txt", &[1, 2]), ("b.txt", &[3, 4, 5]), ("c.txt", &[6, 7, 8])]);
    assert_eq!(unzip_rom(packed), vec![3, 4, 5]);
}

#[test]
fn what_is_no_archive_is_the_rom() {
    assert_eq!(unzip_rom(vec![0x41, 0x42, 0, 0]), vec![0x41, 0x42, 0, 0]);
    let broken = vec![0x50, 0x4B, 0x03, 0x04, 9, 9];
    assert_eq!(unzip_rom(broken.clone()), broken);
    assert_eq!(unzip_rom(Vec::new()), Vec::<u8>::new());
}

fn entry(dir: bool, name: &str, size: u64) -> Option<ZipEntry> {
    Some(ZipEntry { dir, name: name.to_string(), size })
}

#[test]
fn best_entry_of_an_archive() {
    let entries = vec![
        entry(true, "roms/big.rom/", 0),
        entry(false, "manual.pdf", 1_000_000),
        None,
        entry(false, "a.Rom", 10),
        entry(false, "b.BIN", 20),
        entry(false, "c.mx1", 20),
    ];
    assert_eq!(pick_entry(&entries), Some(4));
    assert_eq!(pick_entry(&vec![None, entry(true, "d/", 5)]), None);
}
