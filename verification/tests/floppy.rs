//! The floppy controller.
use msx_rs::bus::Memory;
use msx_rs::fdc::{DiskImage, Wd2793};
use msx_rs::slot::DiskRomSlot;

const SECTOR_SIZE: usize = 512;

fn disk_with_pattern() -> DiskImage {
    let mut data = vec![0u8; 80 * 2 * 9 * SECTOR_SIZE];
    for (i, chunk) in data.chunks_mut(SECTOR_SIZE).enumerate() {
        chunk.fill(i as u8);
    }
    DiskImage::new(data)
}

fn stream(fdc: &mut Wd2793) -> Vec<u8> {
    let mut bytes = Vec::new();
    while fdc.read(0x7FFF) & 0x80 == 0 {
        bytes.push(fdc.read(0x7FFB));
    }
    bytes
}

#[test]
fn read_sector_streams_512_bytes() {
    let mut fdc = Wd2793::new(Some(disk_with_pattern()));
    fdc.write(0x7FF9, 2);
    fdc.write(0x7FFA, 3);
    fdc.write(0x7FFC, 1);
    fdc.write(0x7FF8, 0x80);
    let mut bytes = Vec::new();
    while fdc.read(0x7FFF) & 0x80 == 0 {
        bytes.push(fdc.read(0x7FFB));
    }
    assert_eq!(bytes.len(), SECTOR_SIZE);
    // (track * 2 + side) * 9 + (sector - 1) = (2 * 2 + 1) * 9 + 2 = 47.
    assert!(bytes.iter().all(|&b| b == 47));
    assert_eq!(fdc.read(0x7FFF) & 0x40, 0);
    assert_eq!(fdc.read(0x7FF8) & 0x01, 0);
}

#[test]
fn write_sector_lands_in_image() {
    let mut fdc = Wd2793::new(Some(disk_with_pattern()));
    fdc.write(0x7FF9, 0);
    fdc.write(0x7FFA, 1);
    fdc.write(0x7FFC, 0);
    fdc.write(0x7FF8, 0xA0);
    for _ in 0..SECTOR_SIZE {
        fdc.write(0x7FFB, 0xAA);
    }
    fdc.write(0x7FF8, 0x80);
    let mut bytes = Vec::new();
    while fdc.read(0x7FFF) & 0x80 == 0 {
        bytes.push(fdc.read(0x7FFB));
    }
    assert!(bytes.iter().all(|&b| b == 0xAA));
}

#[test]
fn missing_disk_reports_record_not_found() {
    let mut fdc = Wd2793::new(None);
    fdc.write(0x7FF8, 0x80);
    assert_ne!(fdc.read(0x7FF8) & 0x10, 0);
    assert_ne!(fdc.read(0x7FFF) & 0x80, 0);
}

#[test]
fn restore_homes_to_track_zero() {
    let mut fdc = Wd2793::new(Some(disk_with_pattern()));
    fdc.write(0x7FF9, 40);
    fdc.write(0x7FF8, 0x00);
    assert_eq!(fdc.read(0x7FF9), 0);
    assert_ne!(fdc.read(0x7FF8) & 0x04, 0);
}

#[test]
fn written_sector_reads_back_byte_for_byte() {
    let mut fdc = Wd2793::new(Some(disk_with_pattern()));
    fdc.write(0x7FF9, 5);
    fdc.write(0x7FFA, 9);
    fdc.write(0x7FF8, 0xA0);
    let sector: Vec<u8> = (0..SECTOR_SIZE).map(|i| (i * 7 % 251) as u8).collect();
    for &b in &sector {
        fdc.write(0x7FFB, b);
    }
    fdc.write(0x7FF8, 0x80);
    assert_eq!(stream(&mut fdc), sector);
    // The sector before it is as it was.
    fdc.write(0x7FFA, 8);
    fdc.write(0x7FF8, 0x80);
    assert!(stream(&mut fdc).iter().all(|&b| b == (5 * 2 * 9 + 7) as u8));
}

#[test]
fn sector_past_the_track_is_not_found() {
    let mut fdc = Wd2793::new(Some(disk_with_pattern()));
    fdc.write(0x7FFA, 10);
    fdc.write(0x7FF8, 0x80);
    assert_ne!(fdc.read(0x7FF8) & 0x10, 0);
}

#[test]
fn single_sided_disk() {
    let mut data = vec![0u8; 80 * 9 * SECTOR_SIZE];
    data[9 * SECTOR_SIZE] = 0x77;
    let mut fdc = Wd2793::new(Some(DiskImage::new(data)));
    fdc.write(0x7FF9, 1);
    fdc.write(0x7FFA, 1);
    fdc.write(0x7FF8, 0x80);
    let bytes = stream(&mut fdc);
    assert_eq!(bytes[0], 0x77);
    assert_eq!(bytes[1], 0);
}

#[test]
fn any_other_size_is_double_sided() {
    for len in [10 * SECTOR_SIZE, 80 * 9 * SECTOR_SIZE - 1, 80 * 9 * SECTOR_SIZE + 1] {
        let mut data = vec![0u8; len];
        data[9 * SECTOR_SIZE] = 0x77;
        let mut fdc = Wd2793::new(Some(DiskImage::new(data)));
        fdc.write(0x7FF9, 0);
        fdc.write(0x7FFA, 1);
        fdc.write(0x7FFC, 1);
        fdc.write(0x7FF8, 0x80);
        let bytes = stream(&mut fdc);
        assert_eq!(bytes.len(), SECTOR_SIZE);
        assert_eq!(bytes[0], 0x77);
    }
}

#[test]
fn single_sided_disk_has_no_second_side() {
    let mut fdc = Wd2793::new(Some(DiskImage::new(vec![0u8; 80 * 9 * SECTOR_SIZE])));
    fdc.write(0x7FFC, 1);
    fdc.write(0x7FF8, 0x80);
    assert_ne!(fdc.read(0x7FF8) & 0x10, 0);
    assert_ne!(fdc.read(0x7FFF) & 0x80, 0);
}

#[test]
fn part_of_a_sector_changes_nothing() {
    let mut fdc = Wd2793::new(Some(disk_with_pattern()));
    fdc.write(0x7FFA, 3);
    fdc.write(0x7FF8, 0xB5);
    for _ in 0..SECTOR_SIZE - 1 {
        fdc.write(0x7FFB, 0xAA);
    }
    assert_eq!(fdc.read(0x7FFF), 0x7F);
    fdc.write(0x7FF8, 0x9F);
    assert_eq!(stream(&mut fdc), vec![2; SECTOR_SIZE]);
}

#[test]
fn every_form_of_the_commands_moves_a_sector() {
    let mut fdc = Wd2793::new(Some(disk_with_pattern()));
    for low in 0..32u8 {
        fdc.write(0x7FF8, 0xA0 + low);
        for i in 0..SECTOR_SIZE {
            fdc.write(0x7FFB, (i as u8) ^ low);
        }
        fdc.write(0x7FF8, 0x80 + low);
        let expected: Vec<u8> = (0..SECTOR_SIZE).map(|i| (i as u8) ^ low).collect();
        assert_eq!(stream(&mut fdc), expected);
    }
}

#[test]
fn busy_comes_with_the_data_request() {
    let mut fdc = Wd2793::new(Some(disk_with_pattern()));
    for command in [0x00u8, 0x80, 0xA0, 0xC0, 0xD0, 0xE0, 0xF0] {
        fdc.write(0x7FF8, command);
        for _ in 0..SECTOR_SIZE + 1 {
            let status = fdc.read(0x7FF8);
            if status & 0x01 != 0 {
                assert_eq!(status, 0x03);
                assert_eq!(fdc.read(0x7FFF) & 0x80, 0);
            }
            fdc.read(0x7FFB);
        }
    }
    fdc.write(0x7FF8, 0x80);
    assert_eq!(fdc.read(0x7FF8), 0x03);
}

#[test]
fn disk_rom_has_the_controller_in_its_page() {
    let mut rom = vec![0u8; 0x4000];
    rom[0] = 0x41;
    let mut slot =
        DiskRomSlot::new(rom.into_boxed_slice(), Wd2793::new(Some(disk_with_pattern())));
    assert_eq!(slot.read8(0x4000), 0x41);
    slot.write8(0x7FFA, 3);
    slot.write8(0x7FF8, 0x80);
    assert_eq!(slot.fetch8(0x7FFB), 2);
    assert_eq!(slot.read8(0x7FFA), 3);
}
