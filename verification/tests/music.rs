//! The FM chip.
use msx_rs::ym2413::Ym2413;

fn drive(chip: &mut dyn FnMut(u8, u8)) {
    for (r, v) in [
        (0u8, 0x61u8),
        (1, 0x61),
        (2, 0x1E),
        (3, 0x17),
        (4, 0xF0),
        (5, 0x7F),
        (6, 0x00),
        (7, 0x17),
    ] {
        chip(r, v);
    }
    chip(0x30, 0x10);
    chip(0x10, 0xAB);
    chip(0x20, 0x18);
    chip(0x31, 0x03);
    chip(0x11, 0x55);
    chip(0x21, 0x3A);
    chip(0x32, 0x37);
    chip(0x12, 0xCD);
    chip(0x22, 0x12);
    chip(0x16, 0x20);
    chip(0x26, 0x05);
    chip(0x17, 0x50);
    chip(0x27, 0x05);
    chip(0x18, 0xC0);
    chip(0x28, 0x01);
    chip(0x0E, 0x3F);
}

#[test]
fn produces_audio_and_decays() {
    let mut chip = Ym2413::new();
    drive(&mut |r, v| chip.write_reg(r, v));
    let mut peak: i32 = 0;
    for _ in 0..20_000 {
        peak = peak.max(chip.sample().abs());
    }
    assert!(peak > 1000, "expected audible output, peak {}", peak);
    chip.write_reg(0x20, 0x08);
    chip.write_reg(0x21, 0x2A);
    chip.write_reg(0x22, 0x02);
    chip.write_reg(0x0E, 0x20);
    for _ in 0..200_000 {
        chip.sample();
    }
    let mut tail: i32 = 0;
    for _ in 0..2_000 {
        tail = tail.max(chip.sample().abs());
    }
    assert!(tail < 32, "expected near-silence after release, got {}", tail);
}

#[test]
fn output_checksum_is_stable() {
    let mut chip = Ym2413::new();
    drive(&mut |r, v| chip.write_reg(r, v));
    let mut hash: u64 = 0xcbf29ce484222325;
    for _ in 0..50_000 {
        let s = chip.sample() as u64;
        hash ^= s;
        hash = hash.wrapping_mul(0x100000001b3);
    }
    assert_eq!(hash, 0x3a47e445240cc2d7);
}

#[test]
fn silent_until_a_key_is_on() {
    let mut chip = Ym2413::default();
    chip.write_reg(0x30, 0x10);
    chip.write_reg(0x10, 0xAB);
    chip.write_reg(0x20, 0x08);
    for _ in 0..1000 {
        assert_eq!(chip.sample(), 0);
    }
}

#[test]
fn reset_silences() {
    let mut chip = Ym2413::new();
    drive(&mut |r, v| chip.write_reg(r, v));
    for _ in 0..1000 {
        chip.sample();
    }
    chip.reset();
    for _ in 0..100 {
        assert_eq!(chip.sample(), 0);
    }
}

#[test]
fn ports_write_registers() {
    let mut by_port = Ym2413::new();
    let mut by_register = Ym2413::new();
    drive(&mut |r, v| {
        by_port.write(0, r);
        by_port.write(1, v);
    });
    drive(&mut |r, v| by_register.write_reg(r, v));
    for _ in 0..2000 {
        assert_eq!(by_port.sample(), by_register.sample());
    }
}

#[test]
fn channel_registers_mirror() {
    let mut a = Ym2413::new();
    let mut b = Ym2413::new();
    for (r, v) in [(0x30u8, 0x10u8), (0x10, 0xAB), (0x20, 0x18)] {
        a.write_reg(r, v);
        b.write_reg(r + 9, v);
    }
    let mut peak = 0;
    for _ in 0..2000 {
        let s = a.sample();
        assert_eq!(s, b.sample());
        peak = peak.max(s.abs());
    }
    assert!(peak > 0);
}

#[test]
fn no_two_beats_of_the_snare_are_alike() {
    let mut chip = Ym2413::new();
    chip.write_reg(0x0E, 0x20);
    let mut beats: Vec<Vec<i32>> = Vec::new();
    for _ in 0..6 {
        chip.write_reg(0x0E, 0x28);
        beats.push((0..2048).map(|_| chip.sample()).collect());
        chip.write_reg(0x0E, 0x20);
        for _ in 0..63_488 {
            chip.sample();
        }
    }
    for (i, beat) in beats.iter().enumerate() {
        assert!(beat.iter().any(|&s| s != 0));
        assert!(beats[..i].iter().all(|other| other != beat));
    }
}
