//! The video processor.
use msx_rs::bus::Io;
use msx_rs::frame::{Frame, FRAME_TSTATES, PAL_FRAME_TSTATES};
use msx_rs::vdp::{v9938_to_palette_entry, Vdp};

fn set_reg(vdp: &mut Vdp, reg: u8, value: u8) {
    vdp.out8(0x99, value);
    vdp.out8(0x99, 0x80 | reg);
}

fn set_address(vdp: &mut Vdp, addr: u16) {
    vdp.out8(0x99, (addr & 0xFF) as u8);
    vdp.out8(0x99, ((addr >> 8) & 0x3F) as u8 | 0x40);
}

fn poke(vdp: &mut Vdp, addr: u16, bytes: &[u8]) {
    set_address(vdp, addr);
    for &b in bytes {
        vdp.out8(0x98, b);
    }
}

fn status(vdp: &mut Vdp, n: u8) -> u8 {
    set_reg(vdp, 15, n);
    vdp.in8(0x99)
}

#[test]
fn data_port_reads_back() {
    let mut vdp = Vdp::new();
    poke(&mut vdp, 0x1234, &[1, 2, 3]);
    set_address(&mut vdp, 0x1234);
    assert_eq!((vdp.in8(0x98), vdp.in8(0x98), vdp.in8(0x98)), (1, 2, 3));
    assert_eq!(vdp.vram()[0x1235], 2);
    assert_eq!(vdp.in8(0x97), 0xFF);
}

#[test]
fn address_carries_into_the_bank_in_the_later_modes() {
    let mut vdp = Vdp::new();
    poke(&mut vdp, 0x3FFF, &[0xAA, 0xBB]);
    assert_eq!(vdp.vram()[0x3FFF], 0xAA);
    assert_eq!(vdp.vram()[0x0000], 0xBB);
    set_reg(&mut vdp, 0, 0x06);
    poke(&mut vdp, 0x3FFF, &[0xCC, 0xDD]);
    assert_eq!(vdp.vram()[0x4000], 0xDD);
    assert_eq!(vdp.regs()[14], 1);
}

#[test]
fn palette_takes_two_bytes() {
    let mut vdp = Vdp::new();
    set_reg(&mut vdp, 16, 15);
    vdp.out8(0x9A, 0x52);
    vdp.out8(0x9A, 0x03);
    assert_eq!(vdp.palette()[15], v9938_to_palette_entry(5, 3, 2));
    assert_eq!(vdp.regs()[16], 0);
    assert_eq!(vdp.palette()[2], v9938_to_palette_entry(1, 6, 1));
    assert!(!vdp.palette()[0].opaque);
    set_reg(&mut vdp, 7, 0x0F);
    assert_eq!(vdp.backdrop_rgba(), v9938_to_palette_entry(5, 3, 2));
}

#[test]
fn indirect_writes_count_up() {
    let mut vdp = Vdp::new();
    set_reg(&mut vdp, 17, 36);
    vdp.out8(0x9B, 0x11);
    vdp.out8(0x9B, 0x22);
    assert_eq!((vdp.regs()[36], vdp.regs()[37]), (0x11, 0x22));
    set_reg(&mut vdp, 17, 0x80 | 40);
    vdp.out8(0x9B, 0x33);
    vdp.out8(0x9B, 0x44);
    assert_eq!((vdp.regs()[40], vdp.regs()[41]), (0x44, 0));
}

#[test]
fn frame_interrupt_is_acknowledged_by_s0() {
    let mut vdp = Vdp::new();
    vdp.start_vblank();
    assert!(!vdp.is_irq_pending());
    set_reg(&mut vdp, 1, 0x20);
    assert!(vdp.is_irq_pending());
    assert_ne!(status(&mut vdp, 0) & 0x80, 0);
    assert!(!vdp.is_irq_pending());
    assert_ne!(status(&mut vdp, 2) & 0x40, 0);
    vdp.clear_vblank_flag();
    assert_eq!(status(&mut vdp, 2) & 0x40, 0);
}

#[test]
fn line_interrupt_is_acknowledged_by_s1() {
    let mut vdp = Vdp::new();
    set_reg(&mut vdp, 0, 0x10);
    set_reg(&mut vdp, 19, 98);
    assert!(vdp.line_irq_target(100));
    assert!(!vdp.line_irq_target(98));
    set_reg(&mut vdp, 23, 200);
    assert!(vdp.line_irq_target(156));
    vdp.fire_line_irq();
    assert!(vdp.is_irq_pending());
    assert_ne!(status(&mut vdp, 1) & 1, 0);
    assert!(!vdp.is_irq_pending());
    assert_eq!(status(&mut vdp, 1) & 1, 0);
}

#[test]
fn horizontal_blank_follows_the_beam() {
    let mut vdp = Vdp::new();
    vdp.tick(169);
    assert_eq!(status(&mut vdp, 2) & 0x20, 0);
    vdp.tick(1);
    assert_ne!(status(&mut vdp, 2) & 0x20, 0);
    vdp.tick(58);
    assert_eq!(status(&mut vdp, 2) & 0x20, 0);
    vdp.tick(200);
    vdp.reset_scanline_phase();
    assert_eq!(status(&mut vdp, 2) & 0x20, 0);
    assert_eq!(status(&mut vdp, 12), 0xFF);
}

#[test]
fn command_is_busy_for_its_duration() {
    let mut vdp = Vdp::new();
    set_reg(&mut vdp, 0, 0x06);
    set_reg(&mut vdp, 40, 4);
    set_reg(&mut vdp, 42, 1);
    set_reg(&mut vdp, 44, 0x99);
    set_reg(&mut vdp, 46, 0xC0);
    assert_eq!(&vdp.vram()[0..3], &[0x99, 0x99, 0]);
    assert_eq!(status(&mut vdp, 2) & 1, 1);
    vdp.tick(19);
    assert_eq!(status(&mut vdp, 2) & 1, 1);
    vdp.tick(1);
    assert_eq!(status(&mut vdp, 2) & 1, 0);
}

#[test]
fn transfer_runs_through_the_ports() {
    let mut vdp = Vdp::new();
    set_reg(&mut vdp, 0, 0x06);
    set_reg(&mut vdp, 40, 4);
    set_reg(&mut vdp, 42, 1);
    set_reg(&mut vdp, 44, 0x12);
    set_reg(&mut vdp, 46, 0xF0);
    assert_ne!(status(&mut vdp, 2) & 0x80, 0);
    set_reg(&mut vdp, 44, 0x34);
    assert_eq!(&vdp.vram()[0..2], &[0x12, 0x34]);
    assert_eq!(status(&mut vdp, 2) & 0x81, 0);
    set_reg(&mut vdp, 40, 2);
    set_reg(&mut vdp, 42, 1);
    set_reg(&mut vdp, 46, 0xA0);
    assert_eq!(status(&mut vdp, 7), 1);
    assert_eq!(status(&mut vdp, 7), 2);
    assert_eq!(status(&mut vdp, 2) & 0x80, 0);
}

#[test]
fn reserved_registers_stay_zero() {
    let mut vdp = Vdp::new();
    for reg in 0..64u8 {
        if reg != 46 {
            set_reg(&mut vdp, reg, 0x55);
        }
    }
    set_reg(&mut vdp, 17, 0x80 | 50);
    vdp.out8(0x9B, 0x77);
    for reg in 0..64usize {
        let expected = match reg {
            17 => 0x80 | 50,
            24..=31 | 46..=63 => 0,
            _ => 0x55,
        };
        assert_eq!(vdp.regs()[reg], expected, "R{reg}");
    }
}

#[test]
fn register_and_palette_writes_are_foretold() {
    let mut vdp = Vdp::new();
    assert_eq!(vdp.register_write(0x99, 0x87), None);
    vdp.out8(0x99, 0x21);
    assert_eq!(vdp.register_write(0x99, 0x87), Some((7, 0x21)));
    assert_eq!(vdp.register_write(0x99, 0x40), None);
    vdp.out8(0x99, 0x87);
    assert_eq!(vdp.regs()[7], 0x21);
    set_reg(&mut vdp, 17, 9);
    assert_eq!(vdp.register_write(0x9B, 0x80), Some((9, 0x80)));
    set_reg(&mut vdp, 16, 3);
    assert_eq!(vdp.palette_write(0x9A), None);
    vdp.out8(0x9A, 0x70);
    assert_eq!(vdp.palette_write(0x9A), Some(3));
    assert_eq!(vdp.palette_write(0x99), None);
}

#[test]
fn time_does_not_end_a_transfer() {
    let mut vdp = Vdp::new();
    set_reg(&mut vdp, 0, 0x06);
    set_reg(&mut vdp, 40, 4);
    set_reg(&mut vdp, 42, 1);
    set_reg(&mut vdp, 46, 0xC0);
    assert_eq!(status(&mut vdp, 2) & 1, 1);
    set_reg(&mut vdp, 40, 4);
    set_reg(&mut vdp, 42, 1);
    set_reg(&mut vdp, 44, 0x12);
    set_reg(&mut vdp, 46, 0xF0);
    vdp.tick(10_000);
    assert_eq!(status(&mut vdp, 2) & 0x81, 0x81);
    set_reg(&mut vdp, 44, 0x34);
    assert_eq!(status(&mut vdp, 2) & 0x81, 0);
}

fn with_sprites(count: u8, apart: u8) -> Vdp {
    let mut vdp = Vdp::new();
    set_reg(&mut vdp, 1, 0x40);
    set_reg(&mut vdp, 5, 0x36);
    set_reg(&mut vdp, 6, 0x07);
    poke(&mut vdp, 0x3800, &[0xFF; 8]);
    let mut table = Vec::new();
    for i in 0..count {
        table.extend_from_slice(&[9, 20 + i * apart, 0, 15]);
    }
    table.push(0xD0);
    poke(&mut vdp, 0x1B00, &table);
    vdp
}

#[test]
fn overlapping_sprites_collide() {
    let mut vdp = with_sprites(2, 7);
    vdp.start_vblank();
    assert_eq!(status(&mut vdp, 0) & 0x60, 0x20);
    let mut vdp = with_sprites(2, 8);
    vdp.start_vblank();
    assert_eq!(status(&mut vdp, 0) & 0x60, 0);
}

#[test]
fn fifth_sprite_is_reported() {
    let mut vdp = with_sprites(5, 10);
    vdp.start_vblank();
    let s0 = status(&mut vdp, 0);
    assert_eq!(s0 & 0x60, 0x40);
    assert_eq!(s0 & 0x1F, 4);
    let mut vdp = with_sprites(4, 10);
    vdp.start_vblank();
    assert_eq!(status(&mut vdp, 0) & 0x40, 0);
}

#[test]
fn overflow_sticks_until_it_is_read() {
    let mut vdp = with_sprites(6, 10);
    vdp.start_vblank();
    poke(&mut vdp, 0x1B00, &[0xD0]);
    vdp.start_vblank();
    assert_eq!(status(&mut vdp, 0) & 0x5F, 0x44);
    vdp.start_vblank();
    assert_eq!(status(&mut vdp, 0) & 0x40, 0);
}

#[test]
fn multicolour_has_sprites_and_text_has_none() {
    let mut vdp = with_sprites(2, 7);
    set_reg(&mut vdp, 1, 0x48);
    vdp.start_vblank();
    assert_eq!(status(&mut vdp, 0) & 0x20, 0x20);
    set_reg(&mut vdp, 1, 0x50);
    vdp.start_vblank();
    assert_eq!(status(&mut vdp, 0) & 0x20, 0);
}

#[test]
fn ninth_sprite_is_reported_in_the_later_modes() {
    let mut vdp = Vdp::new();
    set_reg(&mut vdp, 0, 0x06);
    set_reg(&mut vdp, 1, 0x40);
    set_reg(&mut vdp, 5, 0x37);
    set_reg(&mut vdp, 6, 0x07);
    poke(&mut vdp, 0x3800, &[0xFF; 8]);
    let mut table = Vec::new();
    for i in 0..9u8 {
        table.extend_from_slice(&[9, i * 12, 0, 0]);
    }
    table.push(216);
    poke(&mut vdp, 0x1A00, &table);
    vdp.start_vblank();
    assert_eq!(status(&mut vdp, 0) & 0x5F, 0x48);
}

#[test]
fn display_is_taken_at_the_vertical_blank() {
    let mut vdp = Vdp::new();
    poke(&mut vdp, 0, &[0x5C]);
    assert_eq!(vdp.display_vram()[0], 0);
    vdp.start_vblank();
    assert_eq!(vdp.display_vram()[0], 0x5C);
    vdp.reset();
    assert_eq!(vdp.vram()[0], 0);
}

#[test]
fn demo_selects_graphics() {
    let mut vdp = Vdp::new();
    vdp.load_demo();
    assert!(vdp.vram().iter().any(|&b| b != 0));
}

/// Run a frame of instructions of a given length. Counts the instructions.
fn run_frame(vdp: &mut Vdp, dt: i32) -> i32 {
    let mut frame = Frame::begin(vdp);
    let mut n = 0;
    while frame.settle(vdp) {
        frame.advance(vdp, dt);
        n += 1;
    }
    assert!(frame.clock() >= frame.length());
    n
}

#[test]
fn frame_length_follows_the_frequency() {
    let mut vdp = Vdp::new();
    assert_eq!(run_frame(&mut vdp, 1), FRAME_TSTATES);
    set_reg(&mut vdp, 9, 0x02);
    assert!(vdp.is_pal());
    assert_eq!(run_frame(&mut vdp, 1), PAL_FRAME_TSTATES);
}

#[test]
fn frame_begins_the_vertical_blank() {
    let mut vdp = Vdp::new();
    set_reg(&mut vdp, 1, 0x20);
    let mut frame = Frame::begin(&mut vdp);
    let mut at = -1;
    while frame.settle(&mut vdp) {
        if at < 0 && vdp.is_irq_pending() {
            at = frame.clock();
        }
        frame.advance(&mut vdp, 4);
    }
    assert_eq!(at, 228 * 212);
}

#[test]
fn frame_fires_the_line_interrupt_once() {
    let mut vdp = Vdp::new();
    set_reg(&mut vdp, 0, 0x10);
    set_reg(&mut vdp, 19, 50);
    let mut frame = Frame::begin(&mut vdp);
    let mut fired = Vec::new();
    while frame.settle(&mut vdp) {
        if vdp.is_irq_pending() {
            fired.push(frame.clock() / 228);
            status(&mut vdp, 1);
        }
        frame.advance(&mut vdp, 19);
    }
    assert_eq!(fired, vec![52]);
}

#[test]
fn polled_line_flag_is_up_for_one_line() {
    let mut vdp = Vdp::new();
    set_reg(&mut vdp, 19, 50);
    set_reg(&mut vdp, 15, 1);
    let mut frame = Frame::begin(&mut vdp);
    let mut lines = Vec::new();
    while frame.settle(&mut vdp) {
        if vdp.status()[1] & 1 != 0 {
            lines.push(frame.clock() / 228);
        }
        frame.advance(&mut vdp, 57);
    }
    assert_eq!(lines, vec![52; 4]);
}
