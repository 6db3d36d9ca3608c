//! The commands of the video processor, in SCREEN 5.
use msx_rs::vdp::engine::{apply_logic_op, CmdCtx, CpuXfer};
use msx_rs::vdp::VRAM_SIZE;

fn g4() -> CmdCtx {
    let mut regs = [0u8; 64];
    regs[0] = 0x06;
    CmdCtx {
        regs,
        vram: vec![0u8; VRAM_SIZE],
        status: [0u8; 10],
        cpu_xfer: CpuXfer::Idle,
        cpu_xfer_x: 0,
        cpu_xfer_y: 0,
        cmd_busy: 0,
    }
}

fn with_g4(setup: impl FnOnce(&mut CmdCtx)) -> ([u8; 64], Vec<u8>, [u8; 10]) {
    let mut ctx = g4();
    setup(&mut ctx);
    (ctx.regs, ctx.vram, ctx.status)
}

#[test]
fn pixel_layout_classifies_screen5() {
    let ctx = g4();
    let layout = ctx.pixel_layout().expect("G4 must classify");
    assert_eq!(layout.bpp, 4);
    assert_eq!(layout.pitch, 128);
    assert_eq!(layout.width, 256);
}

#[test]
fn hmmv_fills_rectangle() {
    let (_regs, vram, status) = with_g4(|ctx| {
        ctx.regs[40] = 4; ctx.regs[41] = 0;
        ctx.regs[42] = 2; ctx.regs[43] = 0;
        ctx.regs[44] = 0xAB;
        ctx.regs[46] = 0xC0;
        ctx.execute();
    });
    assert_eq!(vram[0], 0xAB);
    assert_eq!(vram[1], 0xAB);
    assert_eq!(vram[128], 0xAB);
    assert_eq!(vram[129], 0xAB);
    assert_eq!(status[2] & 0x01, 1);
}

#[test]
fn hmmc_writes_r44_at_issue_then_streams_rest() {
    let (_regs, vram, status) = with_g4(|ctx| {
        ctx.regs[40] = 4; ctx.regs[41] = 0;
        ctx.regs[42] = 2; ctx.regs[43] = 0;
        ctx.regs[44] = 0x11;
        ctx.regs[46] = 0xF0;
        ctx.execute();
        for &b in &[0x22, 0x33, 0x44] {
            ctx.regs[44] = b;
            ctx.pump_write(b);
        }
    });
    assert_eq!(&vram[0..2], &[0x11, 0x22]);
    assert_eq!(&vram[128..130], &[0x33, 0x44]);
    assert_eq!(status[2] & 0x81, 0);
}

#[test]
fn lmmc_writes_r44_at_issue_then_streams_rest() {
    let (_regs, vram, status) = with_g4(|ctx| {
        ctx.regs[40] = 2; ctx.regs[41] = 0;
        ctx.regs[42] = 1; ctx.regs[43] = 0;
        ctx.regs[44] = 0x01;
        ctx.regs[46] = 0xB0;
        ctx.execute();
        ctx.regs[44] = 0x02;
        ctx.pump_write(0x02);
    });
    assert_eq!(vram[0], 0x12);
    assert_eq!(status[2] & 0x81, 0);
}

#[test]
fn lmmv_fills_pixels_with_imp_op() {
    let (_regs, vram, _status) = with_g4(|ctx| {
        ctx.regs[36] = 1; ctx.regs[37] = 0;
        ctx.regs[40] = 3; ctx.regs[41] = 0;
        ctx.regs[42] = 1; ctx.regs[43] = 0;
        ctx.regs[44] = 5;
        ctx.regs[46] = 0x80;
        ctx.execute();
    });
    let mut ctx = g4();
    ctx.vram = vram;
    let layout = ctx.pixel_layout().unwrap();
    assert_eq!(ctx.read_pixel(&layout, 0, 0), 0);
    assert_eq!(ctx.read_pixel(&layout, 1, 0), 5);
    assert_eq!(ctx.read_pixel(&layout, 2, 0), 5);
    assert_eq!(ctx.read_pixel(&layout, 3, 0), 5);
    assert_eq!(ctx.read_pixel(&layout, 4, 0), 0);
}

#[test]
fn lmmv_transparent_skips_color_zero() {
    let (_regs, vram, _status) = with_g4(|ctx| {
        let layout = ctx.pixel_layout().unwrap();
        ctx.write_pixel(&layout, 0, 0, 7);
        ctx.regs[40] = 1; ctx.regs[41] = 0;
        ctx.regs[42] = 1; ctx.regs[43] = 0;
        ctx.regs[44] = 0;
        ctx.regs[46] = 0x88;
        ctx.execute();
    });
    assert_eq!(vram[0] >> 4 & 0x0F, 7);
}

#[test]
fn lmmv_xor_inverts_existing_pixels() {
    let (_regs, vram, _status) = with_g4(|ctx| {
        let layout = ctx.pixel_layout().unwrap();
        ctx.write_pixel(&layout, 0, 0, 0x05);
        ctx.write_pixel(&layout, 1, 0, 0x0A);
        ctx.regs[40] = 2; ctx.regs[41] = 0;
        ctx.regs[42] = 1; ctx.regs[43] = 0;
        ctx.regs[44] = 0x0F;
        ctx.regs[46] = 0x83;
        ctx.execute();
    });
    assert_eq!(vram[0] >> 4 & 0x0F, 0x05 ^ 0x0F);
    assert_eq!(vram[0] & 0x0F,      0x0A ^ 0x0F);
}

#[test]
fn hmmm_copies_byte_aligned_rect() {
    let (_regs, vram, _status) = with_g4(|ctx| {
        ctx.vram[0] = 0x11;
        ctx.vram[1] = 0x22;
        ctx.vram[2] = 0x33;
        ctx.vram[3] = 0x44;
        ctx.regs[38] = 1; ctx.regs[39] = 0;
        ctx.regs[40] = 8; ctx.regs[41] = 0;
        ctx.regs[42] = 1; ctx.regs[43] = 0;
        ctx.regs[46] = 0xD0;
        ctx.execute();
    });
    assert_eq!(vram[128], 0x11);
    assert_eq!(vram[129], 0x22);
    assert_eq!(vram[130], 0x33);
    assert_eq!(vram[131], 0x44);
}

#[test]
fn pset_writes_single_pixel() {
    let (_regs, vram, _status) = with_g4(|ctx| {
        ctx.regs[36] = 5; ctx.regs[37] = 0;
        ctx.regs[38] = 7; ctx.regs[39] = 0;
        ctx.regs[44] = 9;
        ctx.regs[46] = 0x50;
        ctx.execute();
    });
    assert_eq!(vram[898] & 0x0F, 9);
}

#[test]
fn point_reads_pixel_into_s7() {
    let (_regs, _vram, status) = with_g4(|ctx| {
        let layout = ctx.pixel_layout().unwrap();
        ctx.write_pixel(&layout, 10, 4, 0xC);
        ctx.regs[32] = 10; ctx.regs[33] = 0;
        ctx.regs[34] = 4;  ctx.regs[35] = 0;
        ctx.regs[46] = 0x40;
        ctx.execute();
    });
    assert_eq!(status[7], 0xC);
}

#[test]
fn line_horizontal() {
    let (_regs, vram, _status) = with_g4(|ctx| {
        ctx.regs[40] = 10; ctx.regs[41] = 0;
        ctx.regs[42] = 0;  ctx.regs[43] = 0;
        ctx.regs[44] = 3;
        ctx.regs[45] = 0;
        ctx.regs[46] = 0x70;
        ctx.execute();
    });
    for x in 0..=10u32 {
        let byte = vram[(x / 2) as usize];
        let nib = if x & 1 == 0 { byte >> 4 } else { byte & 0x0F };
        assert_eq!(nib, 3, "pixel ({},0) expected 3, got {}", x, nib);
    }
    let byte = vram[5];
    let nib = byte & 0x0F;
    assert_eq!(nib, 0, "pixel 11 should still be 0");
}

#[test]
fn line_vertical() {
    let (_regs, vram, _status) = with_g4(|ctx| {
        ctx.regs[40] = 5; ctx.regs[41] = 0;
        ctx.regs[42] = 0; ctx.regs[43] = 0;
        ctx.regs[44] = 7;
        ctx.regs[45] = 0x01;
        ctx.regs[46] = 0x70;
        ctx.execute();
    });
    for y in 0..=5u32 {
        let byte = vram[(y * 128) as usize];
        assert_eq!(byte >> 4, 7, "pixel (0,{}) expected 7", y);
    }
}

#[test]
fn srch_finds_matching_color() {
    let (_regs, _vram, status) = with_g4(|ctx| {
        let layout = ctx.pixel_layout().unwrap();
        ctx.write_pixel(&layout, 5, 0, 9);
        ctx.regs[32] = 0;  ctx.regs[33] = 0;
        ctx.regs[34] = 0;  ctx.regs[35] = 0;
        ctx.regs[44] = 9;
        ctx.regs[45] = 0x02;
        ctx.regs[46] = 0x60;
        ctx.execute();
    });
    assert_eq!(status[8], 5);
    assert_eq!(status[9], 0xFE, "S9 upper 7 bits hardwired to 1, X8=0");
    assert_ne!(status[2] & 0x10, 0, "BD must be set on match");
}

#[test]
fn srch_clears_bd_on_border_hit() {
    let (_regs, _vram, status) = with_g4(|ctx| {
        ctx.regs[32] = 0; ctx.regs[33] = 0;
        ctx.regs[34] = 0; ctx.regs[35] = 0;
        ctx.regs[44] = 5;
        ctx.regs[45] = 0x02;
        ctx.regs[46] = 0x60;
        ctx.execute();
    });
    assert_eq!(status[2] & 0x10, 0, "BD must be clear when no match found");
}

#[test]
fn ymmm_scrolls_row_to_next() {
    let (_regs, vram, _status) = with_g4(|ctx| {
        for x in 0..16usize {
            ctx.vram[x] = 0xA0 + x as u8;
        }
        ctx.regs[34] = 0; ctx.regs[35] = 0;
        ctx.regs[36] = 0; ctx.regs[37] = 0;
        ctx.regs[38] = 1; ctx.regs[39] = 0;
        ctx.regs[42] = 1; ctx.regs[43] = 0;
        ctx.regs[45] = 0;
        ctx.regs[46] = 0xE0;
        ctx.execute();
    });
    for x in 0..16usize {
        assert_eq!(vram[128 + x], 0xA0 + x as u8, "byte {} mismatch", x);
    }
}

#[test]
fn lmmc_starts_transfer_and_sets_tr_ce() {
    let (_regs, _vram, status) = with_g4(|ctx| {
        ctx.regs[40] = 4; ctx.regs[41] = 0;
        ctx.regs[42] = 1; ctx.regs[43] = 0;
        ctx.regs[46] = 0xB0;
        ctx.execute();
    });
    assert_ne!(status[2] & 0x80, 0, "TR must be set");
    assert_ne!(status[2] & 0x01, 0, "CE must be set");
}

#[test]
fn hmmc_starts_transfer_and_sets_tr_ce() {
    let (_regs, _vram, status) = with_g4(|ctx| {
        ctx.regs[40] = 8; ctx.regs[41] = 0;
        ctx.regs[42] = 1; ctx.regs[43] = 0;
        ctx.regs[46] = 0xF0;
        ctx.execute();
    });
    assert_ne!(status[2] & 0x80, 0, "TR must be set");
    assert_ne!(status[2] & 0x01, 0, "CE must be set");
}

#[test]
fn lmcm_starts_transfer_and_preloads_s7() {
    let (_regs, vram, status) = with_g4(|ctx| {
        let layout = ctx.pixel_layout().unwrap();
        ctx.write_pixel(&layout, 0, 0, 0xD);
        ctx.regs[40] = 4; ctx.regs[41] = 0;
        ctx.regs[42] = 1; ctx.regs[43] = 0;
        ctx.regs[46] = 0xA0;
        ctx.execute();
    });
    assert_eq!(status[7], 0xD, "first LMCM pixel should be preloaded into S7");
    assert_ne!(status[2] & 0x80, 0, "TR must be set");
    assert_ne!(status[2] & 0x01, 0, "CE must be set");
    let _ = vram;
}

#[test]
fn stop_aborts_active_cpu_transfer() {
    let (_regs, _vram, status) = with_g4(|ctx| {
        ctx.regs[40] = 4; ctx.regs[41] = 0;
        ctx.regs[42] = 1; ctx.regs[43] = 0;
        ctx.regs[46] = 0xB0;
        ctx.execute();
        ctx.regs[46] = 0x00;
        ctx.execute();
    });
    assert_eq!(status[2] & 0x81, 0, "STOP must clear TR + CE");
}

#[test]
fn pixels_read_back_one_by_one() {
    let mut ctx = g4();
    let layout = ctx.pixel_layout().unwrap();
    ctx.write_pixel(&layout, 6, 2, 0x0B);
    ctx.write_pixel(&layout, 7, 2, 0x04);
    assert_eq!(ctx.read_pixel(&layout, 6, 2), 0x0B);
    assert_eq!(ctx.read_pixel(&layout, 7, 2), 0x04);
    assert_eq!(ctx.read_pixel(&layout, 5, 2), 0);
    assert_eq!(ctx.vram[2 * 128 + 3], 0xB4);
}

#[test]
fn layouts_of_the_bitmap_modes() {
    let mut ctx = g4();
    ctx.regs[0] = 0x08;
    let g5 = ctx.pixel_layout().unwrap();
    assert_eq!((g5.bpp, g5.pitch, g5.width), (2, 128, 512));
    ctx.regs[0] = 0x0A;
    let g6 = ctx.pixel_layout().unwrap();
    assert_eq!((g6.bpp, g6.pitch, g6.width), (4, 256, 512));
    ctx.regs[0] = 0x0E;
    let g7 = ctx.pixel_layout().unwrap();
    assert_eq!((g7.bpp, g7.pitch, g7.width), (8, 256, 256));
    assert_eq!(g7.pixel_mask(), 0xFF);
    assert_eq!(g5.pixel_mask(), 0x03);
    ctx.regs[0] = 0x02;
    assert!(ctx.pixel_layout().is_none());
}

#[test]
fn xor_twice_restores() {
    let mut ctx = g4();
    ctx.vram[0] = 0x5A;
    ctx.regs[40] = 2;
    ctx.regs[42] = 1;
    ctx.regs[44] = 0x0F;
    ctx.regs[46] = 0x83;
    ctx.execute();
    assert_eq!(ctx.vram[0], 0xA5);
    // The command has moved DY to the next line.
    assert_eq!(ctx.regs[38], 1);
    ctx.regs[38] = 0;
    ctx.regs[42] = 1;
    ctx.execute();
    assert_eq!(ctx.vram[0], 0x5A);
}

#[test]
fn logic_operations() {
    assert_eq!(apply_logic_op(0b1100, 0b1010, 0, 0x0F), 0b1100);
    assert_eq!(apply_logic_op(0b1100, 0b1010, 1, 0x0F), 0b1000);
    assert_eq!(apply_logic_op(0b1100, 0b1010, 2, 0x0F), 0b1110);
    assert_eq!(apply_logic_op(0b1100, 0b1010, 3, 0x0F), 0b0110);
    assert_eq!(apply_logic_op(0b1100, 0b1010, 4, 0x0F), 0b0011);
    assert_eq!(apply_logic_op(0, 0b1010, 8, 0x0F), 0b1010);
    assert_eq!(apply_logic_op(0b1100, 0b1010, 8, 0x0F), 0b1100);
}

#[test]
fn lmmm_copies_pixels_between_rectangles() {
    let mut ctx = g4();
    let layout = ctx.pixel_layout().unwrap();
    for x in 0..3u32 {
        ctx.write_pixel(&layout, 1 + x, 0, (x + 1) as u8);
    }
    ctx.regs[32] = 1;
    ctx.regs[36] = 20;
    ctx.regs[38] = 9;
    ctx.regs[40] = 3;
    ctx.regs[42] = 1;
    ctx.regs[46] = 0x90;
    ctx.execute();
    for x in 0..3u32 {
        assert_eq!(ctx.read_pixel(&layout, 20 + x, 9), (x + 1) as u8);
        assert_eq!(ctx.read_pixel(&layout, 1 + x, 0), (x + 1) as u8);
    }
    assert_eq!(ctx.read_pixel(&layout, 23, 9), 0);
}

#[test]
fn durations_of_commands() {
    let mut ctx = g4();
    ctx.regs[40] = 5;
    ctx.regs[42] = 2;
    assert_eq!(ctx.command_duration(0xC), 10 * 3 * 2);
    assert_eq!(ctx.command_duration(0xD), 20 * 3 * 2);
    assert_eq!(ctx.command_duration(0xE), 17 * 128 * 2);
    assert_eq!(ctx.command_duration(0x8), 21 * 10);
    assert_eq!(ctx.command_duration(0x9), 29 * 10);
    assert_eq!(ctx.command_duration(0x7), 23 * 5);
    assert_eq!(ctx.command_duration(0x6), 25);
    assert_eq!(ctx.command_duration(0x5), 0);
    ctx.regs[0] = 0;
    assert_eq!(ctx.command_duration(0xC), 0);
}

#[test]
fn engine_is_busy_for_the_staged_rectangle() {
    let mut ctx = g4();
    ctx.regs[40] = 5;
    ctx.regs[42] = 2;
    ctx.regs[46] = 0xC0;
    ctx.execute();
    assert_eq!(ctx.cmd_busy, 10 * 3 * 2);
    assert_eq!((ctx.regs[42], ctx.regs[38]), (0, 2));
}

#[test]
fn lmcm_hands_out_every_pixel() {
    let mut ctx = g4();
    ctx.vram[0] = 0x12;
    ctx.vram[128] = 0x34;
    ctx.regs[40] = 2;
    ctx.regs[42] = 2;
    ctx.regs[46] = 0xA0;
    ctx.execute();
    let mut seen = Vec::new();
    for _ in 0..4 {
        assert_ne!(ctx.status[2] & 0x80, 0);
        seen.push(ctx.pump_read());
    }
    assert_eq!(seen, vec![1, 2, 3, 4]);
    assert_eq!(ctx.status[2] & 0x81, 0);
    assert_eq!(ctx.cpu_xfer, CpuXfer::Idle);
}

#[test]
fn diagonal_line() {
    let mut ctx = g4();
    ctx.regs[40] = 4;
    ctx.regs[42] = 4;
    ctx.regs[44] = 6;
    ctx.regs[46] = 0x70;
    ctx.execute();
    let layout = ctx.pixel_layout().unwrap();
    assert_eq!(ctx.read_pixel(&layout, 0, 0), 6);
    assert_eq!(ctx.read_pixel(&layout, 4, 4), 6);
    assert_eq!(ctx.read_pixel(&layout, 5, 5), 0);
}

#[test]
fn commands_need_a_bitmap_mode() {
    let mut ctx = g4();
    ctx.regs[0] = 0;
    ctx.regs[40] = 4;
    ctx.regs[42] = 4;
    ctx.regs[44] = 0xFF;
    ctx.regs[46] = 0xC0;
    ctx.execute();
    assert!(ctx.vram.iter().all(|&b| b == 0));
    assert_eq!(ctx.status[2] & 0x01, 0);
}

/// The pixels of the first rows that have a colour.
fn lit(ctx: &CmdCtx) -> Vec<(u32, u32)> {
    let layout = ctx.pixel_layout().unwrap();
    let mut out = Vec::new();
    for y in 0..32 {
        for x in 0..256 {
            if ctx.read_pixel(&layout, x, y) != 0 {
                out.push((x, y));
            }
        }
    }
    out
}

fn line(nx: u8, ny: u8, arg: u8) -> CmdCtx {
    let mut ctx = g4();
    ctx.regs[36] = 10;
    ctx.regs[38] = 10;
    ctx.regs[40] = nx;
    ctx.regs[42] = ny;
    ctx.regs[44] = 9;
    ctx.regs[45] = arg;
    ctx.regs[46] = 0x70;
    ctx.execute();
    ctx
}

#[test]
fn line_shares_its_steps() {
    let shallow = line(6, 2, 0);
    assert_eq!(
        lit(&shallow),
        [(10, 10), (11, 10), (12, 10), (13, 11), (14, 11), (15, 11), (16, 12)]
    );
    // One step past the end: 7 * 2 / 6 rows down.
    assert_eq!(shallow.regs[38], 12);
    let steep_up = line(5, 2, 0x01 | 0x04 | 0x08);
    assert_eq!(lit(&steep_up), [(8, 5), (9, 6), (9, 7), (10, 8), (10, 9), (10, 10)]);
    let too_wide = line(2, 7, 0);
    assert_eq!(lit(&too_wide), [(10, 10), (11, 11), (12, 12)]);
}

#[test]
fn streamed_pixels_land_row_by_row() {
    let mut ctx = g4();
    ctx.regs[36] = 10;
    ctx.regs[38] = 4;
    ctx.regs[40] = 3;
    ctx.regs[42] = 2;
    ctx.regs[44] = 1;
    ctx.regs[45] = 0x04;
    ctx.regs[46] = 0xB0;
    ctx.execute();
    for value in 2..=6u8 {
        assert_ne!(ctx.cpu_xfer, CpuXfer::Idle);
        ctx.regs[44] = value;
        ctx.pump_write(value);
    }
    assert_eq!(ctx.cpu_xfer, CpuXfer::Idle);
    let layout = ctx.pixel_layout().unwrap();
    let row = |y: u32| -> Vec<u8> { (7..12).map(|x| ctx.read_pixel(&layout, x, y)).collect() };
    assert_eq!(row(4), [0, 3, 2, 1, 0]);
    assert_eq!(row(5), [0, 6, 5, 4, 0]);
    assert_eq!(row(6), [0, 0, 0, 0, 0]);
}

#[test]
fn streamed_bytes_skip_what_is_off_the_page() {
    let mut ctx = g4();
    ctx.regs[36] = 252;
    ctx.regs[40] = 6;
    ctx.regs[42] = 2;
    ctx.regs[44] = 0x11;
    ctx.regs[46] = 0xF0;
    ctx.execute();
    for value in [0x22u8, 0x33, 0x44, 0x55, 0x66] {
        ctx.pump_write(value);
    }
    assert_eq!(ctx.cpu_xfer, CpuXfer::Idle);
    assert_eq!(&ctx.vram[126..129], &[0x11, 0x22, 0]);
    assert_eq!(&ctx.vram[254..257], &[0x44, 0x55, 0]);
}

#[test]
fn pixels_are_read_row_by_row() {
    let mut ctx = g4();
    let layout = ctx.pixel_layout().unwrap();
    for (x, y, c) in [(1, 3, 1), (0, 3, 2), (1, 2, 3), (0, 2, 4)] {
        ctx.write_pixel(&layout, x, y, c);
    }
    ctx.regs[32] = 1;
    ctx.regs[34] = 3;
    ctx.regs[40] = 3;
    ctx.regs[42] = 2;
    ctx.regs[45] = 0x04 | 0x08;
    ctx.regs[46] = 0xA0;
    ctx.execute();
    let read: Vec<u8> = (0..6).map(|_| ctx.pump_read()).collect();
    assert_eq!(read, [1, 2, 0, 3, 4, 0]);
    assert_eq!(ctx.cpu_xfer, CpuXfer::Idle);
}
