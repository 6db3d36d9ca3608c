//! The host's side: command line, keyboard, shaders, logging and debug windows.
use msx_rs::bus::MachineRoms;
use msx_rs::cli::{
    cartridge_arg, disk_path, machine_dir, machine_of, mapper_choice, shader_choice, MapperChoice,
};
use msx_rs::debug::{
    last_page, mapper_label, memory_rows, pc_rows, register_cells, row_start, screen_mode,
    sprite_line, sprite_rows, status_rows, table_bases, vdp_lines, CpuRegs, PcTrace,
};
use msx_rs::keyboard::{key_action, map_key, HostKey, KeyAction};
use msx_rs::log::{cat, is_enabled, parse_mask, parse_names, set_enabled};
use msx_rs::lut::{load_lut, lut_of, Picture};
use msx_rs::post::ShaderMode;
use msx_rs::slot::CartridgeMapper;
use msx_rs::text::{hex_text, string_of, trimmed};

fn args(list: &[&str]) -> Vec<String> {
    list.iter().map(|s| s.to_string()).collect()
}

#[test]
fn cartridge_is_the_first_positional_argument() {
    assert_eq!(cartridge_arg(&args(&[])), None);
    assert_eq!(cartridge_arg(&args(&["game.rom", "other.rom"])), Some(0));
    assert_eq!(cartridge_arg(&args(&["--shader", "crt", "SALAMAND.ROM"])), Some(2));
    assert_eq!(cartridge_arg(&args(&["--shader=crt", "--fast", "x.rom"])), Some(2));
    assert_eq!(cartridge_arg(&args(&["--mapper", "plain"])), None);
    assert_eq!(cartridge_arg(&args(&["--mapper"])), None);
}

fn forced(list: &[&str]) -> Option<CartridgeMapper> {
    match mapper_choice(&args(list)) {
        MapperChoice::Forced(m) => Some(m),
        _ => None,
    }
}

#[test]
fn last_mapper_counts() {
    assert_eq!(forced(&["--mapper", "ascii8"]), Some(CartridgeMapper::Ascii8));
    assert_eq!(
        forced(&["--mapper=ascii8", "x.rom", "--mapper=SCC"]),
        Some(CartridgeMapper::KonamiSCC)
    );
    assert!(matches!(mapper_choice(&args(&["x.rom"])), MapperChoice::Detect));
    assert!(matches!(mapper_choice(&args(&["--mapper=plain", "--mapper"])), MapperChoice::Detect));
    match mapper_choice(&args(&["--mapper=Zemina"])) {
        MapperChoice::Unknown(name) => assert_eq!(name, "Zemina"),
        _ => panic!("an unknown mapper"),
    }
}

#[test]
fn first_shader_counts() {
    assert_eq!(shader_choice(&args(&[])), ShaderMode::Sharp);
    assert_eq!(shader_choice(&args(&["x.rom", "--shader", "crt"])), ShaderMode::Crt);
    assert_eq!(shader_choice(&args(&["--shader=epx", "--shader=crt"])), ShaderMode::Pixely);
    assert_eq!(shader_choice(&args(&["--shader=none"])), ShaderMode::Sharp);
    assert_eq!(shader_choice(&args(&["--shader"])), ShaderMode::Sharp);
}

#[test]
fn disk_in_the_drive() {
    let line = args(&["game.rom", "--disk=a.dsk", "--disk=b.dsk"]);
    assert_eq!(disk_path(&line), Some("a.dsk".to_string()));
    assert_eq!(cartridge_arg(&line), Some(0));
    assert_eq!(disk_path(&args(&["--disc=a.dsk"])), None);
}

#[test]
fn machine_needs_roms_of_the_right_size() {
    assert_eq!(machine_dir("nms8245"), "assets/NMS8245");
    assert_eq!(machine_dir("/roms/vg8235"), "/roms/vg8235");
    let good = machine_of(vec![0; 0x8000], vec![0; 0x4000], None, None, None);
    assert!(matches!(good, MachineRoms::Nms8245 { .. }));
    match machine_of(vec![0; 0x8000], vec![0; 0x4000], None, None, Some(vec![5; 0x10000])) {
        MachineRoms::Nms8245 { fmpac, .. } => assert_eq!(fmpac, Some(vec![5; 0x4000])),
        MachineRoms::CBios => panic!("the right sizes"),
    }
    let bad = machine_of(vec![0; 0x8000], vec![0; 0x2000], None, None, None);
    assert!(matches!(bad, MachineRoms::CBios));
    let worse = machine_of(vec![0; 0x4000], vec![0; 0x4000], None, None, None);
    assert!(matches!(worse, MachineRoms::CBios));
}

#[test]
fn keys_of_the_matrix() {
    assert_eq!(map_key(HostKey::Digit0), Some((0, 0)));
    assert_eq!(map_key(HostKey::KeyZ), Some((5, 7)));
    assert_eq!(map_key(HostKey::ShiftLeft), map_key(HostKey::ShiftRight));
    assert_eq!(map_key(HostKey::AltRight), Some((6, 4)));
    assert_eq!(map_key(HostKey::Enter), Some((7, 7)));
    assert_eq!(map_key(HostKey::ArrowRight), Some((8, 7)));
    assert_eq!(map_key(HostKey::Other), None);
}

#[test]
fn shortcuts() {
    assert_eq!(key_action(HostKey::Enter, true, true, false, false), KeyAction::Fullscreen);
    assert_eq!(key_action(HostKey::Enter, true, false, true, false), KeyAction::Fullscreen);
    assert_eq!(key_action(HostKey::KeyS, true, true, false, false), KeyAction::Shader);
    assert_eq!(
        key_action(HostKey::KeyS, true, false, true, false),
        KeyAction::Matrix { row: 5, col: 0, pressed: true }
    );
    assert_eq!(
        key_action(HostKey::Enter, false, true, false, false),
        KeyAction::Matrix { row: 7, col: 7, pressed: false }
    );
    assert_eq!(key_action(HostKey::Other, true, false, false, false), KeyAction::Ignored);
}

#[test]
fn menu_keys() {
    let menu = |key: HostKey, pressed: bool, shown: bool| {
        key_action(key, pressed, false, false, shown)
    };
    assert_eq!(menu(HostKey::F9, true, false), KeyAction::Menu { shown: true });
    assert_eq!(menu(HostKey::F9, true, true), KeyAction::Menu { shown: false });
    assert_eq!(menu(HostKey::F9, false, true), KeyAction::Ignored);
    assert_eq!(menu(HostKey::Escape, true, true), KeyAction::Menu { shown: false });
    assert_eq!(
        menu(HostKey::Escape, true, false),
        KeyAction::Matrix { row: 7, col: 2, pressed: true }
    );
    assert_eq!(map_key(HostKey::F9), None);
}

#[test]
fn shader_names_and_cycle() {
    let mut m = ShaderMode::Sharp;
    let mut seen = Vec::new();
    for _ in 0..4 {
        seen.push(m.label());
        assert_eq!(ShaderMode::parse(m.label()), Some(m));
        m = m.toggle();
    }
    assert_eq!(seen, vec!["sharp", "crt", "pixely", "hq4x"]);
    assert_eq!(m, ShaderMode::Sharp);
    assert_eq!(ShaderMode::parse("scale2x"), Some(ShaderMode::Pixely));
    assert_eq!(ShaderMode::parse("hqx"), Some(ShaderMode::Hq4x));
    assert_eq!(ShaderMode::parse("Sharp"), None);
}

#[test]
fn log_categories() {
    assert_eq!(parse_mask("vdp_cmd,vdp_pal"), cat::VDP_CMD | cat::VDP_PAL);
    assert_eq!(parse_mask(" scc ,, psg\t"), cat::SCC | cat::PSG);
    assert_eq!(parse_mask("all"), cat::ALL);
    assert_eq!(parse_mask(""), 0);
    assert_eq!(parse_mask("fm,bus,,scc, slot"), parse_mask("fm,bus,") | parse_mask("scc, slot"));
    assert_eq!(parse_mask("vdp_sprite,vdp_reg,slot,bus,fm"), 4 | 8 | 64 | 128 | 256);
    let (mask, unknown) = parse_names("vdp_cdm, fm, , VDP_REG");
    assert_eq!(mask, cat::FM);
    assert_eq!(unknown, vec!["vdp_cdm".to_string(), "VDP_REG".to_string()]);
    let mut enabled = 0;
    assert!(!is_enabled(enabled, cat::ALL));
    set_enabled(&mut enabled, mask);
    assert!(is_enabled(enabled, cat::FM));
    assert!(!is_enabled(enabled, cat::BUS));
}

#[test]
fn trimming_and_numbers() {
    let text: Vec<char> = "\u{3000} a b \u{2028}".chars().collect();
    assert_eq!(string_of(&trimmed(&text)), "a b");
    assert_eq!(hex_text(0xAB, 4), "00AB");
    assert_eq!(hex_text(0x12345, 4), "12345");
    assert_eq!(hex_text(0, 0), "0");
}

#[test]
fn cpu_window() {
    let mut c = CpuRegs::default();
    assert_eq!(c.flags_text(), "flags s z h p c");
    assert_eq!(c.interrupt_text(), "I=00 R=00  IM0  IFF00  ");
    c.af = 0x12C1;
    c.i = 0x3F;
    c.r = 0x7A;
    c.im = 1;
    c.iff1 = true;
    c.halt = true;
    assert_eq!(c.flags_text(), "flags S Z h p C");
    assert_eq!(c.interrupt_text(), "I=3F R=7A  IM1  IFF10  HALT");
}

#[test]
fn trace_tells_reboots() {
    let mut t = PcTrace::new();
    assert!(!t.record(0x0000));
    for pc in 0..70u16 {
        assert!(!t.record(0x4000 + pc));
    }
    assert!(t.record(0x0003));
    assert_eq!(t.last(), 0x0003);
    let trail = t.trail();
    assert_eq!(trail.len(), 64);
    assert_eq!(trail[63], 0x0003);
    assert_eq!(trail[0], 0x4000 + 7);
    let rows = pc_rows(&trail);
    assert_eq!(rows.len(), 8);
    assert_eq!(rows[0], "4007 4008 4009 400A 400B 400C 400D 400E ");
    assert_eq!(pc_rows(&vec![1, 2]), vec!["0001 0002 ".to_string()]);
}

#[test]
fn video_window() {
    let mut regs = [0u8; 64];
    regs[0] = 0x06;
    regs[1] = 0x43;
    regs[2] = 0x1F;
    regs[3] = 0x80;
    regs[5] = 0xEF;
    regs[10] = 0x01;
    regs[11] = 0x00;
    regs[6] = 0x0F;
    assert_eq!(screen_mode(&regs), "GRAPHIC 4 (SCREEN 5)");
    let t = table_bases(&regs);
    assert_eq!((t.name, t.colour, t.pattern), (0x7C00, 0x6000, 0));
    assert_eq!((t.sprite_attributes, t.sprite_patterns), (0x3780, 0x7800));
    let (_, lines) = vdp_lines(&regs, false);
    assert_eq!(lines[0], "NTSC/60Hz  display on  sprites on");
    assert_eq!(lines[1], "name 7C00  colour 6000  pattern 0000");
    assert_eq!(lines[2], "sprite-attr 3780  sprite-patt 7800");
    let cells = register_cells(&regs);
    assert_eq!(cells[2], "R2 =1F");
    assert_eq!(cells[10], "R10=01");
    let status = [0, 1, 2, 3, 4, 5, 6, 7, 8, 0xFE];
    assert_eq!(status_rows(&status)[1], "S5=05 S6=06 S7=07 S8=08 S9=FE ");
    assert_eq!(sprite_line(&regs), "SAT @ 3780   size 16×16   mag 2×");
    regs[0] = 0x0C;
    assert_eq!(screen_mode(&regs), "unknown / mixed");
    regs[0] = 0;
    regs[1] = 0x10;
    assert_eq!(screen_mode(&regs), "TEXT 1 (SCREEN 0)");
}

#[test]
fn sprite_window_stops_at_the_end_mark() {
    let regs = [0u8; 64];
    let mut vram = vec![0u8; 128];
    vram[4..8].copy_from_slice(&[10, 20, 30, 40]);
    vram[8] = 0xD0;
    let rows = sprite_rows(&regs, &vram);
    assert_eq!(rows.len(), 3);
    assert_eq!((rows[1].y, rows[1].x, rows[1].pattern, rows[1].colour), (10, 20, 30, 40));
    vram[8] = 0;
    assert_eq!(sprite_rows(&regs, &vram).len(), 32);
    assert_eq!(sprite_rows(&regs, &vec![0u8; 11]).len(), 2);
}

#[test]
fn memory_window() {
    let mut vram = vec![0u8; 40];
    vram[0] = b'A';
    vram[1] = 0x7F;
    let rows = memory_rows(&vram, 0);
    assert_eq!(rows.len(), 3);
    assert_eq!(
        rows[0],
        "00000: 41 7F 00 00 00 00 00 00 00 00 00 00 00 00 00 00   A..............."
    );
    assert_eq!(rows[2], "00020: 00 00 00 00 00 00 00 00   ........");
    assert_eq!(memory_rows(&vec![0u8; 4096], 0).len(), 16);
    assert!(memory_rows(&vram, 40).is_empty());
    assert_eq!(row_start(0x1237), 0x1230);
    assert_eq!(last_page(0x20000), 0x1FF00);
    assert_eq!(last_page(10), 0);
}

#[test]
fn mapper_labels() {
    assert_eq!(mapper_label(None), "auto-detect");
    for m in [
        CartridgeMapper::Plain,
        CartridgeMapper::KonamiBasic,
        CartridgeMapper::KonamiSCC,
        CartridgeMapper::Ascii8,
        CartridgeMapper::Ascii16,
    ] {
        assert_eq!(CartridgeMapper::parse(mapper_label(Some(m))), Some(m));
    }
}

fn png_of(width: u32, height: u32, color: png::ColorType, bytes: &[u8]) -> Vec<u8> {
    let mut file = Vec::new();
    let mut encoder = png::Encoder::new(&mut file, width, height);
    encoder.set_color(color);
    encoder.set_depth(png::BitDepth::Eight);
    encoder.write_header().unwrap().write_image_data(bytes).unwrap();
    file
}

#[test]
fn weights_come_out_of_a_picture() {
    let pixels: Vec<u8> = (0..24).collect();
    let lut = load_lut(&png_of(3, 2, png::ColorType::Rgba, &pixels)).unwrap();
    assert_eq!((lut.width, lut.height), (3, 2));
    assert_eq!(lut.rgba, pixels);
    assert!(load_lut(&png_of(4, 2, png::ColorType::Rgb, &pixels)).is_none());
    assert!(load_lut(&vec![1, 2, 3]).is_none());
    let mut cut = png_of(3, 2, png::ColorType::Rgba, &pixels);
    cut.truncate(45);
    assert!(load_lut(&cut).is_none());
}

fn picture(colour: u8, depth: u8, bytes: usize) -> Picture {
    Picture { width: 2, height: 2, colour, depth, pixels: vec![7; bytes] }
}

#[test]
fn weights_need_all_their_pixels() {
    assert_eq!(lut_of(picture(6, 8, 20)).unwrap().rgba, vec![7; 16]);
    assert!(lut_of(picture(6, 8, 15)).is_none());
    assert!(lut_of(picture(2, 8, 16)).is_none());
    assert!(lut_of(picture(6, 16, 32)).is_none());
}
