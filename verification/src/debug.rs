//! What the debug windows show: registers, recent instructions, tables, sprites
//! and memory, as text.
pub mod view_laws;

use crate::slot::CartridgeMapper;
use crate::text::{push_decimal, push_hex};
use vstd::prelude::*;
use vstd::string::*;

verus! {

#[allow(unused_imports)]
use crate::slot::mapper::mapper_named;
#[allow(unused_imports)]
use crate::text::{decimal, hex, lowercase};

/// The registers of the Z80.
#[derive(Clone, Copy)]
pub struct CpuRegs {
    pub pc: u16,
    pub sp: u16,
    pub af: u16,
    pub bc: u16,
    pub de: u16,
    pub hl: u16,
    pub ix: u16,
    pub iy: u16,
    pub i: u8,
    pub r: u8,
    pub im: u8,
    pub iff1: bool,
    pub iff2: bool,
    pub halt: bool,
}

impl Default for CpuRegs {
    fn default() -> (r: Self)
        ensures
            r == (CpuRegs {
                pc: 0,
                sp: 0,
                af: 0,
                bc: 0,
                de: 0,
                hl: 0,
                ix: 0,
                iy: 0,
                i: 0,
                r: 0,
                im: 0,
                iff1: false,
                iff2: false,
                halt: false,
            }),
    {
        CpuRegs {
            pc: 0,
            sp: 0,
            af: 0,
            bc: 0,
            de: 0,
            hl: 0,
            ix: 0,
            iy: 0,
            i: 0,
            r: 0,
            im: 0,
            iff1: false,
            iff2: false,
            halt: false,
        }
    }
}

/// A flag's letter: upper case where it is set.
pub open spec fn flag(f: u8, bit: u8, on: char, off: char) -> char {
    if f & bit != 0 {
        on
    } else {
        off
    }
}

/// The line of flags: S, Z, H, P and C.
pub open spec fn flags_line(f: u8) -> Seq<char> {
    "flags "@.push(flag(f, 0x80, 'S', 's')).push(' ').push(flag(f, 0x40, 'Z', 'z')).push(' ').push(
        flag(f, 0x10, 'H', 'h'),
    ).push(' ').push(flag(f, 0x04, 'P', 'p')).push(' ').push(flag(f, 0x01, 'C', 'c'))
}

/// The line of interrupt state.
pub open spec fn interrupt_line(c: CpuRegs) -> Seq<char> {
    "I="@ + hex(c.i as nat, 2) + " R="@ + hex(c.r as nat, 2) + "  IM"@ + decimal(c.im as int)
        + "  IFF"@ + (if c.iff1 {
        "1"@
    } else {
        "0"@
    }) + (if c.iff2 {
        "1"@
    } else {
        "0"@
    }) + (if c.halt {
        "  HALT"@
    } else {
        "  "@
    })
}

fn flag_letter(f: u8, bit: u8, on: char, off: char) -> (r: char)
    ensures
        r == flag(f, bit, on, off),
{
    if f & bit != 0 {
        on
    } else {
        off
    }
}

impl CpuRegs {
    /// The flags, out of the low byte of AF.
    pub fn flags_text(&self) -> (r: String)
        ensures
            r@ == flags_line((self.af % 256) as u8),
    {
        let f = (self.af % 256) as u8;
        let mut s = String::from_str("flags ");
        s.push(flag_letter(f, 0x80, 'S', 's'));
        s.push(' ');
        s.push(flag_letter(f, 0x40, 'Z', 'z'));
        s.push(' ');
        s.push(flag_letter(f, 0x10, 'H', 'h'));
        s.push(' ');
        s.push(flag_letter(f, 0x04, 'P', 'p'));
        s.push(' ');
        s.push(flag_letter(f, 0x01, 'C', 'c'));
        s
    }

    /// The interrupt registers and whether the CPU is halted.
    pub fn interrupt_text(&self) -> (r: String)
        ensures
            r@ == interrupt_line(*self),
    {
        let mut s = String::from_str("I=");
        push_hex(&mut s, self.i as u64, 2);
        s.append(" R=");
        push_hex(&mut s, self.r as u64, 2);
        s.append("  IM");
        push_decimal(&mut s, self.im as u64);
        s.append("  IFF");
        s.append(if self.iff1 { "1" } else { "0" });
        s.append(if self.iff2 { "1" } else { "0" });
        s.append(if self.halt { "  HALT" } else { "  " });
        s
    }
}

/// How many program counters are remembered.
pub const TRACE_LEN: usize = 64;

/// The program counters of the latest instructions, oldest first, and the one
/// before the next.
pub struct TraceState {
    pub recent: Seq<u16>,
    pub last: u16,
}

impl TraceState {
    /// One instruction later. The oldest is forgotten.
    pub open spec fn recorded(self, pc: u16) -> TraceState {
        TraceState { recent: self.recent.drop_first().push(pc), last: pc }
    }

    /// Whether running code falls back to the reset vector.
    pub open spec fn reboots(self, pc: u16) -> bool {
        pc < 0x10 && self.last >= 0x100
    }
}

/// A ring of program counters.
pub struct PcTrace {
    ring: Vec<u16>,
    next: usize,
    last: u16,
}

impl View for PcTrace {
    type V = TraceState;

    closed spec fn view(&self) -> TraceState {
        TraceState {
            recent: Seq::new(
                TRACE_LEN as nat,
                |k: int| self.ring@[(self.next + k) % TRACE_LEN as int],
            ),
            last: self.last,
        }
    }
}

impl PcTrace {
    pub closed spec fn wf(&self) -> bool {
        self.ring.len() == TRACE_LEN && self.next < TRACE_LEN
    }

    /// All zero.
    pub fn new() -> (r: Self)
        ensures
            r.wf(),
            r@ == (TraceState { recent: Seq::new(64, |k: int| 0u16), last: 0 }),
    {
        let r = PcTrace { ring: vec![0u16; TRACE_LEN], next: 0, last: 0 };
        assert(r@.recent =~= Seq::new(64, |k: int| 0u16));
        r
    }

    /// Remember an instruction. Tells whether it is an unexpected reboot.
    pub fn record(&mut self, pc: u16) -> (r: bool)
        requires
            old(self).wf(),
        ensures
            final(self).wf(),
            final(self)@ == old(self)@.recorded(pc),
            r == old(self)@.reboots(pc),
    {
        let reboot = pc < 0x10 && self.last >= 0x100;
        self.ring[self.next] = pc;
        self.next = (self.next + 1) % TRACE_LEN;
        self.last = pc;
        assert(self@.recent =~= old(self)@.recent.drop_first().push(pc));
        reboot
    }

    /// The instruction before the next.
    pub fn last(&self) -> (r: u16)
        ensures
            r == self@.last,
    {
        self.last
    }

    /// The program counters, oldest first.
    pub fn trail(&self) -> (r: Vec<u16>)
        requires
            self.wf(),
        ensures
            r@ == self@.recent,
    {
        let mut v: Vec<u16> = Vec::new();
        let mut k: usize = 0;
        while k < TRACE_LEN
            invariant
                self.wf(),
                k <= TRACE_LEN,
                v@ == self@.recent.take(k as int),
            decreases TRACE_LEN - k,
        {
            v.push(self.ring[(self.next + k) % TRACE_LEN]);
            k = k + 1;
            assert(v@ =~= self@.recent.take(k as int));
        }
        assert(v@ =~= self@.recent);
        v
    }
}

/// The latest instruction is the last of the trail, and the trail keeps its
/// length.
pub proof fn law_trail_ends_in_latest(t: TraceState, pc: u16)
    requires
        t.recent.len() == TRACE_LEN,
    ensures
        t.recorded(pc).recent.len() == TRACE_LEN,
        t.recorded(pc).recent.last() == pc,
        t.recorded(pc).last == pc,
{
}

/// Rows of program counters, eight to a row, each in four digits and followed by
/// a space.
pub open spec fn words(pcs: Seq<u16>) -> Seq<char>
    decreases pcs.len(),
{
    if pcs.len() == 0 {
        Seq::empty()
    } else {
        (words(pcs.drop_last()) + hex(pcs.last() as nat, 4)).push(' ')
    }
}

/// The program counters of a row.
pub open spec fn row_of(pcs: Seq<u16>, row: int) -> Seq<u16> {
    pcs.subrange(row * 8, if row * 8 + 8 <= pcs.len() {
        row * 8 + 8
    } else {
        pcs.len() as int
    })
}

/// Program counters in rows of eight.
pub fn pc_rows(pcs: &Vec<u16>) -> (r: Vec<String>)
    ensures
        r.len() == pcs.len() / 8 + (if pcs.len() % 8 == 0 {
            0int
        } else {
            1
        }),
        forall|row: int| 0 <= row < r.len() ==> #[trigger] r@[row]@ == words(row_of(pcs@, row)),
{
    let mut rows: Vec<String> = Vec::new();
    let mut line = String::new();
    let mut k: usize = 0;
    assert(pcs@.subrange(0, 0) =~= Seq::<u16>::empty());
    while k < pcs.len()
        invariant
            k <= pcs.len(),
            rows.len() == k / 8,
            line@ == words(pcs@.subrange(rows.len() * 8, k as int)),
            forall|row: int|
                0 <= row < rows.len() ==> #[trigger] rows@[row]@ == words(row_of(pcs@, row)),
        decreases pcs.len() - k,
    {
        push_hex(&mut line, pcs[k] as u64, 4);
        line.push(' ');
        proof {
            let part = pcs@.subrange(rows.len() * 8, k + 1);
            assert(part.drop_last() =~= pcs@.subrange(rows.len() * 8, k as int));
            assert(part.last() == pcs@[k as int]);
        }
        if k % 8 == 7 {
            rows.push(line);
            line = String::new();
            assert(pcs@.subrange(rows.len() * 8, k + 1) =~= Seq::<u16>::empty());
        }
        k = k + 1;
    }
    if pcs.len() % 8 != 0 {
        rows.push(line);
    }
    rows
}

/// The name of a screen mode, by M5 to M1.
pub open spec fn mode_name(m5: u8, m4: u8, m3: u8, m2: u8, m1: u8) -> Seq<char> {
    match (m5, m4, m3, m2, m1) {
        (0, 0, 0, 0, 0) => "GRAPHIC 1 (SCREEN 1)"@,
        (0, 0, 0, 0, 1) => "TEXT 1 (SCREEN 0)"@,
        (0, 0, 0, 1, 0) => "MULTICOLOUR (SCREEN 3)"@,
        (0, 0, 1, 0, 0) => "GRAPHIC 2 (SCREEN 2)"@,
        (0, 1, 0, 0, 0) => "GRAPHIC 3 (SCREEN 4)"@,
        (0, 1, 1, 0, 0) => "GRAPHIC 4 (SCREEN 5)"@,
        (1, 0, 0, 0, 0) => "GRAPHIC 5 (SCREEN 6)"@,
        (1, 0, 1, 0, 0) => "GRAPHIC 6 (SCREEN 7)"@,
        (1, 1, 1, 0, 0) => "GRAPHIC 7 (SCREEN 8)"@,
        (0, 0, 0, 1, 1) => "TEXT 2 (SCREEN 0:80)"@,
        _ => "unknown / mixed"@,
    }
}

/// The screen mode that R0 and R1 select.
pub fn screen_mode(regs: &[u8; 64]) -> (r: &'static str)
    ensures
        r@ == mode_name(
            regs@[0] / 8 % 2,
            regs@[0] / 4 % 2,
            regs@[0] / 2 % 2,
            regs@[1] / 8 % 2,
            regs@[1] / 16 % 2,
        ),
{
    let m1 = regs[1] / 16 % 2;
    let m2 = regs[1] / 8 % 2;
    let m3 = regs[0] / 2 % 2;
    let m4 = regs[0] / 4 % 2;
    let m5 = regs[0] / 8 % 2;
    match (m5, m4, m3, m2, m1) {
        (0, 0, 0, 0, 0) => "GRAPHIC 1 (SCREEN 1)",
        (0, 0, 0, 0, 1) => "TEXT 1 (SCREEN 0)",
        (0, 0, 0, 1, 0) => "MULTICOLOUR (SCREEN 3)",
        (0, 0, 1, 0, 0) => "GRAPHIC 2 (SCREEN 2)",
        (0, 1, 0, 0, 0) => "GRAPHIC 3 (SCREEN 4)",
        (0, 1, 1, 0, 0) => "GRAPHIC 4 (SCREEN 5)",
        (1, 0, 0, 0, 0) => "GRAPHIC 5 (SCREEN 6)",
        (1, 0, 1, 0, 0) => "GRAPHIC 6 (SCREEN 7)",
        (1, 1, 1, 0, 0) => "GRAPHIC 7 (SCREEN 8)",
        (0, 0, 0, 1, 1) => "TEXT 2 (SCREEN 0:80)",
        _ => "unknown / mixed",
    }
}

/// Where the tables are in VRAM.
pub struct TableBases {
    pub name: u32,
    pub colour: u32,
    pub pattern: u32,
    pub sprite_attributes: u32,
    pub sprite_patterns: u32,
}

/// Where the registers put the tables.
pub open spec fn bases_of(regs: Seq<u8>) -> TableBases {
    TableBases {
        name: ((regs[2] % 128) * 1024) as u32,
        colour: ((regs[3] + regs[10] * 256) * 64) as u32,
        pattern: ((regs[4] % 64) * 2048) as u32,
        sprite_attributes: ((regs[5] % 128 + (regs[11] % 4) * 256) * 128) as u32,
        sprite_patterns: ((regs[6] % 64) * 2048) as u32,
    }
}

/// Where the registers put the tables.
pub fn table_bases(regs: &[u8; 64]) -> (r: TableBases)
    ensures
        r == bases_of(regs@),
        r.name == (regs@[2] % 128) * 1024,
        r.colour == (regs@[3] + regs@[10] * 256) * 64,
        r.pattern == (regs@[4] % 64) * 2048,
        r.sprite_attributes == (regs@[5] % 128 + (regs@[11] % 4) * 256) * 128,
        r.sprite_patterns == (regs@[6] % 64) * 2048,
{
    TableBases {
        name: (regs[2] % 128) as u32 * 1024,
        colour: (regs[3] as u32 + regs[10] as u32 * 256) * 64,
        pattern: (regs[4] % 64) as u32 * 2048,
        sprite_attributes: ((regs[5] % 128) as u32 + (regs[11] % 4) as u32 * 256) * 128,
        sprite_patterns: (regs[6] % 64) as u32 * 2048,
    }
}

/// The lines above the register table: one for frequency, display and sprites,
/// two for the addresses of tables.
pub open spec fn vdp_summary(regs: Seq<u8>, pal: bool, t: TableBases) -> Seq<Seq<char>> {
    seq![
        (if pal {
            "PAL/50Hz"@
        } else {
            "NTSC/60Hz"@
        }) + "  display "@ + (if regs[1] & 0x40 != 0 {
            "on"@
        } else {
            "off"@
        }) + "  sprites "@ + (if regs[8] & 0x02 != 0 {
            "off"@
        } else {
            "on"@
        }),
        "name "@ + hex(t.name as nat, 4) + "  colour "@ + hex(t.colour as nat, 4) + "  pattern "@
            + hex(t.pattern as nat, 4),
        "sprite-attr "@ + hex(t.sprite_attributes as nat, 4) + "  sprite-patt "@ + hex(
            t.sprite_patterns as nat,
            4,
        ),
    ]
}

/// Frequency, display and tables in words.
pub fn vdp_lines(regs: &[u8; 64], pal: bool) -> (r: (TableBases, [String; 3]))
    ensures
        r.0.name == (regs@[2] % 128) * 1024,
        r.0.colour == (regs@[3] + regs@[10] * 256) * 64,
        r.0.pattern == (regs@[4] % 64) * 2048,
        r.0.sprite_attributes == (regs@[5] % 128 + (regs@[11] % 4) * 256) * 128,
        r.0.sprite_patterns == (regs@[6] % 64) * 2048,
        r.1@[0]@ == vdp_summary(regs@, pal, r.0)[0],
        r.1@[1]@ == vdp_summary(regs@, pal, r.0)[1],
        r.1@[2]@ == vdp_summary(regs@, pal, r.0)[2],
{
    let t = table_bases(regs);
    let mut a = String::from_str(if pal { "PAL/50Hz" } else { "NTSC/60Hz" });
    a.append("  display ");
    a.append(if regs[1] & 0x40 != 0 { "on" } else { "off" });
    a.append("  sprites ");
    a.append(if regs[8] & 0x02 != 0 { "off" } else { "on" });
    let mut b = String::from_str("name ");
    push_hex(&mut b, t.name as u64, 4);
    b.append("  colour ");
    push_hex(&mut b, t.colour as u64, 4);
    b.append("  pattern ");
    push_hex(&mut b, t.pattern as u64, 4);
    let mut c = String::from_str("sprite-attr ");
    push_hex(&mut c, t.sprite_attributes as u64, 4);
    c.append("  sprite-patt ");
    push_hex(&mut c, t.sprite_patterns as u64, 4);
    (t, [a, b, c])
}

/// A register with its number, such as `R7 =0F`. The number takes two places.
pub open spec fn register_cell(i: int, value: u8) -> Seq<char> {
    "R"@ + decimal(i) + (if i < 10 {
        " ="@
    } else {
        "="@
    }) + hex(value as nat, 2)
}

/// The cells of R0 to R23.
pub fn register_cells(regs: &[u8; 64]) -> (r: Vec<String>)
    ensures
        r.len() == 24,
        forall|i: int| 0 <= i < 24 ==> #[trigger] r@[i]@ == register_cell(i, regs@[i]),
{
    let mut cells: Vec<String> = Vec::new();
    let mut i: usize = 0;
    while i < 24
        invariant
            i <= 24,
            cells.len() == i,
            forall|k: int| 0 <= k < i ==> #[trigger] cells@[k]@ == register_cell(k, regs@[k]),
        decreases 24 - i,
    {
        let mut s = String::from_str("R");
        push_decimal(&mut s, i as u64);
        s.append(if i < 10 { " =" } else { "=" });
        push_hex(&mut s, regs[i] as u64, 2);
        cells.push(s);
        i = i + 1;
    }
    cells
}

/// The status registers from `from` up to `to`, each followed by a space.
pub open spec fn status_words(status: Seq<u8>, from: int, to: int) -> Seq<char>
    decreases to - from,
{
    if from >= to {
        Seq::empty()
    } else {
        (status_words(status, from, to - 1) + "S"@ + decimal(to - 1) + "="@ + hex(
            status[to - 1] as nat,
            2,
        )).push(' ')
    }
}

fn status_row(status: &[u8; 10], from: usize) -> (r: String)
    requires
        from <= 5,
    ensures
        r@ == status_words(status@, from as int, from + 5),
{
    let mut s = String::new();
    let mut i: usize = from;
    while i < from + 5
        invariant
            from <= 5,
            from <= i <= from + 5,
            s@ == status_words(status@, from as int, i as int),
        decreases from + 5 - i,
    {
        s.append("S");
        push_decimal(&mut s, i as u64);
        s.append("=");
        push_hex(&mut s, status[i] as u64, 2);
        s.push(' ');
        i = i + 1;
    }
    s
}

/// S0 to S9, in two rows.
pub fn status_rows(status: &[u8; 10]) -> (r: [String; 2])
    ensures
        r@[0]@ == status_words(status@, 0, 5),
        r@[1]@ == status_words(status@, 5, 10),
{
    [status_row(status, 0), status_row(status, 5)]
}

/// A sprite's attributes.
#[derive(Clone, Copy)]
pub struct SpriteRow {
    pub y: u8,
    pub x: u8,
    pub pattern: u8,
    pub colour: u8,
}

/// The sprites from number `i` on, up to the one whose Y ends the list.
pub open spec fn sprites_from(vram: Seq<u8>, table: int, i: int) -> Seq<SpriteRow>
    decreases 32 - i,
{
    let base = table + i * 4;
    if i >= 32 || base + 3 >= vram.len() {
        Seq::empty()
    } else {
        let s = SpriteRow {
            y: vram[base],
            x: vram[base + 1],
            pattern: vram[base + 2],
            colour: vram[base + 3],
        };
        if s.y == 0xD0 {
            seq![s]
        } else {
            seq![s] + sprites_from(vram, table, i + 1)
        }
    }
}

/// The sprite attribute table, at most 32 sprites.
pub fn sprite_rows(regs: &[u8; 64], vram: &Vec<u8>) -> (r: Vec<SpriteRow>)
    ensures
        r@ == sprites_from(
            vram@,
            (regs@[5] % 128 + (regs@[11] % 4) * 256) * 128,
            0,
        ),
{
    let table = table_bases(regs).sprite_attributes as usize;
    let ghost goal = sprites_from(vram@, table as int, 0);
    let mut rows: Vec<SpriteRow> = Vec::new();
    let mut i: usize = 0;
    let mut more = true;
    assert(rows@ + sprites_from(vram@, table as int, 0) =~= goal);
    while more && i < 32 && table + i * 4 + 3 < vram.len()
        invariant
            i <= 32,
            table <= 0x20000,
            goal == rows@ + (if more {
                sprites_from(vram@, table as int, i as int)
            } else {
                Seq::empty()
            }),
        decreases 32 - i,
    {
        let base = table + i * 4;
        let s = SpriteRow {
            y: vram[base],
            x: vram[base + 1],
            pattern: vram[base + 2],
            colour: vram[base + 3],
        };
        let ghost before = rows@;
        rows.push(s);
        more = s.y != 0xD0;
        i = i + 1;
        assert(goal =~= rows@ + (if more {
            sprites_from(vram@, table as int, i as int)
        } else {
            Seq::empty()
        }));
    }
    assert(rows@ =~= goal);
    rows
}

/// The line above the sprites: where they are, how large and whether magnified.
pub open spec fn sprite_summary(regs: Seq<u8>) -> Seq<char> {
    "SAT @ "@ + hex(((regs[5] % 128 + (regs[11] % 4) * 256) * 128) as nat, 4) + "   size "@ + (
    if regs[1] & 0x02 != 0 {
        "16×16"@
    } else {
        "8×8"@
    }) + "   mag "@ + (if regs[1] & 0x01 != 0 {
        "2×"@
    } else {
        "1×"@
    })
}

/// Where the sprites are, how large and whether magnified.
pub fn sprite_line(regs: &[u8; 64]) -> (r: String)
    ensures
        r@ == sprite_summary(regs@),
{
    let mut s = String::from_str("SAT @ ");
    push_hex(&mut s, table_bases(regs).sprite_attributes as u64, 4);
    s.append("   size ");
    s.append(if regs[1] & 0x02 != 0 { "16×16" } else { "8×8" });
    s.append("   mag ");
    s.append(if regs[1] & 0x01 != 0 { "2×" } else { "1×" });
    s
}

/// A byte as a character, or a dot where it does not print.
pub open spec fn shown(b: u8) -> char {
    if 0x20 <= b < 0x7F {
        b as char
    } else {
        '.'
    }
}

/// Bytes in hexadecimal, each followed by a space.
pub open spec fn bytes_text(bytes: Seq<u8>) -> Seq<char>
    decreases bytes.len(),
{
    if bytes.len() == 0 {
        Seq::empty()
    } else {
        (bytes_text(bytes.drop_last()) + hex(bytes.last() as nat, 2)).push(' ')
    }
}

/// A row of memory: its address, its bytes in hexadecimal and as characters.
pub open spec fn memory_row(addr: int, bytes: Seq<u8>) -> Seq<char> {
    hex(addr as nat, 5) + ": "@ + bytes_text(bytes) + "  "@ + bytes.map_values(
        |b: u8| shown(b),
    )
}

/// The bytes of a row of 16, or fewer at the end of memory.
pub open spec fn row_bytes(vram: Seq<u8>, addr: int) -> Seq<u8> {
    vram.subrange(addr, if addr + 16 <= vram.len() {
        addr + 16
    } else {
        vram.len() as int
    })
}

/// The first address of the row that holds an address.
pub fn row_start(addr: usize) -> (r: usize)
    ensures
        r == addr - addr % 16,
{
    addr - addr % 16
}

/// The last address that a page of 16 rows can start at.
pub fn last_page(len: usize) -> (r: usize)
    ensures
        r == (if len >= 256 {
            len - 256
        } else {
            0
        }),
{
    if len >= 256 {
        len - 256
    } else {
        0
    }
}

fn memory_line(vram: &Vec<u8>, addr: usize) -> (r: String)
    requires
        addr < vram.len(),
    ensures
        r@ == memory_row(addr as int, row_bytes(vram@, addr as int)),
{
    let ghost bytes = row_bytes(vram@, addr as int);
    let n: usize = if vram.len() - addr >= 16 {
        16
    } else {
        vram.len() - addr
    };
    let mut line = String::new();
    push_hex(&mut line, addr as u64, 5);
    line.append(": ");
    let ghost head = line@;
    let mut ascii = String::new();
    let mut col: usize = 0;
    assert(bytes.take(0) =~= Seq::<u8>::empty());
    assert(head + Seq::<char>::empty() =~= head);
    while col < n
        invariant
            col <= n,
            addr + n <= vram.len(),
            bytes == row_bytes(vram@, addr as int),
            bytes.len() == n,
            line@ == head + bytes_text(bytes.take(col as int)),
            ascii@.len() == col,
            forall|k: int| 0 <= k < col ==> ascii@[k] == shown(bytes[k]),
        decreases n - col,
    {
        let b = vram[addr + col];
        push_hex(&mut line, b as u64, 2);
        line.push(' ');
        ascii.push(if 0x20 <= b && b < 0x7F { b as char } else { '.' });
        proof {
            let part = bytes.take(col + 1);
            assert(part.drop_last() =~= bytes.take(col as int));
            assert(part.last() == b);
            assert(line@ =~= head + bytes_text(part));
        }
        col = col + 1;
    }
    line.append("  ");
    line.append(ascii.as_str());
    proof {
        assert(bytes.take(n as int) =~= bytes);
        assert(ascii@ =~= bytes.map_values(|b: u8| shown(b)));
        assert(head =~= hex(addr as nat, 5) + ": "@);
        assert(line@ =~= memory_row(addr as int, bytes));
    }
    line
}

/// How many of 16 rows from an address on start within memory.
pub open spec fn rows_shown(len: int, addr: int) -> int {
    if addr >= len {
        0
    } else if len - addr > 240 {
        16
    } else {
        (len - addr + 15) / 16
    }
}

/// Up to 16 rows of memory from an address on.
pub fn memory_rows(vram: &Vec<u8>, addr: usize) -> (r: Vec<String>)
    ensures
        r.len() == rows_shown(vram.len() as int, addr as int),
        forall|k: int|
            0 <= k < r.len() ==> #[trigger] r@[k]@ == memory_row(
                addr + 16 * k,
                row_bytes(vram@, addr + 16 * k),
            ),
{
    let mut rows: Vec<String> = Vec::new();
    if addr >= vram.len() {
        return rows;
    }
    let left: usize = vram.len() - addr;
    let n: usize = if left > 240 {
        16
    } else {
        (left + 15) / 16
    };
    let mut row: usize = 0;
    while row < n
        invariant
            row <= n <= 16,
            left == vram.len() - addr,
            16 * n < left + 16,
            rows.len() == row,
            forall|k: int|
                0 <= k < row ==> #[trigger] rows@[k]@ == memory_row(
                    addr + 16 * k,
                    row_bytes(vram@, addr + 16 * k),
                ),
        decreases n - row,
    {
        rows.push(memory_line(vram, addr + 16 * row));
        row = row + 1;
    }
    rows
}

/// What the menu calls a mapper choice; no choice is detection.
pub open spec fn choice_name(m: Option<CartridgeMapper>) -> Seq<char> {
    match m {
        None => "auto-detect"@,
        Some(CartridgeMapper::Plain) => "plain"@,
        Some(CartridgeMapper::KonamiBasic) => "konami"@,
        Some(CartridgeMapper::KonamiSCC) => "konami-scc"@,
        Some(CartridgeMapper::Ascii8) => "ascii8"@,
        Some(CartridgeMapper::Ascii16) => "ascii16"@,
    }
}

/// What the menu calls a mapper choice.
pub fn mapper_label(m: Option<CartridgeMapper>) -> (r: &'static str)
    ensures
        r@ == choice_name(m),
{
    match m {
        None => "auto-detect",
        Some(CartridgeMapper::Plain) => "plain",
        Some(CartridgeMapper::KonamiBasic) => "konami",
        Some(CartridgeMapper::KonamiSCC) => "konami-scc",
        Some(CartridgeMapper::Ascii8) => "ascii8",
        Some(CartridgeMapper::Ascii16) => "ascii16",
    }
}

/// The menu's name of a mapper is one that the mapper is known by.
pub proof fn law_mapper_labels_parse(m: CartridgeMapper)
    ensures
        mapper_named(lowercase(choice_name(Some(m)))) == Some(m),
{
    reveal_strlit("plain");
    reveal_strlit("konami");
    reveal_strlit("konami-scc");
    reveal_strlit("scc");
    reveal_strlit("ascii8");
    reveal_strlit("ascii16");
    let s = choice_name(Some(m));
    assert(lowercase(s) =~= s);
    assert("plain"@.len() == 5 && "konami"@.len() == 6 && "konami-scc"@.len() == 10);
    assert("scc"@.len() == 3 && "ascii8"@.len() == 6 && "ascii16"@.len() == 7);
    assert("ascii8"@[0] == 'a' && "konami"@[0] == 'k');
}

} // verus!
