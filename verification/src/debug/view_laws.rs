//! What the debugger shows.
#[allow(unused_imports)]
use crate::debug::{
    bases_of, bytes_text, flags_line, interrupt_line, memory_row, mode_name, register_cell,
    row_bytes, row_of, rows_shown, shown, sprite_summary, sprites_from, status_words, vdp_summary,
    words, CpuRegs, SpriteRow, TableBases, TraceState,
};
#[allow(unused_imports)]
use crate::text::format_laws::{law_decimal_reads_back, law_hex_reads_back, number_of};
#[allow(unused_imports)]
use crate::text::{decimal, hex};
#[allow(unused_imports)]
use crate::vdp::sprites;
use vstd::prelude::*;

verus! {

proof fn lemma_flag_bits(f: u8)
    by (bit_vector)
    ensures
        (f & 0x80 != 0) == (f >= 128),
        (f & 0x40 != 0) == ((f / 64) % 2 == 1),
        (f & 0x10 != 0) == ((f / 16) % 2 == 1),
        (f & 0x04 != 0) == ((f / 4) % 2 == 1),
        (f & 0x02 != 0) == ((f / 2) % 2 == 1),
        (f & 0x01 != 0) == (f % 2 == 1),
{
}

/// The line of flags has the letters of bits 7, 6, 4, 2 and 0 two apart, in upper case where the
/// bit is up.
pub proof fn law_flag_letters(f: u8)
    ensures
        ({
            let s = flags_line(f);
            &&& s.len() == 15
            &&& s[6] == (if f >= 128 {
                'S'
            } else {
                's'
            })
            &&& s[8] == (if (f / 64) % 2 == 1 {
                'Z'
            } else {
                'z'
            })
            &&& s[10] == (if (f / 16) % 2 == 1 {
                'H'
            } else {
                'h'
            })
            &&& s[12] == (if (f / 4) % 2 == 1 {
                'P'
            } else {
                'p'
            })
            &&& s[14] == (if f % 2 == 1 {
                'C'
            } else {
                'c'
            })
        }),
{
    reveal_strlit("flags ");
    lemma_flag_bits(f);
}

proof fn lemma_byte_digits(b: u8)
    ensures
        hex(b as nat, 2).len() == 2,
{
    reveal_with_fuel(hex, 4);
}

/// The line of interrupt state has I in places 2 and 3, R in places 7 and 8, the interrupt mode
/// in place 13 and the two flip-flops in places 19 and 20, and is longer in a halt.
pub proof fn law_interrupt_places(c: CpuRegs)
    requires
        c.im < 10,
    ensures
        ({
            let s = interrupt_line(c);
            &&& number_of(s.subrange(2, 4), 16) == c.i
            &&& number_of(s.subrange(7, 9), 16) == c.r
            &&& number_of(s.subrange(13, 14), 10) == c.im
            &&& s[19] == (if c.iff1 {
                '1'
            } else {
                '0'
            })
            &&& s[20] == (if c.iff2 {
                '1'
            } else {
                '0'
            })
            &&& s.len() == (if c.halt {
                27int
            } else {
                23
            })
        }),
{
    reveal_strlit("I=");
    reveal_strlit(" R=");
    reveal_strlit("  IM");
    reveal_strlit("  IFF");
    reveal_strlit("1");
    reveal_strlit("0");
    reveal_strlit("  HALT");
    reveal_strlit("  ");
    lemma_byte_digits(c.i);
    lemma_byte_digits(c.r);
    law_hex_reads_back(c.i as nat, 2);
    law_hex_reads_back(c.r as nat, 2);
    law_decimal_reads_back(c.im as int);
    let s = interrupt_line(c);
    assert(s.subrange(2, 4) =~= hex(c.i as nat, 2));
    assert(s.subrange(7, 9) =~= hex(c.r as nat, 2));
    assert(s.subrange(13, 14) =~= decimal(c.im as int));
}

/// Every instruction moves the trail up by one. A program counter below 0x10 right after one from
/// 0x100 on is a reboot.
pub proof fn law_trail_moves(t: TraceState, pc: u16, k: int)
    requires
        t.recent.len() == 64,
        0 <= k < 63,
    ensures
        t.recorded(pc).recent[k] == t.recent[k + 1],
        t.recorded(pc).recent[63] == pc,
        t.reboots(pc) <==> pc < 0x10 && t.last >= 0x100,
        t.recorded(pc).last == pc,
{
}

/// The list of sprites has four bytes for each: Y, X, pattern and colour. It ends with the first
/// whose Y is 208, with the 32nd, or where VRAM ends.
pub proof fn law_sprite_list(vram: Seq<u8>, table: int, i: int, k: int)
    requires
        0 <= table,
        0 <= i <= 32,
        0 <= k,
    ensures
        ({
            let s = sprites_from(vram, table, i);
            let a = table + 4 * (i + k);
            &&& k < s.len() <==> i + k < 32 && a + 3 < vram.len() && forall|j: int|
                i <= j < i + k ==> #[trigger] vram[table + 4 * j] != 208
            &&& k < s.len() ==> s[k] == (SpriteRow {
                y: vram[a],
                x: vram[a + 1],
                pattern: vram[a + 2],
                colour: vram[a + 3],
            })
        }),
    decreases 32 - i,
{
    let base = table + i * 4;
    if i < 32 && base + 3 < vram.len() {
        if k > 0 {
            law_sprite_list(vram, table, i + 1, k - 1);
            assert(vram[table + 4 * i] == vram[base]);
            let s = sprites_from(vram, table, i);
            if vram[base] != 208 {
                assert(s.skip(1) =~= sprites_from(vram, table, i + 1));
            }
        }
    }
}

/// A row of memory starts with its address in five digits, and ends with its bytes as
/// characters, those that do not print as dots.
pub proof fn law_memory_rows_end(addr: int, bytes: Seq<u8>, k: int)
    requires
        0 <= addr,
        0 <= k < bytes.len(),
    ensures
        ({
            let s = memory_row(addr, bytes);
            let c = s[s.len() - bytes.len() + k];
            &&& 0x20 <= bytes[k] < 0x7F ==> c as int == bytes[k]
            &&& !(0x20 <= bytes[k] < 0x7F) ==> c == '.'
        }),
{
}

/// A row has the 16 bytes from its address on, as far as there are. Row `k` of a page is shown
/// where `k` is below 16 and it starts within memory.
pub proof fn law_memory_pages(vram: Seq<u8>, addr: int, k: int)
    requires
        0 <= addr,
        0 <= k,
    ensures
        k < rows_shown(vram.len() as int, addr) <==> k < 16 && addr + 16 * k < vram.len(),
        addr + k < vram.len() && k < 16 ==> row_bytes(vram, addr).len() > k && row_bytes(
            vram,
            addr,
        )[k] == vram[addr + k],
        addr < vram.len() ==> row_bytes(vram, addr).len() <= 16,
{
}

proof fn lemma_word_digits(n: u16)
    ensures
        hex(n as nat, 4).len() == 4,
{
    reveal_with_fuel(hex, 6);
}

/// A row of program counters has five places for each: four digits and a space.
pub proof fn law_words_in_places(pcs: Seq<u16>, k: int)
    requires
        0 <= k < pcs.len(),
    ensures
        words(pcs).len() == 5 * pcs.len(),
        number_of(words(pcs).subrange(5 * k, 5 * k + 4), 16) == pcs[k],
        words(pcs)[5 * k + 4] == ' ',
    decreases pcs.len(),
{
    let rest = pcs.drop_last();
    let d = hex(pcs.last() as nat, 4);
    lemma_word_digits(pcs.last());
    law_hex_reads_back(pcs.last() as nat, 4);
    lemma_words_len(rest);
    let s = words(pcs);
    if k < rest.len() {
        law_words_in_places(rest, k);
        assert(s.subrange(5 * k, 5 * k + 4) =~= words(rest).subrange(5 * k, 5 * k + 4));
        assert(s[5 * k + 4] == words(rest)[5 * k + 4]);
    } else {
        assert(s.subrange(5 * k, 5 * k + 4) =~= d);
    }
}

proof fn lemma_words_len(pcs: Seq<u16>)
    ensures
        words(pcs).len() == 5 * pcs.len(),
    decreases pcs.len(),
{
    if pcs.len() > 0 {
        lemma_words_len(pcs.drop_last());
        lemma_word_digits(pcs.last());
    }
}

/// Row `r` of the program counters holds the eight from `8 * r` on, as far as there are.
pub proof fn law_rows_of_eight(pcs: Seq<u16>, r: int, k: int)
    requires
        0 <= r,
        0 <= k < 8,
        8 * r + k < pcs.len(),
    ensures
        row_of(pcs, r).len() > k,
        row_of(pcs, r).len() <= 8,
        row_of(pcs, r)[k] == pcs[8 * r + k],
{
}

/// The cell of a register has six places: its number is in the second and third, its value in
/// the last two.
pub proof fn law_register_cells(i: int, value: u8)
    requires
        0 <= i < 100,
    ensures
        ({
            let s = register_cell(i, value);
            &&& s.len() == 6
            &&& s[0] == 'R' && s[3] == '='
            &&& i < 10 ==> number_of(s.subrange(1, 2), 10) == i && s[2] == ' '
            &&& i >= 10 ==> number_of(s.subrange(1, 3), 10) == i
            &&& number_of(s.subrange(4, 6), 16) == value
        }),
{
    reveal_strlit("R");
    reveal_strlit(" =");
    reveal_strlit("=");
    lemma_byte_digits(value);
    law_hex_reads_back(value as nat, 2);
    law_decimal_reads_back(i);
    let s = register_cell(i, value);
    assert(s.subrange(4, 6) =~= hex(value as nat, 2));
    if i < 10 {
        assert(s.subrange(1, 2) =~= decimal(i));
    } else {
        assert(s.subrange(1, 3) =~= decimal(i));
    }
}

/// A row of status registers has six places for each: its number is in the second, its value in
/// the fourth and fifth.
pub proof fn law_status_words(status: Seq<u8>, from: int, to: int, k: int)
    requires
        0 <= from <= k < to <= 10,
    ensures
        ({
            let s = status_words(status, from, to);
            let at = 6 * (k - from);
            &&& s.len() == 6 * (to - from)
            &&& number_of(s.subrange(at + 1, at + 2), 10) == k
            &&& number_of(s.subrange(at + 3, at + 5), 16) == status[k]
        }),
    decreases to - from,
{
    reveal_strlit("S");
    reveal_strlit("=");
    let s = status_words(status, from, to);
    let rest = status_words(status, from, to - 1);
    lemma_status_len(status, from, to - 1);
    lemma_byte_digits(status[to - 1]);
    law_hex_reads_back(status[to - 1] as nat, 2);
    law_decimal_reads_back(to - 1);
    let at = 6 * (k - from);
    if k < to - 1 {
        law_status_words(status, from, to - 1, k);
        assert(s.subrange(at + 1, at + 2) =~= rest.subrange(at + 1, at + 2));
        assert(s.subrange(at + 3, at + 5) =~= rest.subrange(at + 3, at + 5));
    } else {
        assert(s.subrange(at + 1, at + 2) =~= decimal(k));
        assert(s.subrange(at + 3, at + 5) =~= hex(status[k] as nat, 2));
    }
}

proof fn lemma_status_len(status: Seq<u8>, from: int, to: int)
    requires
        0 <= from,
        to <= 10,
    ensures
        from <= to ==> status_words(status, from, to).len() == 6 * (to - from),
    decreases to - from,
{
    if from < to {
        reveal_strlit("S");
        reveal_strlit("=");
        lemma_status_len(status, from, to - 1);
        lemma_byte_digits(status[to - 1]);
        law_decimal_reads_back(to - 1);
    }
}

/// A row of memory has the address in its first five places and then the bytes, three places
/// each.
pub proof fn law_memory_rows_start(addr: int, bytes: Seq<u8>, k: int)
    requires
        0 <= addr < 0x100000,
        0 <= k < bytes.len(),
    ensures
        ({
            let s = memory_row(addr, bytes);
            &&& number_of(s.subrange(0, 5), 16) == addr
            &&& number_of(s.subrange(7 + 3 * k, 9 + 3 * k), 16) == bytes[k]
            &&& s.len() == 9 + 4 * bytes.len()
        }),
{
    reveal_strlit(": ");
    reveal_strlit("  ");
    lemma_address_digits(addr);
    law_hex_reads_back(addr as nat, 5);
    lemma_bytes_text(bytes, k);
    let s = memory_row(addr, bytes);
    assert(s.subrange(0, 5) =~= hex(addr as nat, 5));
    assert(s.subrange(7 + 3 * k, 9 + 3 * k) =~= bytes_text(bytes).subrange(3 * k, 3 * k + 2));
}

proof fn lemma_address_digits(addr: int)
    requires
        0 <= addr < 0x100000,
    ensures
        hex(addr as nat, 5).len() == 5,
{
    reveal_with_fuel(hex, 7);
}

proof fn lemma_bytes_text(bytes: Seq<u8>, k: int)
    requires
        0 <= k < bytes.len(),
    ensures
        bytes_text(bytes).len() == 3 * bytes.len(),
        number_of(bytes_text(bytes).subrange(3 * k, 3 * k + 2), 16) == bytes[k],
    decreases bytes.len(),
{
    let rest = bytes.drop_last();
    lemma_byte_digits(bytes.last());
    law_hex_reads_back(bytes.last() as nat, 2);
    lemma_bytes_len(rest);
    let s = bytes_text(bytes);
    if k < rest.len() {
        lemma_bytes_text(rest, k);
        assert(s.subrange(3 * k, 3 * k + 2) =~= bytes_text(rest).subrange(3 * k, 3 * k + 2));
    } else {
        assert(s.subrange(3 * k, 3 * k + 2) =~= hex(bytes.last() as nat, 2));
    }
}

proof fn lemma_bytes_len(bytes: Seq<u8>)
    ensures
        bytes_text(bytes).len() == 3 * bytes.len(),
    decreases bytes.len(),
{
    if bytes.len() > 0 {
        lemma_bytes_len(bytes.drop_last());
        lemma_byte_digits(bytes.last());
    }
}

/// Table addresses: R2 holds bits 16 to 10 of that of the names, R3 and R10 the bits from 6 on
/// of that of the colours, R4 bits 16 to 11 of that of the patterns. The sprite tables are where
/// the sprites are read.
pub proof fn law_table_addresses(regs: Seq<u8>)
    ensures
        ({
            let t = bases_of(regs);
            &&& t.name % 1024 == 0 && t.name as int / 1024 == regs[2] as int % 128
            &&& t.colour % 64 == 0 && t.colour as int / 64 % 256 == regs[3]
            &&& t.colour as int / 16384 == regs[10]
            &&& t.pattern % 2048 == 0 && t.pattern as int / 2048 == regs[4] as int % 64
            &&& regs[5] < 128 ==> t.sprite_attributes == sprites::attributes1(regs)
            &&& t.sprite_patterns == sprites::generator(regs)
        }),
{
}

/// The name of a graphic mode ends in the number of its screen, from the bits of R0: SCREEN 1, 2
/// and 4 to 8 in turn. Text is SCREEN 0, multicolour SCREEN 3.
pub proof fn law_screen_numbers(m5: u8, m4: u8, m3: u8)
    requires
        m5 < 2,
        m4 < 2,
        m3 < 2,
        !(m5 == 1 && m4 == 1 && m3 == 0),
    ensures
        ({
            let s = mode_name(m5, m4, m3, 0, 0);
            let n = 4 * m5 + 2 * m4 + m3;
            let c = s[s.len() - 2];
            &&& s.len() == 20
            &&& n == 0 ==> c == '1'
            &&& n == 1 ==> c == '2'
            &&& n == 2 ==> c == '4'
            &&& n == 3 ==> c == '5'
            &&& n == 4 ==> c == '6'
            &&& n == 5 ==> c == '7'
            &&& n == 7 ==> c == '8'
            &&& mode_name(0, 0, 0, 0, 1)[15] == '0'
            &&& mode_name(0, 0, 0, 1, 0)[20] == '3'
            &&& mode_name(0, 0, 0, 1, 1)[15] == '0'
        }),
{
    reveal_strlit("GRAPHIC 1 (SCREEN 1)");
    reveal_strlit("TEXT 1 (SCREEN 0)");
    reveal_strlit("MULTICOLOUR (SCREEN 3)");
    reveal_strlit("GRAPHIC 2 (SCREEN 2)");
    reveal_strlit("GRAPHIC 3 (SCREEN 4)");
    reveal_strlit("GRAPHIC 4 (SCREEN 5)");
    reveal_strlit("GRAPHIC 5 (SCREEN 6)");
    reveal_strlit("GRAPHIC 6 (SCREEN 7)");
    reveal_strlit("GRAPHIC 7 (SCREEN 8)");
    reveal_strlit("TEXT 2 (SCREEN 0:80)");
}

/// The first line on the video processor starts with PAL or NTSC; bit 6 of R1 turns the display on,
/// and bit 1 of R8 the sprites off.
pub proof fn law_summary_words(regs: Seq<u8>, pal: bool, t: TableBases)
    ensures
        ({
            let s = vdp_summary(regs, pal, t)[0];
            let at: int = if pal {
                19
            } else {
                20
            };
            &&& s[0] == (if pal {
                'P'
            } else {
                'N'
            })
            &&& s[at] == (if (regs[1] / 64) % 2 == 1 {
                'n'
            } else {
                'f'
            })
            &&& s.last() == (if (regs[8] / 2) % 2 == 1 {
                'f'
            } else {
                'n'
            })
        }),
{
    reveal_strlit("PAL/50Hz");
    reveal_strlit("NTSC/60Hz");
    reveal_strlit("  display ");
    reveal_strlit("  sprites ");
    reveal_strlit("on");
    reveal_strlit("off");
    lemma_flag_bits(regs[1]);
    lemma_flag_bits(regs[8]);
}

/// The line above the sprites ends in how large they are and whether they are magnified: bits 1
/// and 0 of R1.
pub proof fn law_sprite_words(regs: Seq<u8>)
    ensures
        ({
            let s = sprite_summary(regs);
            let n = s.len();
            &&& n > 10
            &&& s[n - 2] == (if regs[1] % 2 == 1 {
                '2'
            } else {
                '1'
            })
            &&& s[n - 10] == (if (regs[1] / 2) % 2 == 1 {
                '6'
            } else {
                '8'
            })
        }),
{
    reveal_strlit("SAT @ ");
    reveal_strlit("   size ");
    reveal_strlit("16×16");
    reveal_strlit("8×8");
    reveal_strlit("   mag ");
    reveal_strlit("2×");
    reveal_strlit("1×");
    lemma_flag_bits(regs[1]);
}

} // verus!
