//! What the commands of the controller do to its registers, its head and the disk.
#[allow(unused_imports)]
use crate::fdc::{drained, fed_all, lemma_drain, lemma_feed, read_on, Disk, FdcState, Flow};
use vstd::prelude::*;

verus! {

/// Bytes of an image before a sector, by the numbers of its track, side and sector:
/// the sectors of a track lie side by side, and an image of 368640 bytes has only
/// one side.
pub open spec fn sector_start(length: int, track: int, side: int, sector: int) -> int {
    if length == 368640 {
        512 * (9 * track + sector - 1)
    } else {
        512 * (18 * track + 9 * side + sector - 1)
    }
}

/// Drive A is selected and holds a disk with the given sector.
pub open spec fn holds_sector(s: FdcState, track: int, side: int, sector: int) -> bool {
    &&& s.disk is Some
    &&& s.drive % 2 == 0
    &&& 1 <= sector <= 9
    &&& side == 0 || (side == 1 && s.disk->Some_0.data.len() != 368640)
    &&& sector_start(s.disk->Some_0.data.len() as int, track, side, sector) + 512
        <= s.disk->Some_0.data.len()
}

proof fn lemma_set_bits(b: u8)
    by (bit_vector)
    ensures
        b / 128 == 0 ==> b | 0x80 == b + 128,
        (b / 4) % 2 == 0 ==> b | 0x04 == b + 4,
        (b / 2) % 2 == 0 ==> b | 0x02 == b + 2,
{
}

proof fn lemma_place(s: FdcState)
    requires
        s.wf(),
    ensures
        s.place() is Some <==> holds_sector(s, s.track as int, s.side as int, s.sector as int),
        s.place() matches Some(at) ==> at == sector_start(
            s.disk->Some_0.data.len() as int,
            s.track as int,
            s.side as int,
            s.sector as int,
        ),
{
    if s.disk is Some {
        let d = s.disk->Some_0;
        let n = s.track * d.sides;
        assert(n == s.track * 1 || n == s.track * 2) by (nonlinear_arith)
            requires
                n == s.track * d.sides,
                d.sides == 1 || d.sides == 2,
        ;
        if d.sides == 1 {
            assert(n == s.track) by (nonlinear_arith)
                requires
                    n == s.track * d.sides,
                    d.sides == 1,
            ;
        } else {
            assert(n == 2 * s.track) by (nonlinear_arith)
                requires
                    n == s.track * d.sides,
                    d.sides == 2,
            ;
        }
    }
}

/// A register that was written reads back: the track, the sector and the drive as
/// they were written, the side as bit 0. No other register but the status reads
/// differently, and a write to the request register does nothing.
pub proof fn law_registers_read_back(s: FdcState, r: int, value: u8)
    requires
        r == 1 || r == 2 || r == 4 || r == 5 || r == 6 || r == 7,
    ensures
        ({
            let t = s.after_write(r, value);
            &&& r == 1 || r == 2 || r == 5 ==> t.value(r) == value
            &&& r == 4 ==> t.value(4) == value % 2
            &&& r >= 6 ==> t == s
            &&& forall|q: int| 1 <= q <= 7 && q != r ==> #[trigger] t.value(q) == s.value(q)
            &&& t.disk == s.disk
            &&& t.data == s.data
        }),
{
}

/// The data register reads back what was written to it, unless bytes of a sector
/// are on their way to the CPU.
pub proof fn law_data_reads_back(s: FdcState, value: u8)
    requires
        s.wf(),
    ensures
        s.after_write(3, value).data == value,
        s.flow !is Read ==> s.after_write(3, value).value(3) == value,
        forall|q: int|
            q == 1 || q == 2 || q == 4 || q == 5 ==> #[trigger] s.after_write(3, value).value(q)
                == s.value(q),
{
}

/// A command leaves the sector, side, drive and data registers and the disk as
/// they were; only the commands below 0x80 change the track. Reads change no
/// register but the data that they take.
pub proof fn law_commands_keep_the_rest(s: FdcState, cmd: u8, r: int)
    ensures
        ({
            let t = s.after_write(0, cmd);
            &&& t.sector == s.sector
            &&& t.side == s.side
            &&& t.drive == s.drive
            &&& t.data == s.data
            &&& t.disk == s.disk
            &&& cmd >= 0x80 ==> t.track == s.track
        }),
        ({
            let t = s.after_read(r);
            &&& t.track == s.track
            &&& t.sector == s.sector
            &&& t.side == s.side
            &&& t.drive == s.drive
            &&& t.disk == s.disk
            &&& r != 3 || s.flow !is Read ==> t.data == s.data
            &&& r != 3 ==> t.flow == s.flow
            &&& r == 3 && s.flow is Read ==> t.data == s.value(3)
        }),
{
}

/// The commands that move the head. RESTORE (0x00-0x0F) takes it to track 0 and
/// SEEK (0x10-0x1F) to the track in the data register. STEP and STEP IN (0x20-0x5F)
/// go one track inwards and STEP OUT (0x60-0x7F) one outwards, within 0 to 255. All
/// of them raise INTRQ and leave the transfer alone.
pub proof fn law_head_commands(s: FdcState, cmd: u8)
    requires
        cmd < 0x80,
    ensures
        ({
            let t = s.after_write(0, cmd);
            &&& cmd < 0x10 ==> t.value(1) == 0
            &&& 0x10 <= cmd < 0x20 ==> t.value(1) == s.data
            &&& 0x20 <= cmd < 0x60 ==> t.value(1) == (if s.value(1) == 255 {
                255
            } else {
                s.value(1) + 1
            })
            &&& 0x60 <= cmd ==> t.value(1) == (if s.value(1) == 0 {
                0
            } else {
                s.value(1) - 1
            })
            &&& t.intrq
            &&& t.value(6) / 64 % 2 == 0
            &&& t.flow == s.flow
        }),
{
}

/// After a head command the status register has bit 5 up, bit 2 on track 0, bit 7
/// without a disk in drive A, and bit 1 on every other read; a read of it drops
/// INTRQ.
pub proof fn law_head_status(s: FdcState, cmd: u8)
    requires
        cmd < 0x80,
    ensures
        ({
            let t = s.after_write(0, cmd);
            let ready = s.disk is Some && s.drive % 2 == 0;
            let again = t.after_read(0);
            let fixed = 32 + (if ready {
                0int
            } else {
                128
            }) + (if t.value(1) == 0 {
                4int
            } else {
                0
            });
            &&& t.value(0) == fixed + (if s.index {
                0int
            } else {
                2
            })
            &&& again.value(0) == fixed + (if s.index {
                2int
            } else {
                0
            })
            &&& again.after_read(0).value(0) == t.value(0)
            &&& !again.intrq && again.value(6) / 64 % 2 == 1
        }),
{
    lemma_set_bits(0x20);
    lemma_set_bits(0xA0);
    lemma_set_bits(0x24);
    lemma_set_bits(0xA4);
}

/// SEEK to a track, then a sector command: the head is on the track that was last
/// written to the data register, INTRQ is up, and the sector that is read is the one
/// with that track, the side and the sector of the registers.
pub proof fn law_seek_then_read(s: FdcState, track: u8, seek: u8, read: u8, n: int)
    requires
        s.wf(),
        s.flow is Idle,
        0x10 <= seek < 0x20,
        0x80 <= read < 0xA0,
        0 <= n <= 512,
    ensures
        ({
            let t = s.after_write(3, track).after_write(0, seek);
            let u = t.after_write(0, read);
            let start = sector_start(
                s.disk->Some_0.data.len() as int,
                track as int,
                s.side as int,
                s.sector as int,
            );
            &&& t.value(1) == track
            &&& t.intrq
            &&& !holds_sector(s, track as int, s.side as int, s.sector as int) ==> u.value(0)
                / 16 % 2 == 1 && u.intrq && u.flow is Idle
            &&& holds_sector(s, track as int, s.side as int, s.sector as int) ==> {
                &&& u.value(0) == 3
                &&& u.value(6) == 0x7F
                &&& drained(u, n) == s.disk->Some_0.data.subrange(start, start + n)
                &&& n == 512 ==> read_on(u, n).value(0) == 0 && read_on(u, n).value(6) == 0xBF
            }
        }),
{
    let t = s.after_write(3, track).after_write(0, seek);
    let u = t.after_write(0, read);
    lemma_place(FdcState { intrq: false, ..t });
    lemma_set_bits(0x10);
    lemma_set_bits(0x01);
    lemma_set_bits(0x00);
    if holds_sector(s, track as int, s.side as int, s.sector as int) {
        let start = t.place()->Some_0;
        let buffer = s.disk->Some_0.data.subrange(start, start + 512);
        lemma_drain(u, buffer, 0, n);
        assert(buffer.subrange(0, n) =~= s.disk->Some_0.data.subrange(start, start + n));
    }
}

/// SEEK to a track, then WRITE SECTOR and 512 bytes: they become the sector with that
/// track, the side and the sector of the registers, and every other byte of the
/// disk stays.
pub proof fn law_seek_then_write(s: FdcState, track: u8, seek: u8, write: u8, bytes: Seq<u8>)
    requires
        s.wf(),
        s.flow is Idle,
        0x10 <= seek < 0x20,
        0xA0 <= write < 0xC0,
        bytes.len() == 512,
        holds_sector(s, track as int, s.side as int, s.sector as int),
    ensures
        ({
            let t = s.after_write(3, track).after_write(0, seek).after_write(0, write);
            let u = fed_all(t, bytes);
            let before = s.disk->Some_0.data;
            let after = u.disk->Some_0.data;
            let start = sector_start(
                before.len() as int,
                track as int,
                s.side as int,
                s.sector as int,
            );
            &&& t.value(0) == 3 && t.value(6) == 0x7F
            &&& u.value(0) == 0 && u.value(6) == 0xBF
            &&& u.disk is Some
            &&& after.len() == before.len()
            &&& forall|k: int| 0 <= k < 512 ==> #[trigger] after[start + k] == bytes[k]
            &&& forall|i: int|
                0 <= i < before.len() && !(start <= i < start + 512) ==> after[i] == before[i]
        }),
{
    let t = s.after_write(3, track).after_write(0, seek);
    lemma_place(FdcState { intrq: false, ..t });
    lemma_set_bits(0x01);
    lemma_set_bits(0x00);
    let w = t.after_write(0, write);
    let at = t.place()->Some_0;
    lemma_feed(w, bytes, at, Seq::empty());
    assert(Seq::<u8>::empty() + bytes =~= bytes);
    lemma_feed_keeps_kind(w, bytes);
}

/// Bytes to the data register leave the form of the status alone.
proof fn lemma_feed_keeps_kind(s: FdcState, bytes: Seq<u8>)
    ensures
        fed_all(s, bytes).type1 == s.type1,
        fed_all(s, bytes).drive == s.drive,
    decreases bytes.len(),
{
    if bytes.len() > 0 {
        lemma_feed_keeps_kind(s.fed(bytes[0]), bytes.skip(1));
    }
}

/// A sector command works on the sector that the track, side and sector registers
/// name. It finds none past the ninth of a track, on a second side that the disk
/// lacks, past the end of the image, in drive B or in an empty drive: then bit 4 of
/// the status is up, and so is INTRQ.
pub proof fn law_sector_commands_find(s: FdcState, cmd: u8)
    requires
        s.wf(),
        0x80 <= cmd < 0xC0,
    ensures
        ({
            let t = s.after_write(0, cmd);
            let found = holds_sector(s, s.track as int, s.side as int, s.sector as int);
            let start = sector_start(
                s.disk->Some_0.data.len() as int,
                s.track as int,
                s.side as int,
                s.sector as int,
            );
            &&& found ==> !t.intrq && t.value(0) == 3 && t.value(6) == 0x7F
            &&& found && cmd < 0xA0 ==> t.flow == (Flow::Read {
                buffer: s.disk->Some_0.data.subrange(start, start + 512),
                pos: 0,
            })
            &&& found && cmd >= 0xA0 ==> t.flow == (Flow::Write {
                buffer: Seq::empty(),
                offset: start,
            })
            &&& !found ==> t.intrq && t.value(0) / 16 % 2 == 1 && t.flow == s.flow
        }),
{
    lemma_place(FdcState { intrq: false, ..s });
    lemma_set_bits(0x10);
    lemma_set_bits(0x90);
    lemma_set_bits(0x01);
}

/// READ ADDRESS (0xC0-0xCF) sends six bytes: track, side, sector, 2 for 512 bytes,
/// and two zeros.
pub proof fn law_read_address(s: FdcState, cmd: u8)
    requires
        0xC0 <= cmd < 0xD0,
    ensures
        ({
            let t = s.after_write(0, cmd);
            &&& drained(t, 6) == seq![s.value(1), s.value(4), s.value(2), 2u8, 0u8, 0u8]
            &&& t.value(6) == 0x7F
            &&& read_on(t, 6).value(6) == 0xBF
        }),
{
    let t = s.after_write(0, cmd);
    let b = seq![s.track, s.side, s.sector, 2u8, 0u8, 0u8];
    lemma_drain(t, b, 0, 6);
    assert(b.subrange(0, 6) =~= b);
}

/// FORCE INTERRUPT (0xD0-0xDF) ends a transfer with INTRQ up. READ TRACK (0xE0-0xEF)
/// sends nothing and raises INTRQ.
pub proof fn law_interrupt_and_read_track(s: FdcState, cmd: u8)
    requires
        0xD0 <= cmd < 0xF0,
    ensures
        ({
            let t = s.after_write(0, cmd);
            &&& t.intrq
            &&& cmd < 0xE0 ==> t.flow is Idle && t.value(6) == 0xBF
            &&& cmd >= 0xE0 ==> t.flow == s.flow
        }),
{
}

/// WRITE TRACK (0xF0-0xFF) takes 6250 bytes, asks for each of them, and leaves the
/// disk as it was.
pub proof fn law_write_track(s: FdcState, cmd: u8, bytes: Seq<u8>)
    requires
        0xF0 <= cmd,
        bytes.len() <= 6250,
    ensures
        ({
            let t = fed_all(s.after_write(0, cmd), bytes);
            &&& t.disk == s.disk
            &&& bytes.len() < 6250 ==> t.value(6) == 0x7F && !t.intrq
            &&& bytes.len() == 6250 ==> t.value(6) == 0xBF && t.intrq
        }),
{
    lemma_format(s.after_write(0, cmd), 0, bytes);
}

proof fn lemma_format(s: FdcState, count: int, bytes: Seq<u8>)
    requires
        s.flow == (Flow::Format { count }),
        !s.intrq,
        0 <= count < 6250,
        bytes.len() + count <= 6250,
    ensures
        ({
            let t = fed_all(s, bytes);
            &&& t.disk == s.disk
            &&& bytes.len() + count < 6250 ==> t.flow is Format && !t.intrq
            &&& bytes.len() + count == 6250 ==> t.flow is Idle && t.intrq
        }),
    decreases bytes.len(),
{
    if bytes.len() > 0 {
        let t = s.fed(bytes[0]);
        if count + 1 < 6250 {
            lemma_format(t, count + 1, bytes.skip(1));
        } else {
            assert(bytes.skip(1).len() == 0);
            assert(fed_all(t, bytes.skip(1)) == t);
        }
    }
}

/// At power-on the head is on track 0, the sector register holds 1, and no request
/// is up.
pub proof fn law_power_on_registers(disk: Option<Disk>)
    ensures
        ({
            let s = FdcState::power_on(disk);
            &&& s.value(1) == 0
            &&& s.value(2) == 1
            &&& s.value(3) == 0
            &&& s.value(4) == 0
            &&& s.value(5) == 0
            &&& s.value(6) == 0xFF
            &&& s.disk == disk
        }),
{
}

/// What the status register shows in every state. Bit 7 is up without a disk in drive A. After a
/// head command or FORCE INTERRUPT bit 2 is up on track 0 and bit 1 outside the index pulse;
/// after any other command bit 1 is up while a byte is asked for or offered.
pub proof fn law_status_register(s: FdcState)
    requires
        s.wf(),
    ensures
        ({
            let st = s.value(0);
            let ready = s.disk is Some && s.drive % 2 == 0;
            &&& st >= 128 <==> !ready
            &&& (st / 4) % 2 == 1 <==> s.type1 && s.track == 0
            &&& (st / 2) % 2 == 1 <==> (if s.type1 {
                !s.index
            } else {
                s.flow !is Idle
            })
            &&& st % 2 == 1 <==> s.status == 1
            &&& (st / 16) % 2 == 1 <==> s.status == 0x10
            &&& (st / 32) % 2 == 1 <==> s.status == 0x20
            &&& (st / 8) % 2 == 0 && (st / 64) % 2 == 0
        }),
{
    let a = s.status;
    lemma_set_bits(a);
    lemma_set_bits((a + 128) as u8);
    lemma_set_bits((a + 4) as u8);
    lemma_set_bits((a + 132) as u8);
}

/// Which form of the status a command leaves, and what it finds: the head is loaded after a head
/// command; a transfer of a sector is busy.
pub proof fn law_commands_and_status(s: FdcState, cmd: u8)
    requires
        s.wf(),
    ensures
        ({
            let t = s.after_write(0, cmd);
            &&& t.type1 <==> cmd < 0x80 || 0xD0 <= cmd < 0xE0
            &&& cmd < 0x80 ==> t.status == 0x20
            &&& 0x80 <= cmd < 0xC0 ==> t.status == 1 || t.status == 0x10
            &&& cmd >= 0xC0 ==> t.status == 0
            &&& t.index == s.index
            &&& !t.intrq <==> (cmd >= 0xF0 || 0xC0 <= cmd < 0xD0 || (0x80 <= cmd < 0xC0 && t.status
                == 1))
        }),
{
}

/// The request register: bit 7 is down while a byte is asked for or offered, bit 6 while INTRQ is
/// up, and all others are up.
pub proof fn law_request_register(s: FdcState)
    ensures
        s.value(6) == s.value(7),
        s.value(6) == 63 + (if s.flow is Idle {
            128int
        } else {
            0
        }) + (if s.intrq {
            0int
        } else {
            64
        }),
{
}

} // verus!
