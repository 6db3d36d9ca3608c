//! What the machine reads at its addresses and ports, and what its ports do.
#[allow(unused_imports)]
use crate::archive::unzipped;
#[allow(unused_imports)]
use crate::bus::{cartridge_state, image, machine_slots, BusState, CbiosRoms, MachineRoms};
#[allow(unused_imports)]
use crate::fdc::{disk_of, FdcState};
#[allow(unused_imports)]
use crate::rtc::RtcState;
#[allow(unused_imports)]
use crate::slot::cartridge::{AsciiState, KonamiSccState, KonamiState};
#[allow(unused_imports)]
use crate::slot::mapper::{detected, CartridgeMapper};
#[allow(unused_imports)]
use crate::slot::page_laws::bits_for;
#[allow(unused_imports)]
use crate::slot::storage::MappedState;
#[allow(unused_imports)]
use crate::slot::{law_with_mapper, lemma_mapper_wf, SlotState};
#[allow(unused_imports)]
use crate::sound::SoundWrite;
#[allow(unused_imports)]
use crate::vdp::VdpState;
use vstd::prelude::*;

verus! {

/// The byte of an image that starts at an address; 0xFF outside it.
pub open spec fn image_byte(rom: Seq<u8>, start: int, addr: int) -> u8 {
    if start <= addr < start + rom.len() {
        rom[addr - start]
    } else {
        0xFF
    }
}

/// Where the generic machine has its memory: the BIOS from 0 on in slot 0, the cartridge in
/// slot 1, BASIC from 0x4000 on in slot 2. Slot 3 is expanded: nothing in its first
/// subslot, the extension ROM from 0 on in the second, the FM ROM from 0x4000 on in the
/// third, and RAM in the fourth.
pub proof fn law_generic_machine(cbios: CbiosRoms, cartridge: SlotState, addr: int)
    requires
        0 <= addr < 65536,
    ensures
        ({
            let s = machine_slots(cbios, MachineRoms::CBios, cartridge);
            let x = s[3]->Subslotted_0;
            &&& s.len() == 4
            &&& s[0].read(addr) == image_byte(cbios.main@, 0, addr)
            &&& s[1] == cartridge
            &&& s[2].read(addr) == image_byte(cbios.basic@, 0x4000, addr)
            &&& s[3] is Subslotted && x.subs.len() == 4 && x.reg == 0
            &&& x.subs[0].read(addr) == 0xFF
            &&& x.subs[1].read(addr) == image_byte(cbios.sub@, 0, addr)
            &&& x.subs[2].read(addr) == image_byte(cbios.music@, 0x4000, addr)
            &&& x.subs[3] == SlotState::MappedRam(MappedState::power_on())
        }),
{
}

/// Where the Philips has its memory: the BIOS from 0 on in slot 0, the cartridge in slot 1,
/// an FM ROM from 0x4000 on in slot 2. Slot 3 is expanded: the extension ROM from 0 on in
/// its first subslot, RAM in the third, and in the fourth the disk interface with the
/// disk that is in it, if there is one.
pub proof fn law_philips(
    cbios: CbiosRoms,
    main: Vec<u8>,
    ext: Vec<u8>,
    disk: Option<Vec<u8>>,
    disk_image: Option<Vec<u8>>,
    fmpac: Option<Vec<u8>>,
    cartridge: SlotState,
    addr: int,
)
    requires
        0 <= addr < 65536,
    ensures
        ({
            let m = MachineRoms::Nms8245 { main, ext, disk, disk_image, fmpac };
            let s = machine_slots(cbios, m, cartridge);
            let x = s[3]->Subslotted_0;
            &&& s.len() == 4
            &&& s[0].read(addr) == image_byte(main@, 0, addr)
            &&& s[1] == cartridge
            &&& fmpac is Some ==> s[2].read(addr) == image_byte(fmpac->Some_0@, 0x4000, addr)
            &&& fmpac is None ==> s[2].read(addr) == image_byte(cbios.music@, 0x4000, addr)
            &&& s[3] is Subslotted && x.subs.len() == 4 && x.reg == 0
            &&& x.subs[0].read(addr) == image_byte(ext@, 0, addr)
            &&& x.subs[1].read(addr) == 0xFF
            &&& x.subs[2] == SlotState::MappedRam(MappedState::power_on())
            &&& disk is None ==> x.subs[3] == SlotState::Empty
            &&& disk is Some ==> {
                let d = x.subs[3]->DiskRom_0;
                &&& x.subs[3] is DiskRom
                &&& !(0x7FF8 <= addr < 0x8000) ==> d.read(addr) == image_byte(
                    disk->Some_0@,
                    0x4000,
                    addr,
                )
                &&& disk_image is None ==> d.fdc == FdcState::power_on(None)
                &&& disk_image is Some ==> d.fdc == FdcState::power_on(
                    Some(disk_of(disk_image->Some_0@)),
                )
            }
        }),
{
}

/// A cartridge is unpacked and gets the mapper that is forced, or else the one that its
/// stores speak for. One without a mapper starts at 0x4000. No cartridge is an empty slot.
pub proof fn law_cartridges(bytes: Seq<u8>, forced: Option<CartridgeMapper>, addr: int)
    requires
        0 <= addr < 65536,
    ensures
        ({
            let rom = unzipped(bytes);
            let m = if forced is Some {
                forced->Some_0
            } else {
                detected(rom)
            };
            let s = cartridge_state(Some(bytes), forced);
            &&& m == CartridgeMapper::Plain ==> s.read(addr) == image_byte(rom, 0x4000, addr)
            &&& m == CartridgeMapper::KonamiBasic ==> s == SlotState::Konami(
                KonamiState::power_on(rom),
            )
            &&& m == CartridgeMapper::KonamiSCC ==> s == SlotState::KonamiScc(
                KonamiSccState::power_on(rom, true),
            )
            &&& m == CartridgeMapper::Ascii8 ==> s == SlotState::Ascii8(AsciiState::power_on8(rom))
            &&& m == CartridgeMapper::Ascii16 ==> s == SlotState::Ascii16(
                AsciiState::power_on16(rom),
            )
            &&& cartridge_state(None, forced) == SlotState::Empty
        }),
{
}

/// A write to port 0xA8 selects the slots: each page then reads from the slot that its two
/// bits name. It moves no memory, and reads back.
pub proof fn law_slot_port(s: BusState, value: u8, page: int, offset: int, secs: int)
    requires
        s.wf(),
        0 <= page < 4,
        0 <= offset < 16384,
    ensures
        ({
            let t = s.after_out(0xA8, value);
            let addr = page * 16384 + offset;
            &&& t.slots.read(addr) == s.slots.slots[bits_for(value, page)].read(addr)
            &&& t.slots.slots == s.slots.slots
            &&& t.port_value(0xA8, secs) == value
            &&& t.vdp == s.vdp && t.keyboard == s.keyboard && t.rtc == s.rtc && t.sound == s.sound
        }),
{
}

/// The keyboard: port 0xAA selects a row by its low four bits, port 0xA9 reads it.
pub proof fn law_keyboard_ports(s: BusState, value: u8, secs: int)
    requires
        s.wf(),
    ensures
        ({
            let t = s.after_out(0xAA, value);
            let row = value as int % 16;
            &&& t.port_value(0xA9, secs) == (if row < 11 {
                s.keyboard.rows[row]
            } else {
                0xFF
            })
            &&& t.keyboard.rows == s.keyboard.rows
            &&& t.slots == s.slots && t.vdp == s.vdp && t.rtc == s.rtc && t.sound == s.sound
        }),
{
}

/// The clock: port 0xB4 selects a register by its low four bits, port 0xB5 reads and writes
/// it.
pub proof fn law_clock_ports(s: BusState, reg: u8, value: u8, secs: int)
    requires
        s.wf(),
    ensures
        ({
            let t = s.after_out(0xB4, reg);
            let u = t.after_out(0xB5, value);
            &&& t.rtc == (RtcState { reg: reg % 16, ..s.rtc })
            &&& t.port_value(0xB5, secs) == t.rtc.value(secs)
            &&& u.rtc == t.rtc.written(value)
            &&& u.slots == s.slots && u.vdp == s.vdp && u.keyboard == s.keyboard && u.sound
                == s.sound
        }),
{
}

/// The RAM mapper: ports 0xFC to 0xFF hold the banks of the four pages, four bits each.
#[verifier::rlimit(50)]
pub proof fn law_mapper_ports(s: BusState, page: int, value: u8, secs: int, addr: int)
    requires
        s.wf(),
        0 <= page < 4,
        0 <= addr < 65536,
        s.slots.mapper() is Some,
    ensures
        ({
            let port = (0xFC + page) as u8;
            let t = s.after_out(port, value);
            let m = s.slots.mapper()->Some_0;
            &&& t.slots.mapper() is Some
            &&& t.port_value(port, secs) == 0xF0 + value % 16
            &&& t.slots.mapper()->Some_0.ram == m.ram
            &&& t.slots.mapper()->Some_0.read(addr) == (if addr / 16384 == page {
                m.ram[(value % 16) * 16384 + addr % 16384]
            } else {
                m.read(addr)
            })
            &&& t.slots.reg == s.slots.reg
            &&& t.vdp == s.vdp && t.keyboard == s.keyboard && t.rtc == s.rtc && t.sound == s.sound
        }),
{
    let m = s.slots.mapper()->Some_0;
    lemma_mapper_wf(s.slots);
    law_with_mapper(s.slots, m.with_bank(page, value));
}

/// The video processor is behind ports 0x98 to 0x9B: data, status or control, palette, and
/// registers by the pointer in R17.
pub proof fn law_video_ports(s: BusState, value: u8, secs: int)
    requires
        s.wf(),
    ensures
        s.port_value(0x98, secs) == s.vdp.data(),
        s.port_value(0x99, secs) == s.vdp.status(),
        s.after_in(0x98) == (BusState { vdp: s.vdp.after_data_read(), ..s }),
        s.after_in(0x99) == (BusState { vdp: s.vdp.after_status_read(), ..s }),
        s.after_out(0x98, value) == (BusState { vdp: s.vdp.after_data_write(value), ..s }),
        s.after_out(0x99, value) == (BusState { vdp: s.vdp.after_control(value), ..s }),
        s.after_out(0x9A, value) == (BusState { vdp: s.vdp.after_palette(value), ..s }),
        s.after_out(0x9B, value) == (BusState { vdp: s.vdp.after_indirect(value), ..s }),
{
}

/// The sound chips get their writes in order: those of ports 0x7C and 0x7D go to ports 0 and 1
/// of the FM generator, and those of port 0xA1 to the register of the sound generator that
/// port 0xA0 selected.
pub proof fn law_sound_ports(s: BusState, reg: u8, value: u8)
    requires
        s.wf(),
    ensures
        s.after_out(0x7C, value) == (BusState {
            sound: s.sound.push(SoundWrite::Fm { port: 0, value }),
            ..s
        }),
        s.after_out(0x7D, value) == (BusState {
            sound: s.sound.push(SoundWrite::Fm { port: 1, value }),
            ..s
        }),
        s.after_out(0xA0, reg).sound == s.sound,
        s.after_out(0xA0, reg).after_out(0xA1, value).sound == s.sound.push(
            SoundWrite::Psg { reg, value },
        ),
        s.after_out(0xA1, value).slots == s.slots && s.after_out(0xA1, value).vdp == s.vdp,
{
}

/// There is nothing behind the other ports: they read as 0xFF and take no writes.
pub proof fn law_other_ports(s: BusState, port: u8, value: u8, secs: int)
    requires
        s.wf(),
        port < 0xFC,
        !(0x98 <= port <= 0x9B),
        port != 0x7C && port != 0x7D && port != 0xA0 && port != 0xA1,
        port != 0xA8 && port != 0xA9 && port != 0xAA && port != 0xB4 && port != 0xB5,
    ensures
        s.port_value(port, secs) == 0xFF,
        s.port_value_unset(port) == 0xFF,
        s.after_in(port) == s,
        s.after_out(port, value) == s,
{
}

/// A memory write goes to the slot that shows at its address, and on to the SCC where that
/// takes it. No other device notices.
pub proof fn law_memory_writes(s: BusState, page: int, offset: int, value: u8)
    requires
        s.wf(),
        0 <= page < 4,
        0 <= offset < 16384,
    ensures
        ({
            let addr = page * 16384 + offset;
            let i = bits_for(s.slots.reg, page);
            let t = s.written(addr, value);
            let heard = s.slots.slots[i].scc_write(addr, value);
            &&& t.slots.slots[i] == s.slots.slots[i].written(addr, value)
            &&& forall|k: int|
                0 <= k < 4 && k != i ==> #[trigger] t.slots.slots[k] == s.slots.slots[k]
            &&& t.slots.reg == s.slots.reg
            &&& heard is None ==> t.sound == s.sound
            &&& heard matches Some(w) ==> t.sound == s.sound.push(
                SoundWrite::Scc { reg: w.reg, value: w.value },
            )
            &&& t.vdp == s.vdp && t.keyboard == s.keyboard && t.rtc == s.rtc
        }),
{
}

/// Another cartridge: it alone changes in the slots, the first slot is selected everywhere,
/// no key is down, and the video processor and the clock go on.
pub proof fn law_swap(s: BusState, rom: Option<Seq<u8>>, row: int, addr: int)
    requires
        s.wf(),
        0 <= row < 11,
        0 <= addr < 65536,
    ensures
        ({
            let t = s.swapped(rom);
            &&& t.slots.slots[1] == cartridge_state(rom, s.forced_mapper)
            &&& t.slots.slots[0] == s.slots.slots[0]
            &&& t.slots.slots[2] == s.slots.slots[2]
            &&& t.slots.slots[3] == s.slots.slots[3]
            &&& t.slots.read(addr) == s.slots.slots[0].read(addr)
            &&& t.keyboard.rows[row] == 0xFF
            &&& t.vdp == s.vdp && t.rtc == s.rtc && t.forced_mapper == s.forced_mapper
            &&& t.psg_select == 0
        }),
{
}

/// A machine that is switched on shows its first slot everywhere, has no key down, no sound
/// waiting and every setting of the clock at 0.
pub proof fn law_power_on(
    vdp: VdpState,
    cbios: CbiosRoms,
    rom: Option<Seq<u8>>,
    machine: MachineRoms,
    forced: Option<CartridgeMapper>,
    addr: int,
    row: int,
)
    requires
        0 <= addr < 65536,
        0 <= row < 11,
    ensures
        ({
            let s = BusState::power_on(vdp, cbios, rom, machine, forced);
            &&& s.slots.read(addr) == s.slots.slots[0].read(addr)
            &&& s.slots.slots[1] == cartridge_state(rom, forced)
            &&& s.slots.slots == machine_slots(cbios, machine, cartridge_state(rom, forced))
            &&& s.keyboard.rows[row] == 0xFF
            &&& s.rtc.wf() && s.rtc.mode == 0 && forall|i: int|
                0 <= i < 52 ==> #[trigger] s.rtc.cells[i] == 0
            &&& s.sound.len() == 0
            &&& s.vdp == vdp && s.forced_mapper == forced
        }),
{
}

/// Another cartridge with a reset: the video processor is cleared, the rest is as after a swap.
pub proof fn law_restart(s: BusState, rom: Option<Seq<u8>>, i: int)
    requires
        s.wf(),
        0 <= i < 64,
    ensures
        ({
            let t = s.restarted(rom);
            let u = s.swapped(rom);
            &&& t.vdp == s.vdp.after_reset()
            &&& t.vdp.engine.regs[i] == 0
            &&& t == (BusState { vdp: t.vdp, ..u })
        }),
{
}

} // verus!
