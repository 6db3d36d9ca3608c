//! The system bus: memory slots, I/O ports and the devices behind them.
pub mod machine_laws;

use crate::archive::unzip_rom;
use crate::fdc::{DiskImage, Wd2793};
use crate::ppi::Ppi;
use crate::rtc::Rtc;
use crate::scc::SccWrite;
use crate::slot::{
    detect_mapper, Ascii16Cartridge, Ascii8Cartridge, CartridgeMapper, DiskRomSlot,
    KonamiMegaRomCartridge, KonamiMegaRomSccCartridge, MappedRamSlot, RomSlot, Slot, Slots,
    SubslottedSlot,
};
use crate::sound::SoundWrite;
use crate::vdp::Vdp;
use vstd::prelude::*;

verus! {

#[allow(unused_imports)]
use crate::archive::unzipped;
#[allow(unused_imports)]
use crate::fdc::{disk_of, FdcState};
#[allow(unused_imports)]
use crate::ppi::Keyboard;
#[allow(unused_imports)]
use crate::rtc::RtcState;
#[allow(unused_imports)]
use crate::slot::cartridge::{AsciiState, KonamiSccState, KonamiState};
#[allow(unused_imports)]
use crate::slot::mapper::detected;
#[allow(unused_imports)]
use crate::slot::storage::{DiskRomState, MappedState, RomState};
#[allow(unused_imports)]
use crate::slot::{law_with_mapper, lemma_mapper_wf, states_of, SlotState, SlotsState, SubslotState};
#[allow(unused_imports)]
use crate::sound::{
    law_cleared_psg_is_silent, law_played_in_order, lemma_played_length, psg_played, silence_writes,
};
#[allow(unused_imports)]
use crate::vdp::VdpState;

/// Memory as the CPU sees it.
pub trait Memory {
    /// The memory is in a state that its reads and writes accept.
    spec fn mem_wf(&self) -> bool;

    /// The byte at an address.
    spec fn byte_at(&self, addr: int) -> u8;

    /// The byte at an address, without any effect that reading it has.
    fn read8(&self, addr: u16) -> (r: u8)
        requires
            self.mem_wf(),
        ensures
            r == self.byte_at(addr as int),
    ;

    /// The byte at an address. Reading the registers of a device may have
    /// effects.
    fn fetch8(&mut self, addr: u16) -> (r: u8)
        requires
            old(self).mem_wf(),
        ensures
            final(self).mem_wf(),
            r == old(self).byte_at(addr as int),
    ;

    /// Write a byte. What goes to the sound chip of a cartridge is handed on.
    fn write8(&mut self, addr: u16, value: u8) -> (r: Option<SccWrite>)
        requires
            old(self).mem_wf(),
        ensures
            final(self).mem_wf(),
    ;
}

/// I/O ports, named after the Z80's `IN` and `OUT`. Reading may have effects.
pub trait Io {
    /// The device is in a state that its ports accept.
    spec fn io_wf(&self) -> bool;

    fn in8(&mut self, port: u8) -> (r: u8)
        requires
            old(self).io_wf(),
        ensures
            final(self).io_wf(),
    ;

    fn out8(&mut self, port: u8, value: u8)
        requires
            old(self).io_wf(),
        ensures
            final(self).io_wf(),
    ;
}

/// `Vec::into_boxed_slice` keeps the elements.
#[verifier::external_body]
fn boxed(v: Vec<u8>) -> (r: Box<[u8]>)
    ensures
        r@ == v@,
{
    v.into_boxed_slice()
}

/// The images of the free BIOS.
pub struct CbiosRoms {
    pub main: Vec<u8>,
    pub sub: Vec<u8>,
    pub basic: Vec<u8>,
    pub music: Vec<u8>,
}

/// Which machine to be.
pub enum MachineRoms {
    /// A generic MSX2 with the free BIOS.
    CBios,
    /// The Philips NMS 8245.
    Nms8245 {
        main: Vec<u8>,
        ext: Vec<u8>,
        /// The disk ROM, with the floppy controller.
        disk: Option<Vec<u8>>,
        /// The disk in the drive.
        disk_image: Option<Vec<u8>>,
        /// The ROM of an FM cartridge, in place of the free one.
        fmpac: Option<Vec<u8>>,
    },
}

/// A ROM at an address, as values.
pub open spec fn rom_at(rom: Seq<u8>, base: u16) -> SlotState {
    SlotState::Rom(RomState { rom, base })
}

/// A cartridge with a mapper, as values.
pub open spec fn mapped_cartridge(rom: Seq<u8>, mapper: CartridgeMapper) -> SlotState {
    match mapper {
        CartridgeMapper::Plain => rom_at(rom, 0x4000),
        CartridgeMapper::KonamiBasic => SlotState::Konami(KonamiState::power_on(rom)),
        CartridgeMapper::KonamiSCC => SlotState::KonamiScc(KonamiSccState::power_on(rom, true)),
        CartridgeMapper::Ascii8 => SlotState::Ascii8(AsciiState::power_on8(rom)),
        CartridgeMapper::Ascii16 => SlotState::Ascii16(AsciiState::power_on16(rom)),
    }
}

/// What a cartridge makes of its slot: unpacked where it is packed, with the
/// mapper that is forced, or else found. Without a cartridge the slot is empty.
pub open spec fn cartridge_state(
    rom: Option<Seq<u8>>,
    forced: Option<CartridgeMapper>,
) -> SlotState {
    match rom {
        None => SlotState::Empty,
        Some(bytes) => {
            let rom = unzipped(bytes);
            mapped_cartridge(
                rom,
                match forced {
                    Some(m) => m,
                    None => detected(rom),
                },
            )
        },
    }
}

/// The bytes of an optional image.
pub open spec fn image(v: Option<Vec<u8>>) -> Option<Seq<u8>> {
    match v {
        Some(v) => Some(v@),
        None => None,
    }
}

/// The disk interface of a machine.
pub open spec fn disk_slot(disk: Option<Vec<u8>>, disk_image: Option<Vec<u8>>) -> SlotState {
    match disk {
        None => SlotState::Empty,
        Some(rom) => SlotState::DiskRom(
            DiskRomState {
                rom: RomState { rom: rom@, base: 0x4000 },
                fdc: FdcState::power_on(
                    match disk_image {
                        Some(d) => Some(disk_of(d@)),
                        None => None,
                    },
                ),
            },
        ),
    }
}

/// The slots of a machine. The cartridge is in slot 1, and slot 3 is expanded.
/// The generic machine has its BASIC in slot 2, the extension ROM in 3-1, the FM
/// ROM in 3-2 and RAM in 3-3; the Philips has the FM ROM in slot 2, the extension
/// ROM in 3-0, RAM in 3-2 and the disk interface in 3-3.
pub open spec fn machine_slots(
    cbios: CbiosRoms,
    machine: MachineRoms,
    cartridge: SlotState,
) -> Seq<SlotState> {
    let ram = SlotState::MappedRam(MappedState::power_on());
    match machine {
        MachineRoms::CBios => seq![
            rom_at(cbios.main@, 0),
            cartridge,
            rom_at(cbios.basic@, 0x4000),
            SlotState::Subslotted(
                SubslotState {
                    reg: 0,
                    subs: seq![
                        SlotState::Empty,
                        rom_at(cbios.sub@, 0),
                        rom_at(cbios.music@, 0x4000),
                        ram,
                    ],
                },
            ),
        ],
        MachineRoms::Nms8245 { main, ext, disk, disk_image, fmpac } => seq![
            rom_at(main@, 0),
            cartridge,
            rom_at(
                match fmpac {
                    Some(rom) => rom@,
                    None => cbios.music@,
                },
                0x4000,
            ),
            SlotState::Subslotted(
                SubslotState {
                    reg: 0,
                    subs: seq![
                        rom_at(ext@, 0),
                        SlotState::Empty,
                        ram,
                        disk_slot(disk, disk_image),
                    ],
                },
            ),
        ],
    }
}

/// Put a cartridge into a slot.
pub fn build_cartridge_slot(
    rom: Option<Vec<u8>>,
    forced_mapper: Option<CartridgeMapper>,
) -> (r: Slot)
    ensures
        r.state() == cartridge_state(image(rom), forced_mapper),
        r.mem_wf(),
{
    match rom {
        None => Slot::Empty,
        Some(bytes) => {
            let bytes = unzip_rom(bytes);
            let mapper = match forced_mapper {
                Some(m) => m,
                None => detect_mapper(bytes.as_slice()),
            };
            let rom = boxed(bytes);
            match mapper {
                CartridgeMapper::Plain => Slot::Rom(RomSlot::new(rom, 0x4000)),
                CartridgeMapper::KonamiBasic => Slot::KonamiMegaRomCartridge(
                    KonamiMegaRomCartridge::new(rom),
                ),
                CartridgeMapper::KonamiSCC => Slot::KonamiMegaRomSccCartridge(
                    KonamiMegaRomSccCartridge::new(rom, true),
                ),
                CartridgeMapper::Ascii8 => Slot::Ascii8Cartridge(Ascii8Cartridge::new(rom)),
                CartridgeMapper::Ascii16 => Slot::Ascii16Cartridge(Ascii16Cartridge::new(rom)),
            }
        },
    }
}

fn rom_slot(rom: Vec<u8>, base: u16) -> (r: Slot)
    ensures
        r.state() == rom_at(rom@, base),
        r.mem_wf(),
{
    Slot::Rom(RomSlot::new(boxed(rom), base))
}

fn build_disk_slot(disk: Option<Vec<u8>>, disk_image: Option<Vec<u8>>) -> (r: Slot)
    ensures
        r.state() == disk_slot(disk, disk_image),
        r.mem_wf(),
{
    match disk {
        None => Slot::Empty,
        Some(rom) => {
            let disk: Option<DiskImage> = match disk_image {
                Some(d) => Some(DiskImage::new(d)),
                None => None,
            };
            Slot::DiskRom(DiskRomSlot::new(boxed(rom), Wd2793::new(disk)))
        },
    }
}

/// An expanded slot of four subslots.
fn expanded(a: Slot, b: Slot, c: Slot, d: Slot) -> (r: Slot)
    requires
        a.mem_wf(),
        b.mem_wf(),
        c.mem_wf(),
        d.mem_wf(),
    ensures
        r.state() == SlotState::Subslotted(
            SubslotState { reg: 0, subs: seq![a.state(), b.state(), c.state(), d.state()] },
        ),
        r.mem_wf(),
{
    let ghost subs = seq![a.state(), b.state(), c.state(), d.state()];
    let s = SubslottedSlot::new(vec![a, b, c, d]);
    assert(s.state().subs =~= subs);
    Slot::Subslotted(Box::new(s))
}

fn build_slots(cbios: CbiosRoms, machine: MachineRoms, cartridge: Slot) -> (r: Slots)
    requires
        cartridge.mem_wf(),
    ensures
        r.mem_wf(),
        r@ == (SlotsState { reg: 0, slots: machine_slots(cbios, machine, cartridge.state()) }),
{
    let ghost goal = machine_slots(cbios, machine, cartridge.state());
    let ram = Slot::MappedRam(MappedRamSlot::new());
    let slots: [Slot; 4] = match machine {
        MachineRoms::CBios => {
            let slot3 = expanded(
                Slot::Empty,
                rom_slot(cbios.sub, 0),
                rom_slot(cbios.music, 0x4000),
                ram,
            );
            [rom_slot(cbios.main, 0), cartridge, rom_slot(cbios.basic, 0x4000), slot3]
        },
        MachineRoms::Nms8245 { main, ext, disk, disk_image, fmpac } => {
            let slot3 = expanded(
                rom_slot(ext, 0),
                Slot::Empty,
                ram,
                build_disk_slot(disk, disk_image),
            );
            let fm = match fmpac {
                Some(rom) => rom,
                None => cbios.music,
            };
            [rom_slot(main, 0), cartridge, rom_slot(fm, 0x4000), slot3]
        },
    };
    assert(states_of(slots@) =~= goal);
    Slots::new(slots)
}

/// Everything on the bus, as values.
pub struct BusState {
    pub slots: SlotsState,
    pub vdp: VdpState,
    pub keyboard: Keyboard,
    pub rtc: RtcState,
    pub psg_select: u8,
    /// Writes to sound chips that were not handed on yet.
    pub sound: Seq<SoundWrite>,
    pub forced_mapper: Option<CartridgeMapper>,
}

impl BusState {
    pub open spec fn wf(self) -> bool {
        self.slots.wf() && self.vdp.wf() && self.keyboard.wf() && self.rtc.wf()
    }

    pub open spec fn with_sound(self, w: SoundWrite) -> BusState {
        BusState { sound: self.sound.push(w), ..self }
    }

    /// What a port gives when read, at a time of the host's clock.
    pub open spec fn port_value(self, port: u8, secs: int) -> int {
        if port == 0x98 {
            self.vdp.data() as int
        } else if port == 0x99 {
            self.vdp.status() as int
        } else if port == 0xA8 {
            self.slots.reg as int
        } else if port == 0xA9 {
            self.keyboard.row() as int
        } else if port == 0xB5 {
            self.rtc.value(secs)
        } else if port >= 0xFC {
            match self.slots.mapper() {
                Some(m) => m.bank_value(port - 0xFC) as int,
                None => 0xFF,
            }
        } else {
            0xFF
        }
    }

    /// What a port gives when read on a host without a clock.
    pub open spec fn port_value_unset(self, port: u8) -> int {
        if port == 0xB5 {
            self.rtc.value_unset()
        } else {
            self.port_value(port, 0)
        }
    }

    /// The bus after a port was read: only the video processor notices.
    pub open spec fn after_in(self, port: u8) -> BusState {
        if port == 0x98 {
            BusState { vdp: self.vdp.after_data_read(), ..self }
        } else if port == 0x99 {
            BusState { vdp: self.vdp.after_status_read(), ..self }
        } else {
            self
        }
    }

    /// The bus after a port was written.
    pub open spec fn after_out(self, port: u8, value: u8) -> BusState {
        if port == 0x98 {
            BusState { vdp: self.vdp.after_data_write(value), ..self }
        } else if port == 0x99 {
            BusState { vdp: self.vdp.after_control(value), ..self }
        } else if port == 0x9A {
            BusState { vdp: self.vdp.after_palette(value), ..self }
        } else if port == 0x9B {
            BusState { vdp: self.vdp.after_indirect(value), ..self }
        } else if port == 0xA0 {
            BusState { psg_select: value, ..self }
        } else if port == 0xA1 {
            self.with_sound(SoundWrite::Psg { reg: self.psg_select, value })
        } else if port == 0xA8 {
            BusState { slots: SlotsState { reg: value, ..self.slots }, ..self }
        } else if port == 0x7C {
            self.with_sound(SoundWrite::Fm { port: 0, value })
        } else if port == 0x7D {
            self.with_sound(SoundWrite::Fm { port: 1, value })
        } else if port == 0xB4 {
            BusState { rtc: RtcState { reg: value % 16, ..self.rtc }, ..self }
        } else if port == 0xB5 {
            BusState { rtc: self.rtc.written(value), ..self }
        } else if port == 0xAA {
            BusState { keyboard: Keyboard { selected: value % 16, ..self.keyboard }, ..self }
        } else if port >= 0xFC {
            match self.slots.mapper() {
                Some(m) => BusState {
                    slots: self.slots.with_mapper(m.with_bank(port - 0xFC, value)),
                    ..self
                },
                None => self,
            }
        } else {
            self
        }
    }

    /// The bus after a byte was written.
    pub open spec fn written(self, addr: int, value: u8) -> BusState {
        let s = BusState { slots: self.slots.written(addr, value), ..self };
        match self.slots.scc_write(addr, value) {
            Some(w) => s.with_sound(SoundWrite::Scc { reg: w.reg, value: w.value }),
            None => s,
        }
    }

    /// The bus of a machine that is switched on.
    pub open spec fn power_on(
        vdp: VdpState,
        cbios: CbiosRoms,
        rom: Option<Seq<u8>>,
        machine: MachineRoms,
        forced_mapper: Option<CartridgeMapper>,
    ) -> BusState {
        BusState {
            slots: SlotsState {
                reg: 0,
                slots: machine_slots(cbios, machine, cartridge_state(rom, forced_mapper)),
            },
            vdp,
            keyboard: Keyboard::at_rest(),
            rtc: RtcState { reg: 0, mode: 0, cells: Seq::new(52, |i: int| 0u8) },
            psg_select: 0,
            sound: Seq::empty(),
            forced_mapper,
        }
    }

    /// The bus with another cartridge, after a reset of the video processor.
    pub open spec fn restarted(self, rom: Option<Seq<u8>>) -> BusState {
        (BusState { vdp: self.vdp.after_reset(), ..self }).swapped(rom)
    }

    /// The bus with another cartridge in slot 1. The first slot is selected
    /// everywhere, no key is down, and the sound generator is cleared.
    pub open spec fn swapped(self, rom: Option<Seq<u8>>) -> BusState {
        BusState {
            slots: SlotsState {
                reg: 0,
                slots: self.slots.slots.update(1, cartridge_state(rom, self.forced_mapper)),
            },
            keyboard: Keyboard { rows: Keyboard::at_rest().rows, ..self.keyboard },
            psg_select: 0,
            sound: self.sound + silence_writes(),
            ..self
        }
    }
}

/// The bus.
pub struct Bus {
    slots: Slots,
    pub vdp: Vdp,
    pub ppi: Ppi,
    rtc: Rtc,
    psg_reg_select: u8,
    sound: Vec<SoundWrite>,
    /// The mapper for every cartridge, in place of the one that is found.
    pub forced_mapper: Option<CartridgeMapper>,
}

impl View for Bus {
    type V = BusState;

    closed spec fn view(&self) -> BusState {
        BusState {
            slots: self.slots@,
            vdp: self.vdp@,
            keyboard: self.ppi@,
            rtc: self.rtc@,
            psg_select: self.psg_reg_select,
            sound: self.sound@,
            forced_mapper: self.forced_mapper,
        }
    }
}

impl Bus {
    pub open spec fn wf(&self) -> bool {
        self@.wf()
    }

    /// A machine, with or without a cartridge.
    pub fn new(
        vdp: Vdp,
        cbios: CbiosRoms,
        cartridge_rom: Option<Vec<u8>>,
        machine: MachineRoms,
        forced_mapper: Option<CartridgeMapper>,
    ) -> (r: Self)
        requires
            vdp.wf(),
        ensures
            r.wf(),
            r@ == (BusState {
                slots: SlotsState {
                    reg: 0,
                    slots: machine_slots(
                        cbios,
                        machine,
                        cartridge_state(image(cartridge_rom), forced_mapper),
                    ),
                },
                vdp: vdp@,
                keyboard: Keyboard::at_rest(),
                rtc: RtcState { reg: 0, mode: 0, cells: Seq::new(52, |i: int| 0u8) },
                psg_select: 0,
                sound: Seq::empty(),
                forced_mapper,
            }),
            r@ == BusState::power_on(vdp@, cbios, image(cartridge_rom), machine, forced_mapper),
    {
        let cartridge = build_cartridge_slot(cartridge_rom, forced_mapper);
        Bus {
            slots: build_slots(cbios, machine, cartridge),
            vdp,
            ppi: Ppi::new(),
            rtc: Rtc::new(),
            psg_reg_select: 0,
            sound: Vec::new(),
            forced_mapper,
        }
    }

    /// Swap the cartridge in slot 1.
    pub fn swap_cartridge(&mut self, rom: Option<Vec<u8>>)
        requires
            old(self).wf(),
        ensures
            final(self).wf(),
            final(self)@ == old(self)@.swapped(image(rom)),
    {
        let cartridge = build_cartridge_slot(rom, self.forced_mapper);
        self.slots.set_slot(1, cartridge);
        self.slots.set_register(0);
        self.ppi.release_all();
        self.psg_reg_select = 0;
        let ghost queued = self.sound@;
        let mut r: u8 = 0;
        while r < 14
            invariant
                r <= 14,
                self@ == (BusState {
                    slots: SlotsState {
                        reg: 0,
                        slots: old(self)@.slots.slots.update(
                            1,
                            cartridge_state(image(rom), old(self)@.forced_mapper),
                        ),
                    },
                    keyboard: Keyboard {
                        rows: Keyboard::at_rest().rows,
                        ..old(self)@.keyboard
                    },
                    psg_select: 0,
                    sound: queued + silence_writes().take(r as int),
                    ..old(self)@
                }),
                self.wf(),
                queued == old(self)@.sound,
            decreases 14 - r,
        {
            self.sound.push(SoundWrite::Psg { reg: r, value: 0 });
            r = r + 1;
            assert(self.sound@ =~= queued + silence_writes().take(r as int));
        }
        assert(silence_writes().take(14) =~= silence_writes());
    }

    /// Change cartridges with a reset of the machine round it: first the video
    /// processor, so that nothing of the old picture stays, then the slot.
    pub fn load_cartridge(&mut self, rom: Option<Vec<u8>>)
        requires
            old(self).wf(),
        ensures
            final(self).wf(),
            final(self)@ == (BusState { vdp: old(self)@.vdp.after_reset(), ..old(self)@ }).swapped(
                image(rom),
            ),
            final(self)@ == old(self)@.restarted(image(rom)),
    {
        self.vdp.reset();
        self.swap_cartridge(rom);
    }

    /// Hand on the writes to sound chips.
    pub fn take_sound(&mut self) -> (r: Vec<SoundWrite>)
        requires
            old(self).wf(),
        ensures
            final(self).wf(),
            r@ == old(self)@.sound,
            final(self)@ == (BusState { sound: Seq::empty(), ..old(self)@ }),
    {
        let mut out: Vec<SoundWrite> = Vec::new();
        out.append(&mut self.sound);
        assert(out@ =~= old(self)@.sound);
        assert(self.sound@ =~= Seq::empty());
        out
    }

    /// The slot register.
    pub fn slot_register(&self) -> (r: u8)
        ensures
            r == self@.slots.reg,
    {
        self.slots.register()
    }
}

impl Memory for Bus {
    open spec fn mem_wf(&self) -> bool {
        self.wf()
    }

    open spec fn byte_at(&self, addr: int) -> u8 {
        self@.slots.read(addr)
    }

    fn read8(&self, addr: u16) -> (r: u8) {
        self.slots.read8(addr)
    }

    fn fetch8(&mut self, addr: u16) -> (r: u8)
        ensures
            final(self)@ == (BusState {
                slots: old(self)@.slots.fetched(addr as int),
                ..old(self)@
            }),
    {
        self.slots.fetch8(addr)
    }

    fn write8(&mut self, addr: u16, value: u8) -> (r: Option<SccWrite>)
        ensures
            final(self)@ == old(self)@.written(addr as int, value),
            r is None,
    {
        if let Some(w) = self.slots.write8(addr, value) {
            self.sound.push(SoundWrite::Scc { reg: w.reg, value: w.value });
        }
        None
    }
}

impl Bus {
    /// Read a port with the clock at a given time, in seconds since the start of
    /// 1970.
    pub fn in8_at(&mut self, port: u8, secs: u64) -> (r: u8)
        requires
            old(self).wf(),
        ensures
            final(self).wf(),
            r == old(self)@.port_value(port, secs as int),
            final(self)@ == old(self)@.after_in(port),
    {
        match port {
            0x98 | 0x99 => self.vdp.in8(port),
            0xA8 => self.slots.register(),
            0xA9 => self.ppi.read_row(),
            0xB5 => self.rtc.read_at(secs),
            0xFC..=0xFF => match self.slots.mapper() {
                Some(m) => m.get_bank((port - 0xFC) as usize),
                None => 0xFF,
            },
            _ => 0xFF,
        }
    }

    /// Read a port on a host without a clock.
    pub fn in8_unset(&mut self, port: u8) -> (r: u8)
        requires
            old(self).wf(),
        ensures
            final(self).wf(),
            r == old(self)@.port_value_unset(port),
            final(self)@ == old(self)@.after_in(port),
    {
        if port == 0xB5 {
            self.rtc.read_unset()
        } else {
            self.in8_at(port, 0)
        }
    }
}

impl Io for Bus {
    open spec fn io_wf(&self) -> bool {
        self.wf()
    }

    fn in8(&mut self, port: u8) -> (r: u8)
        ensures
            exists|secs: u64| r == #[trigger] old(self)@.port_value(port, secs as int),
            port != 0xB5 ==> forall|secs: u64|
                r == #[trigger] old(self)@.port_value(port, secs as int),
            final(self)@ == old(self)@.after_in(port),
    {
        let ghost s = self@;
        if port == 0xB5 {
            let v = self.rtc.read();
            let ghost secs = choose|secs: u64| v == #[trigger] s.rtc.value(secs as int);
            assert(v == s.port_value(port, secs as int));
            v
        } else {
            let v = self.in8_at(port, 0);
            assert(v == s.port_value(port, 0u64 as int));
            v
        }
    }

    fn out8(&mut self, port: u8, value: u8)
        ensures
            final(self)@ == old(self)@.after_out(port, value),
    {
        match port {
            0x98 | 0x99 | 0x9A | 0x9B => self.vdp.out8(port, value),
            0xA0 => {
                self.psg_reg_select = value;
            },
            0xA1 => self.sound.push(SoundWrite::Psg { reg: self.psg_reg_select, value }),
            0xA8 => self.slots.set_register(value),
            0x7C => self.sound.push(SoundWrite::Fm { port: 0, value }),
            0x7D => self.sound.push(SoundWrite::Fm { port: 1, value }),
            0xB4 => self.rtc.select(value),
            0xB5 => self.rtc.write(value),
            0xAA => self.ppi.write_port_c(value),
            0xFC..=0xFF => {
                let ghost s = self.slots@;
                if let Some(m) = self.slots.mapper_mut() {
                    m.set_bank((port - 0xFC) as usize, value);
                    proof {
                        law_with_mapper(
                            s,
                            s.mapper()->Some_0.with_bank(port - 0xFC, value),
                        );
                    }
                }
            },
            _ => {},
        }
    }
}

/// Changing cartridges leaves the other slots alone, and ends in a silent sound
/// generator, whatever was still to be played.
pub proof fn law_swap_silences(s: BusState, rom: Option<Seq<u8>>, regs: Seq<u8>)
    requires
        s.wf(),
        regs.len() == 14,
    ensures
        ({
            let t = s.swapped(rom);
            let played = psg_played(regs, t.sound, t.sound.len() as int);
            &&& t.slots.slots[0] == s.slots.slots[0]
            &&& t.slots.slots[2] == s.slots.slots[2]
            &&& t.slots.slots[3] == s.slots.slots[3]
            &&& played[8] == 0
            &&& played[9] == 0
            &&& played[10] == 0
        }),
{
    law_played_in_order(regs, s.sound, silence_writes(), 14);
    lemma_played_length(regs, s.sound, s.sound.len() as int);
    law_cleared_psg_is_silent(psg_played(regs, s.sound, s.sound.len() as int));
}

/// The slot register reads back, and so does each bank of the RAM mapper, with
/// its missing bits up.
pub proof fn law_memory_registers_read_back(s: BusState, page: int, value: u8, secs: int)
    requires
        s.wf(),
        0 <= page < 4,
    ensures
        s.after_out(0xA8, value).port_value(0xA8, secs) == value,
        s.slots.mapper() is Some ==> s.after_out((0xFC + page) as u8, value).port_value(
            (0xFC + page) as u8,
            secs,
        ) == 0xF0 + value % 16,
{
    if s.slots.mapper() is Some {
        let m = s.slots.mapper()->Some_0;
        lemma_mapper_wf(s.slots);
        law_with_mapper(s.slots, m.with_bank(page, value));
    }
}

/// Selecting a register of the sound generator and writing it queues that write,
/// after whatever was queued before.
pub proof fn law_psg_pair_queues(s: BusState, reg: u8, value: u8)
    ensures
        s.after_out(0xA0, reg).after_out(0xA1, value).sound == s.sound.push(
            SoundWrite::Psg { reg, value },
        ),
{
}

} // verus!
