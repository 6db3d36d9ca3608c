//! The V9938 video display processor.
//!
//! The CPU talks to it through four ports: 0x98 moves a byte to or from VRAM
//! at an address that counts up, 0x99 reads a status register or takes pairs of
//! bytes that set a register or the address, 0x9A takes palette entries and
//! 0x9B writes the register that R17 points at. What the display needs once per
//! frame is latched at the end of the visible scan.
pub mod command_laws;
pub mod engine;
pub mod engine_laws;
pub mod pixel_laws;
pub mod port_laws;
pub mod sprite_laws;
pub mod sprites;
pub mod stream_laws;

use crate::bus::Io;
use crate::vdp::engine::CmdCtx;
pub use crate::vdp::engine::CpuXfer;
use vstd::prelude::*;

verus! {

#[allow(unused_imports)]
use crate::vdp::engine::EngineState;

/// 128 KiB, the most that a V9938 can address.
pub const VRAM_SIZE: usize = 131072;

/// Z80 T-states per scanline.
pub const SCANLINE_TSTATES: i32 = 228;

/// T-state of a scanline at which horizontal blanking begins.
pub const HBLANK_START_TSTATE: i32 = 170;

/// Width of the picture with its borders.
pub const CANVAS_W: u32 = 320;

/// Height of the picture with its borders.
pub const CANVAS_H: u32 = 240;

/// A palette colour, three bits per channel.
#[derive(Copy, Clone, PartialEq, Eq, Structural, Debug)]
pub struct PaletteEntry {
    pub r: u8,
    pub g: u8,
    pub b: u8,
    pub opaque: bool,
}

/// The registers that software changes in the middle of a frame, as they were
/// at the start of a scanline.
#[derive(Copy, Clone, PartialEq, Eq, Structural, Debug)]
pub struct LineSnapshot {
    pub r0: u8,
    pub r1: u8,
    pub r2: u8,
    pub r3: u8,
    pub r4: u8,
    pub r5: u8,
    pub r6: u8,
    pub r7: u8,
    pub r8: u8,
    pub r10: u8,
    pub r11: u8,
    pub r23: u8,
}

/// The snapshot that these registers give.
pub open spec fn snapshot_of(regs: Seq<u8>) -> LineSnapshot {
    LineSnapshot {
        r0: regs[0],
        r1: regs[1],
        r2: regs[2],
        r3: regs[3],
        r4: regs[4],
        r5: regs[5],
        r6: regs[6],
        r7: regs[7],
        r8: regs[8],
        r10: regs[10],
        r11: regs[11],
        r23: regs[23],
    }
}

/// A snapshot of registers that are all 0.
pub open spec fn blank_snapshot() -> LineSnapshot {
    snapshot_of(Seq::new(64, |i: int| 0u8))
}

impl Default for LineSnapshot {
    fn default() -> (r: Self)
        ensures
            r == blank_snapshot(),
    {
        LineSnapshot {
            r0: 0,
            r1: 0,
            r2: 0,
            r3: 0,
            r4: 0,
            r5: 0,
            r6: 0,
            r7: 0,
            r8: 0,
            r10: 0,
            r11: 0,
            r23: 0,
        }
    }
}

/// Palette at power-on, red, green and blue.
const V9938_PALETTE_INIT: [[u8; 3]; 16] = [
    [0, 0, 0],
    [0, 0, 0],
    [1, 6, 1],
    [3, 7, 3],
    [1, 1, 7],
    [2, 3, 7],
    [5, 1, 1],
    [2, 6, 7],
    [7, 1, 1],
    [7, 3, 3],
    [6, 6, 1],
    [6, 6, 4],
    [1, 4, 1],
    [6, 2, 5],
    [5, 5, 5],
    [7, 7, 7],
];

/// An opaque colour of three bits per channel.
pub open spec fn colour(r: u8, g: u8, b: u8) -> PaletteEntry {
    PaletteEntry { r: r % 8, g: g % 8, b: b % 8, opaque: true }
}

/// The palette at power-on; entry 0 is transparent.
pub open spec fn power_on_palette() -> Seq<PaletteEntry> {
    seq![
        PaletteEntry { opaque: false, ..colour(0, 0, 0) },
        colour(0, 0, 0),
        colour(1, 6, 1),
        colour(3, 7, 3),
        colour(1, 1, 7),
        colour(2, 3, 7),
        colour(5, 1, 1),
        colour(2, 6, 7),
        colour(7, 1, 1),
        colour(7, 3, 3),
        colour(6, 6, 1),
        colour(6, 6, 4),
        colour(1, 4, 1),
        colour(6, 2, 5),
        colour(5, 5, 5),
        colour(7, 7, 7),
    ]
}

/// The palette entry for a colour; only the low three bits count.
pub fn v9938_to_palette_entry(r: u8, g: u8, b: u8) -> (e: PaletteEntry)
    ensures
        e == colour(r, g, b),
{
    PaletteEntry { r: r % 8, g: g % 8, b: b % 8, opaque: true }
}

/// The palette at power-on.
pub fn v9938_default_palette() -> (p: [PaletteEntry; 16])
    ensures
        p@ == power_on_palette(),
{
    let mut p: [PaletteEntry; 16] = [v9938_to_palette_entry(0, 0, 0); 16];
    let mut i: usize = 0;
    while i < 16
        invariant
            i <= 16,
            forall|k: int|
                0 <= k < i ==> p@[k] == colour(
                    V9938_PALETTE_INIT[k][0],
                    V9938_PALETTE_INIT[k][1],
                    V9938_PALETTE_INIT[k][2],
                ),
        decreases 16 - i,
    {
        let c = V9938_PALETTE_INIT[i];
        p[i] = v9938_to_palette_entry(c[0], c[1], c[2]);
        i = i + 1;
    }
    p[0].opaque = false;
    assert(p@ =~= power_on_palette());
    p
}

/// Everything the processor holds, as values.
#[verifier::ext_equal]
pub struct VdpState {
    pub engine: EngineState,
    /// VRAM as the beam last scanned it out.
    pub display: Seq<u8>,
    /// Low 14 bits of the VRAM address.
    pub address: int,
    pub latched: u8,
    pub has_latched: bool,
    pub palette: Seq<PaletteEntry>,
    /// First byte of a palette entry.
    pub pending: Option<u8>,
    pub snaps: Seq<LineSnapshot>,
    /// T-state of the beam in its scanline.
    pub phase: int,
    pub line_irq: bool,
}

/// Display mode: M5, M4 and M3 out of bits 3 to 1 of R0, then M2 and M1 out of
/// bits 3 and 4 of R1.
pub open spec fn display_mode(regs: Seq<u8>) -> int {
    ((regs[0] / 2) % 8) * 4 + ((regs[1] / 8) % 2) * 2 + (regs[1] / 16) % 2
}

/// Sprite hardware of a display mode: 1 in graphics 1 and 2 and in multicolour, 2
/// in graphics 3 to 7, and 0 in text, where there are no sprites.
pub open spec fn sprite_hardware(mode: int) -> int {
    if mode == 0x00 || mode == 0x02 || mode == 0x04 {
        1
    } else if mode == 0x08 || mode == 0x0C || mode == 0x10 || mode == 0x14 || mode == 0x1C {
        2
    } else {
        0
    }
}

/// Registers that the chip does not have.
pub open spec fn reserved(reg: int) -> bool {
    24 <= reg < 32 || 47 <= reg < 64
}

/// The beam position in its scanline, `t` T-states after the start of one.
pub open spec fn beam_phase(t: int) -> int {
    if t >= 0 {
        t % 228
    } else {
        -((-t) % 228)
    }
}

impl VdpState {
    /// The sizes of everything, and the ranges of the counters. Registers that
    /// the chip does not have are 0.
    pub open spec fn wf(self) -> bool {
        &&& self.engine.regs.len() == 64
        &&& forall|i: int| reserved(i) ==> #[trigger] self.engine.regs[i] == 0
        &&& self.engine.vram.len() == VRAM_SIZE
        &&& self.engine.status.len() == 10
        &&& 0 <= self.engine.x < 1023
        &&& 0 <= self.engine.y < 1023
        &&& self.display.len() == VRAM_SIZE
        &&& 0 <= self.address < 16384
        &&& self.palette.len() == 16
        &&& self.snaps.len() == 256
        &&& -228 < self.phase < 228
    }

    pub open spec fn with_engine(self, engine: EngineState) -> VdpState {
        VdpState { engine, ..self }
    }

    pub open spec fn with_regs(self, regs: Seq<u8>) -> VdpState {
        VdpState { engine: EngineState { regs, ..self.engine }, ..self }
    }

    /// The state at power-on: everything 0 but the palette.
    pub open spec fn power_on(self) -> bool {
        self.display == Seq::new(VRAM_SIZE as nat, |i: int| 0u8) && self.phase == 0 && self
            == self.after_reset()
    }

    /// A reset clears everything but what is on display and where the beam is.
    pub open spec fn after_reset(self) -> VdpState {
        VdpState {
            engine: EngineState {
                regs: Seq::new(64, |i: int| 0u8),
                vram: Seq::new(VRAM_SIZE as nat, |i: int| 0u8),
                status: Seq::new(10, |i: int| 0u8),
                xfer: CpuXfer::Idle,
                x: 0,
                y: 0,
                busy: 0,
            },
            display: self.display,
            address: 0,
            latched: 0,
            has_latched: false,
            palette: power_on_palette(),
            pending: None,
            snaps: Seq::new(256, |i: int| blank_snapshot()),
            phase: self.phase,
            line_irq: false,
        }
    }

    /// The 17-bit VRAM address: R14 selects the 16 KiB bank.
    pub open spec fn full_address(self) -> int {
        (self.engine.regs[14] % 8) * 16384 + self.address
    }

    /// G3 and the later modes, and the 80-column text mode.
    pub open spec fn v9938_mode(self) -> bool {
        self.engine.regs[0] & 0x0C != 0
    }

    /// The address one further on. The carry goes to R14 in the modes that the
    /// TMS9918 did not have; in the others it is lost.
    pub open spec fn stepped(self) -> VdpState {
        if self.address + 1 < 16384 {
            VdpState { address: self.address + 1, ..self }
        } else if self.v9938_mode() {
            VdpState { address: 0, ..self }.with_regs(
                self.engine.regs.update(14, ((self.engine.regs[14] + 1) % 8) as u8),
            )
        } else {
            VdpState { address: 0, ..self }
        }
    }

    /// A read of the data port gives the byte at the address and steps.
    pub open spec fn after_data_read(self) -> VdpState {
        VdpState { has_latched: false, ..self }.stepped()
    }

    /// The byte that the data port gives.
    pub open spec fn data(self) -> u8 {
        self.engine.vram[self.full_address()]
    }

    /// A write to the data port stores at the address and steps.
    pub open spec fn after_data_write(self, value: u8) -> VdpState {
        VdpState { has_latched: false, ..self }.with_engine(
            self.engine.with_vram(self.engine.vram.update(self.full_address(), value)),
        ).stepped()
    }

    /// The status register that the status port shows.
    pub open spec fn selected(self) -> int {
        (self.engine.regs[15] % 16) as int
    }

    /// The byte that the status port gives: the register that R15 selects, with
    /// horizontal blanking in bit 5 of S2.
    pub open spec fn status(self) -> u8 {
        let n = self.selected();
        if n == 2 && self.phase >= HBLANK_START_TSTATE {
            self.engine.status[2] | 0x20
        } else if n < 10 {
            self.engine.status[n]
        } else {
            0xFF
        }
    }

    /// A read of the status port. S0 is cleared, S1 acknowledges the line
    /// interrupt, and S7 moves a running LMCM transfer on.
    pub open spec fn after_status_read(self) -> VdpState {
        let s = VdpState { has_latched: false, ..self };
        let n = self.selected();
        if n == 0 {
            s.with_engine(self.engine.with_status(0, 0))
        } else if n == 1 {
            VdpState { line_irq: false, ..s }.with_engine(
                self.engine.with_status(1, self.engine.status[1] & !0x01u8),
            )
        } else if n == 7 && self.engine.xfer == CpuXfer::Lmcm {
            s.with_engine(self.engine.drained())
        } else {
            s
        }
    }

    /// A register set. R46 starts a command, R44 feeds a running transfer, and a
    /// register that the chip does not have stays 0.
    pub open spec fn with_register(self, reg: int, value: u8) -> VdpState {
        let e = EngineState { regs: self.engine.regs.update(reg, value), ..self.engine };
        if reserved(reg) {
            self
        } else if reg == 46 {
            self.with_engine(e.executed())
        } else if reg == 44 {
            self.with_engine(e.pumped(value))
        } else {
            self.with_engine(e)
        }
    }

    /// A write to the control port. The first byte of a pair is kept. The second
    /// has bit 7 up and a register number for the first byte, or it has the high
    /// bits of an address.
    pub open spec fn after_control(self, value: u8) -> VdpState {
        if !self.has_latched {
            VdpState { latched: value, has_latched: true, ..self }
        } else if value >= 128 {
            VdpState { has_latched: false, ..self }.with_register(
                (value % 64) as int,
                self.latched,
            )
        } else {
            VdpState { has_latched: false, address: (value % 64) * 256 + self.latched, ..self }
        }
    }

    /// A write to the palette port. The first byte of a pair is kept: red in
    /// bits 6-4, blue in bits 2-0. The second has green, and completes the entry
    /// that R16 points at.
    pub open spec fn after_palette(self, value: u8) -> VdpState {
        match self.pending {
            None => VdpState { pending: Some(value), ..self },
            Some(first) => {
                let ptr = self.engine.regs[16] % 16;
                VdpState {
                    palette: self.palette.update(ptr as int, colour(first / 16, value, first)),
                    pending: None,
                    ..self
                }.with_regs(self.engine.regs.update(16, ((ptr + 1) % 16) as u8))
            },
        }
    }

    /// A write to the register that R17 points at; R17 counts up unless its bit
    /// 7 is up.
    pub open spec fn after_indirect(self, value: u8) -> VdpState {
        let r17 = self.engine.regs[17];
        let s = self.with_register((r17 % 64) as int, value);
        if r17 >= 128 {
            s
        } else {
            s.with_regs(s.engine.regs.update(17, ((r17 + 1) % 64) as u8))
        }
    }

    /// The register that a write to a port goes to, and the value for it. Most
    /// writes go to none.
    pub open spec fn register_write(self, port: u8, value: u8) -> Option<(u8, u8)> {
        if port == 0x99 && self.has_latched && value >= 128 {
            Some((value % 64, self.latched))
        } else if port == 0x9B {
            Some((self.engine.regs[17] % 64, value))
        } else {
            None
        }
    }

    /// The palette entry that a write to a port completes.
    pub open spec fn palette_write(self, port: u8) -> Option<u8> {
        if port == 0x9A && self.pending is Some {
            Some(self.engine.regs[16] % 16)
        } else {
            None
        }
    }

    /// The visible scan is over: sprite status, what is on display, and the
    /// frame flags.
    pub open spec fn after_vblank(self) -> VdpState {
        let e = self.engine;
        let mode = sprite_hardware(display_mode(e.regs));
        let status = if mode == 1 {
            e.status.update(0, sprites::status1(e.vram, e.regs, e.status[0]))
        } else if mode == 2 {
            sprites::status2(e.vram, e.regs, e.status)
        } else {
            e.status
        };
        VdpState {
            display: e.vram,
            engine: EngineState {
                status: status.update(0, status[0] | 0x80).update(2, status[2] | 0x40),
                ..e
            },
            ..self
        }
    }

    /// `dt` T-states later: the beam has moved, and CE drops once the duration
    /// of the last command is over. A transfer through the CPU stops that clock,
    /// since its last byte drops CE.
    pub open spec fn after_tick(self, dt: int) -> VdpState {
        let s = VdpState { phase: beam_phase(self.phase + dt), ..self };
        let e = self.engine;
        if e.busy <= 0 || e.xfer != CpuXfer::Idle {
            s
        } else if e.busy - dt > 0 {
            s.with_engine(EngineState { busy: e.busy - dt, ..e })
        } else {
            s.with_engine(EngineState { busy: 0, ..e }.with_status(2, e.status[2] & !0x01u8))
        }
    }

    /// A frame or line interrupt is pending and enabled.
    pub open spec fn irq(self) -> bool {
        ||| self.engine.regs[1] & 0x20 != 0 && self.engine.status[0] & 0x80 != 0
        ||| self.engine.regs[0] & 0x10 != 0 && self.line_irq
    }

    /// SCREEN 6.
    pub open spec fn g5(self) -> bool {
        display_mode(self.engine.regs) == 0x10
    }

    /// The border colour. In SCREEN 6 two bits of R7 name it, else four.
    pub open spec fn backdrop(self) -> PaletteEntry {
        let r7 = self.engine.regs[7];
        let i = if self.g5() {
            r7 % 4
        } else {
            r7 % 16
        };
        PaletteEntry { opaque: true, ..self.palette[i as int] }
    }
}

/// The video processor.
pub struct Vdp {
    /// Registers, VRAM, status registers and the command engine.
    engine: CmdCtx,
    vram_display: Vec<u8>,
    vram_address: u16,
    latched_data: u8,
    has_latched_data: bool,
    palette: [PaletteEntry; 16],
    palette_pending: Option<u8>,
    scanline_snap: Vec<LineSnapshot>,
    scanline_phase: i32,
    line_irq_pending: bool,
}

impl View for Vdp {
    type V = VdpState;

    closed spec fn view(&self) -> VdpState {
        VdpState {
            engine: self.engine@,
            display: self.vram_display@,
            address: self.vram_address as int,
            latched: self.latched_data,
            has_latched: self.has_latched_data,
            palette: self.palette@,
            pending: self.palette_pending,
            snaps: self.scanline_snap@,
            phase: self.scanline_phase as int,
            line_irq: self.line_irq_pending,
        }
    }
}

impl Vdp {
    pub open spec fn wf(&self) -> bool {
        self@.wf()
    }

    /// The processor at power-on.
    pub fn new() -> (r: Self)
        ensures
            r.wf(),
            r@.power_on(),
    {
        let r = Vdp {
            engine: CmdCtx {
                regs: [0; 64],
                vram: vec![0; VRAM_SIZE],
                status: [0; 10],
                cpu_xfer: CpuXfer::Idle,
                cpu_xfer_x: 0,
                cpu_xfer_y: 0,
                cmd_busy: 0,
            },
            vram_display: vec![0; VRAM_SIZE],
            vram_address: 0,
            latched_data: 0,
            has_latched_data: false,
            palette: v9938_default_palette(),
            palette_pending: None,
            scanline_snap: vec![LineSnapshot::default(); 256],
            scanline_phase: 0,
            line_irq_pending: false,
        };
        assert(r@ =~= r@.after_reset());
        assert(r@.display =~= Seq::new(VRAM_SIZE as nat, |i: int| 0u8));
        r
    }

    /// Wipe VRAM and registers, so that the BIOS can boot on a clean slate.
    pub fn reset(&mut self)
        requires
            old(self).wf(),
        ensures
            final(self).wf(),
            final(self)@ == old(self)@.after_reset(),
    {
        self.engine = CmdCtx {
            regs: [0; 64],
            vram: vec![0; VRAM_SIZE],
            status: [0; 10],
            cpu_xfer: CpuXfer::Idle,
            cpu_xfer_x: 0,
            cpu_xfer_y: 0,
            cmd_busy: 0,
        };
        self.vram_address = 0;
        self.latched_data = 0;
        self.has_latched_data = false;
        self.palette = v9938_default_palette();
        self.palette_pending = None;
        self.scanline_snap = vec![LineSnapshot::default(); 256];
        self.line_irq_pending = false;
        assert(self@ =~= old(self)@.after_reset());
    }

    /// The visible scan is over. Sets the sprite flags of the frame, keeps the
    /// VRAM that was shown, and raises the frame flags in S0 and S2.
    pub fn start_vblank(&mut self)
        requires
            old(self).wf(),
        ensures
            final(self).wf(),
            final(self)@ == old(self)@.after_vblank(),
    {
        match self.sprite_mode() {
            1 => {
                let s0 = sprites::sprite_status1(
                    &self.engine.vram,
                    &self.engine.regs,
                    self.engine.status[0],
                );
                self.engine.status[0] = s0;
            },
            2 => {
                sprites::sprite_status2(
                    &self.engine.vram,
                    &self.engine.regs,
                    &mut self.engine.status,
                );
            },
            _ => {},
        }
        self.vram_display = self.engine.vram.clone();
        self.engine.status[0] = self.engine.status[0] | 0x80;
        self.engine.status[2] = self.engine.status[2] | 0x40;
        assert(self@ =~= old(self)@.after_vblank());
    }

    /// Drop the vertical retrace flag at the start of a frame.
    pub fn clear_vblank_flag(&mut self)
        requires
            old(self).wf(),
        ensures
            final(self).wf(),
            final(self)@ == old(self)@.with_engine(
                old(self)@.engine.with_status(2, old(self)@.engine.status[2] & !0x40u8),
            ),
    {
        self.engine.status[2] = self.engine.status[2] & !0x40u8;
    }

    fn display_mode_byte(&self) -> (r: u8)
        ensures
            r == display_mode(self@.engine.regs),
    {
        ((self.engine.regs[0] / 2) % 8) * 4 + ((self.engine.regs[1] / 8) % 2) * 2 + (
        self.engine.regs[1] / 16) % 2
    }

    fn sprite_mode(&self) -> (r: u8)
        ensures
            r == sprite_hardware(display_mode(self@.engine.regs)),
    {
        match self.display_mode_byte() {
            0x00 | 0x02 | 0x04 => 1,
            0x08 | 0x0C | 0x10 | 0x14 | 0x1C => 2,
            _ => 0,
        }
    }

    /// Whether the interrupt line is up.
    pub fn is_irq_pending(&self) -> (r: bool)
        ensures
            r == self@.irq(),
    {
        let frame_irq = self.engine.regs[1] & 0x20 != 0 && self.engine.status[0] & 0x80 != 0;
        let line_irq = self.engine.regs[0] & 0x10 != 0 && self.line_irq_pending;
        frame_irq || line_irq
    }

    /// Keep the registers for a scanline. Lines past the last are ignored.
    pub fn snapshot_scanline(&mut self, line: usize)
        requires
            old(self).wf(),
        ensures
            final(self).wf(),
            final(self)@ == (VdpState {
                snaps: if line < 256 {
                    old(self)@.snaps.update(line as int, snapshot_of(old(self)@.engine.regs))
                } else {
                    old(self)@.snaps
                },
                ..old(self)@
            }),
    {
        if line < self.scanline_snap.len() {
            self.scanline_snap[line] = LineSnapshot {
                r0: self.engine.regs[0],
                r1: self.engine.regs[1],
                r2: self.engine.regs[2],
                r3: self.engine.regs[3],
                r4: self.engine.regs[4],
                r5: self.engine.regs[5],
                r6: self.engine.regs[6],
                r7: self.engine.regs[7],
                r8: self.engine.regs[8],
                r10: self.engine.regs[10],
                r11: self.engine.regs[11],
                r23: self.engine.regs[23],
            };
        }
    }

    /// Let `dt` T-states pass.
    pub fn tick(&mut self, dt: i32)
        requires
            old(self).wf(),
            i32::MIN <= old(self)@.phase + dt <= i32::MAX,
            old(self)@.engine.busy > 0 && old(self)@.engine.xfer == CpuXfer::Idle && dt < 0
                ==> old(self)@.engine.busy - dt <= i32::MAX,
        ensures
            final(self).wf(),
            final(self)@ == old(self)@.after_tick(dt as int),
    {
        self.scanline_phase = (self.scanline_phase + dt) % SCANLINE_TSTATES;
        if self.engine.cmd_busy > 0 && self.engine.cpu_xfer == CpuXfer::Idle {
            self.engine.cmd_busy = self.engine.cmd_busy - dt;
            if self.engine.cmd_busy <= 0 {
                self.engine.cmd_busy = 0;
                self.engine.status[2] = self.engine.status[2] & !0x01u8;
            }
        }
    }

    /// The beam is at the start of a scanline.
    pub fn reset_scanline_phase(&mut self)
        requires
            old(self).wf(),
        ensures
            final(self).wf(),
            final(self)@ == (VdpState { phase: 0, ..old(self)@ }),
    {
        self.scanline_phase = 0;
    }

    /// Raise the line interrupt: FH in S1, and the pending flag.
    pub fn fire_line_irq(&mut self)
        requires
            old(self).wf(),
        ensures
            final(self).wf(),
            final(self)@ == (VdpState { line_irq: true, ..old(self)@ }).with_engine(
                old(self)@.engine.with_status(1, old(self)@.engine.status[1] | 0x01),
            ),
    {
        self.engine.status[1] = self.engine.status[1] | 0x01;
        self.line_irq_pending = true;
    }

    /// Drop FH and the pending flag.
    pub fn clear_line_irq_flag(&mut self)
        requires
            old(self).wf(),
        ensures
            final(self).wf(),
            final(self)@ == (VdpState { line_irq: false, ..old(self)@ }).with_engine(
                old(self)@.engine.with_status(1, old(self)@.engine.status[1] & !0x01u8),
            ),
    {
        self.engine.status[1] = self.engine.status[1] & !0x01u8;
        self.line_irq_pending = false;
    }

    /// Whether the line interrupt belongs to this line: two lines after R19, in
    /// lines as R23 has scrolled them.
    pub fn line_irq_target(&self, line: u8) -> (r: bool)
        ensures
            r == ((line + self@.engine.regs[23] - self@.engine.regs[19]) % 256 == 2),
    {
        line.wrapping_add(self.engine.regs[23]).wrapping_sub(self.engine.regs[19]) == 2
    }

    /// The border colour.
    pub fn backdrop_rgba(&self) -> (r: PaletteEntry)
        ensures
            r == self@.backdrop(),
    {
        let r7 = self.engine.regs[7];
        let idx: usize = if self.is_g5_mode() {
            (r7 % 4) as usize
        } else {
            (r7 % 16) as usize
        };
        let c = self.palette[idx];
        PaletteEntry { r: c.r, g: c.g, b: c.b, opaque: true }
    }

    fn is_g5_mode(&self) -> (r: bool)
        ensures
            r == self@.g5(),
    {
        self.display_mode_byte() == 0x10
    }

    /// Whether R9 selects 50 Hz.
    pub fn is_pal(&self) -> (r: bool)
        ensures
            r == (self@.engine.regs[9] & 0x02 != 0),
    {
        self.engine.regs[9] & 0x02 != 0
    }
}

impl Io for Vdp {
    open spec fn io_wf(&self) -> bool {
        self.wf()
    }

    /// Port 0x98 is data, 0x99 status; any other reads as 0xFF.
    fn in8(&mut self, port: u8) -> (r: u8)
        ensures
            r == (if port == 0x98 {
                old(self)@.data()
            } else if port == 0x99 {
                old(self)@.status()
            } else {
                0xFF
            }),
            final(self)@ == (if port == 0x98 {
                old(self)@.after_data_read()
            } else if port == 0x99 {
                old(self)@.after_status_read()
            } else {
                old(self)@
            }),
    {
        match port {
            0x98 => self.read_data(),
            0x99 => self.read_status(),
            _ => 0xFF,
        }
    }

    /// Port 0x98 is data, 0x99 control, 0x9A palette and 0x9B the indirect
    /// register; writes to any other are dropped.
    fn out8(&mut self, port: u8, value: u8)
        ensures
            final(self)@ == (if port == 0x98 {
                old(self)@.after_data_write(value)
            } else if port == 0x99 {
                old(self)@.after_control(value)
            } else if port == 0x9A {
                old(self)@.after_palette(value)
            } else if port == 0x9B {
                old(self)@.after_indirect(value)
            } else {
                old(self)@
            }),
    {
        match port {
            0x98 => self.write_data(value),
            0x99 => self.write_control(value),
            0x9A => self.write_palette(value),
            0x9B => self.write_indirect(value),
            _ => {},
        }
    }
}

/// What a write is about to do, for a trace of the accesses.
impl Vdp {
    /// The register that a write to a port would go to, and the value for it.
    pub fn register_write(&self, port: u8, value: u8) -> (r: Option<(u8, u8)>)
        requires
            self.wf(),
        ensures
            r == self@.register_write(port, value),
    {
        if port == 0x99 && self.has_latched_data && value >= 128 {
            Some((value % 64, self.latched_data))
        } else if port == 0x9B {
            Some((self.engine.regs[17] % 64, value))
        } else {
            None
        }
    }

    /// The palette entry that a write to a port would complete.
    pub fn palette_write(&self, port: u8) -> (r: Option<u8>)
        requires
            self.wf(),
        ensures
            r == self@.palette_write(port),
    {
        if port == 0x9A && self.palette_pending.is_some() {
            Some(self.engine.regs[16] % 16)
        } else {
            None
        }
    }
}

impl Vdp {
    fn read_data(&mut self) -> (r: u8)
        requires
            old(self).wf(),
        ensures
            r == old(self)@.data(),
            final(self)@ == old(self)@.after_data_read(),
            final(self).wf(),
    {
        self.has_latched_data = false;
        let addr = self.full_vram_addr();
        let value = self.engine.vram[addr];
        self.advance_vram_pointer();
        value
    }

    fn read_status(&mut self) -> (r: u8)
        requires
            old(self).wf(),
        ensures
            r == old(self)@.status(),
            final(self)@ == old(self)@.after_status_read(),
            final(self).wf(),
    {
        self.has_latched_data = false;
        let sel: usize = (self.engine.regs[15] % 16) as usize;
        match sel {
            0 => {
                let v = self.engine.status[0];
                self.engine.status[0] = 0;
                v
            },
            1 => {
                let v = self.engine.status[1];
                self.engine.status[1] = v & !0x01u8;
                self.line_irq_pending = false;
                v
            },
            2 => {
                if self.scanline_phase >= HBLANK_START_TSTATE {
                    self.engine.status[2] | 0x20
                } else {
                    self.engine.status[2]
                }
            },
            7 => self.pump_cpu_xfer_read(),
            _ => {
                if sel < 10 {
                    self.engine.status[sel]
                } else {
                    0xFF
                }
            },
        }
    }

    /// S7 as the CPU reads it; a running LMCM transfer moves on.
    fn pump_cpu_xfer_read(&mut self) -> (r: u8)
        requires
            old(self).wf(),
        ensures
            r == old(self)@.engine.status[7],
            final(self)@ == (if old(self)@.engine.xfer == CpuXfer::Lmcm {
                old(self)@.with_engine(old(self)@.engine.drained())
            } else {
                old(self)@
            }),
            final(self).wf(),
    {
        if self.engine.cpu_xfer != CpuXfer::Lmcm {
            return self.engine.status[7];
        }
        proof {
            engine_laws::law_sizes_stay(self.engine@, 0);
        }
        self.engine.pump_read()
    }

    fn write_data(&mut self, value: u8)
        requires
            old(self).wf(),
        ensures
            final(self)@ == old(self)@.after_data_write(value),
            final(self).wf(),
    {
        self.has_latched_data = false;
        let addr = self.full_vram_addr();
        self.engine.vram[addr] = value;
        self.advance_vram_pointer();
    }

    fn full_vram_addr(&self) -> (r: usize)
        requires
            self.wf(),
        ensures
            r == self@.full_address(),
            r < VRAM_SIZE,
    {
        (self.engine.regs[14] % 8) as usize * 16384 + self.vram_address as usize
    }

    fn advance_vram_pointer(&mut self)
        requires
            old(self).wf(),
        ensures
            final(self)@ == old(self)@.stepped(),
            final(self).wf(),
    {
        if self.vram_address + 1 < 16384 {
            self.vram_address = self.vram_address + 1;
        } else {
            self.vram_address = 0;
            if self.is_v9938_only_mode() {
                self.engine.regs[14] = (self.engine.regs[14] % 8 + 1) % 8;
            }
        }
    }

    fn is_v9938_only_mode(&self) -> (r: bool)
        ensures
            r == self@.v9938_mode(),
    {
        self.engine.regs[0] & 0x0C != 0
    }

    fn write_control(&mut self, value: u8)
        requires
            old(self).wf(),
        ensures
            final(self)@ == old(self)@.after_control(value),
            final(self).wf(),
    {
        if !self.has_latched_data {
            self.latched_data = value;
            self.has_latched_data = true;
            return ;
        }
        self.has_latched_data = false;
        if value >= 128 {
            let data = self.latched_data;
            self.write_register((value % 64) as usize, data);
        } else {
            self.vram_address = (value % 64) as u16 * 256 + self.latched_data as u16;
        }
    }

    /// Set one register. R46 starts a command, R44 feeds a running transfer.
    /// Writes to registers that the chip does not have are dropped.
    fn write_register(&mut self, reg: usize, value: u8)
        requires
            old(self).wf(),
            reg < 64,
        ensures
            final(self)@ == old(self)@.with_register(reg as int, value),
            final(self).wf(),
    {
        if (24 <= reg && reg < 32) || reg >= 47 {
            return;
        }
        self.engine.regs[reg] = value;
        proof {
            engine_laws::law_sizes_stay(self.engine@, value);
            engine_laws::law_other_registers_stay(self.engine@, value);
        }
        if reg == 46 {
            self.engine.execute();
        }
        if reg == 44 {
            self.engine.pump_write(value);
        }
    }

    fn write_palette(&mut self, value: u8)
        requires
            old(self).wf(),
        ensures
            final(self)@ == old(self)@.after_palette(value),
            final(self).wf(),
    {
        match self.palette_pending {
            None => {
                self.palette_pending = Some(value);
            },
            Some(first) => {
                let ptr = self.engine.regs[16] % 16;
                self.palette[ptr as usize] = v9938_to_palette_entry(first / 16, value, first);
                self.engine.regs[16] = (ptr + 1) % 16;
                self.palette_pending = None;
            },
        }
    }

    fn write_indirect(&mut self, value: u8)
        requires
            old(self).wf(),
        ensures
            final(self)@ == old(self)@.after_indirect(value),
            final(self).wf(),
    {
        let r17 = self.engine.regs[17];
        self.write_register((r17 % 64) as usize, value);
        if r17 < 128 {
            self.engine.regs[17] = (r17 + 1) % 64;
        }
    }
}

/// Four bytes in one word, the first lowest.
pub open spec fn packed(a: u8, b: u8, c: u8, d: u8) -> int {
    a + b * 0x100 + c * 0x1_0000 + d * 0x100_0000
}

/// The three words of a scanline: for the sprites, the mode and the tables.
pub open spec fn line_words(n: LineSnapshot) -> (int, int, int) {
    (
        packed(n.r5, n.r6, n.r11, n.r23),
        packed(n.r2, n.r0, n.r1, n.r7),
        packed(n.r3, n.r4, n.r10, n.r8),
    )
}

fn pack(a: u8, b: u8, c: u8, d: u8) -> (r: u32)
    ensures
        r == packed(a, b, c, d),
{
    a as u32 + b as u32 * 0x100 + c as u32 * 0x1_0000 + d as u32 * 0x100_0000
}

/// What the renderer needs of the registers: R0 to R23, and three words for
/// each scanline.
pub struct RenderRegs {
    pub regs: Vec<u32>,
    /// R5, R6, R11, R23.
    pub sprites: Vec<u32>,
    /// R2, R0, R1, R7.
    pub modes: Vec<u32>,
    /// R3, R4, R10, R8.
    pub tables: Vec<u32>,
}

impl Vdp {
    /// The register values that the renderer takes with a frame.
    pub fn render_regs(&self) -> (r: RenderRegs)
        requires
            self.wf(),
        ensures
            r.regs.len() == 24,
            forall|i: int| 0 <= i < 24 ==> r.regs@[i] == self@.engine.regs[i],
            r.sprites.len() == 256,
            r.modes.len() == 256,
            r.tables.len() == 256,
            forall|i: int|
                0 <= i < 256 ==> {
                    let n = self@.snaps[i];
                    &&& #[trigger] r.sprites@[i] == packed(n.r5, n.r6, n.r11, n.r23)
                    &&& r.modes@[i] == packed(n.r2, n.r0, n.r1, n.r7)
                    &&& r.tables@[i] == packed(n.r3, n.r4, n.r10, n.r8)
                },
            forall|i: int|
                0 <= i < 256 ==> (
                    #[trigger] r.sprites@[i] as int,
                    r.modes@[i] as int,
                    r.tables@[i] as int,
                ) == line_words(self@.snaps[i]),
    {
        let mut regs: Vec<u32> = Vec::new();
        let mut i: usize = 0;
        while i < 24
            invariant
                i <= 24,
                regs.len() == i,
                forall|k: int| 0 <= k < i ==> regs@[k] == self@.engine.regs[k],
            decreases 24 - i,
        {
            regs.push(self.engine.regs[i] as u32);
            i = i + 1;
        }
        let mut sprites: Vec<u32> = Vec::new();
        let mut modes: Vec<u32> = Vec::new();
        let mut tables: Vec<u32> = Vec::new();
        let mut line: usize = 0;
        while line < 256
            invariant
                self.wf(),
                line <= 256,
                sprites.len() == line,
                modes.len() == line,
                tables.len() == line,
                forall|k: int|
                    0 <= k < line ==> {
                        let n = self@.snaps[k];
                        &&& #[trigger] sprites@[k] == packed(n.r5, n.r6, n.r11, n.r23)
                        &&& modes@[k] == packed(n.r2, n.r0, n.r1, n.r7)
                        &&& tables@[k] == packed(n.r3, n.r4, n.r10, n.r8)
                    },
            decreases 256 - line,
        {
            let n = self.scanline_snap[line];
            sprites.push(pack(n.r5, n.r6, n.r11, n.r23));
            modes.push(pack(n.r2, n.r0, n.r1, n.r7));
            tables.push(pack(n.r3, n.r4, n.r10, n.r8));
            line = line + 1;
        }
        RenderRegs { regs, sprites, modes, tables }
    }

    /// VRAM as the beam last scanned it out.
    pub fn display_vram(&self) -> (r: &Vec<u8>)
        ensures
            r@ == self@.display,
    {
        &self.vram_display
    }

    /// VRAM.
    pub fn vram(&self) -> (r: &Vec<u8>)
        ensures
            r@ == self@.engine.vram,
    {
        &self.engine.vram
    }

    /// Registers R0 to R63.
    pub fn regs(&self) -> (r: &[u8; 64])
        ensures
            r@ == self@.engine.regs,
    {
        &self.engine.regs
    }

    /// Status registers S0 to S9.
    pub fn status(&self) -> (r: &[u8; 10])
        ensures
            r@ == self@.engine.status,
    {
        &self.engine.status
    }

    /// The palette.
    pub fn palette(&self) -> (r: &[PaletteEntry; 16])
        ensures
            r@ == self@.palette,
    {
        &self.palette
    }
}

/// Registers of the demo picture: SCREEN 2 on a dark blue border.
pub open spec fn demo_regs() -> Seq<u8> {
    seq![0x02, 0xC0, 0x06, 0xFF, 0x03, 0x36, 0x07, 0x04]
}

/// Colours of the eight bars.
pub open spec fn bar_colour(i: int) -> u8 {
    if i == 0 {
        2
    } else if i == 1 {
        3
    } else if i == 2 {
        5
    } else if i == 3 {
        7
    } else if i == 4 {
        8
    } else if i == 5 {
        11
    } else if i == 6 {
        13
    } else {
        15
    }
}

/// VRAM of the demo picture: tiles 1 to 8 are solid in all three banks, the
/// middle third of the name table has four columns of each, and tile `n` has
/// the colour of bar `n` there.
pub open spec fn demo_byte(a: int) -> u8 {
    let tile = (a / 8) % 256;
    if a < 0x1800 {
        if 1 <= tile <= 8 {
            0xFF
        } else {
            0
        }
    } else if 0x1900 <= a < 0x1A00 {
        ((a % 32) / 4 + 1) as u8
    } else if 0x2800 <= a < 0x3000 && 1 <= tile <= 8 {
        (bar_colour(tile - 1) * 16) as u8
    } else {
        0
    }
}

fn demo_value(a: usize) -> (r: u8)
    ensures
        r == demo_byte(a as int),
{
    let tile: usize = (a / 8) % 256;
    let bars: [u8; 8] = [2, 3, 5, 7, 8, 11, 13, 15];
    if a < 0x1800 {
        if 1 <= tile && tile <= 8 {
            0xFF
        } else {
            0
        }
    } else if 0x1900 <= a && a < 0x1A00 {
        ((a % 32) / 4 + 1) as u8
    } else if 0x2800 <= a && a < 0x3000 && 1 <= tile && tile <= 8 {
        bars[tile - 1] * 16
    } else {
        0
    }
}

impl Vdp {
    /// A picture without a CPU: eight coloured bars.
    pub fn load_demo(&mut self)
        requires
            old(self).wf(),
        ensures
            final(self).wf(),
            final(self)@ == old(self)@.with_engine(
                EngineState {
                    regs: demo_regs() + old(self)@.engine.regs.skip(8),
                    vram: Seq::new(VRAM_SIZE as nat, |a: int| demo_byte(a)),
                    ..old(self)@.engine
                },
            ),
    {
        let demo: [u8; 8] = [0x02, 0xC0, 0x06, 0xFF, 0x03, 0x36, 0x07, 0x04];
        let mut i: usize = 0;
        while i < 8
            invariant
                i <= 8,
                demo@ == demo_regs(),
                self@ == old(self)@.with_regs(
                    demo_regs().take(i as int) + old(self)@.engine.regs.skip(i as int),
                ),
                self@.engine.regs.len() == 64,
                old(self)@.engine.regs.len() == 64,
            decreases 8 - i,
        {
            self.engine.regs[i] = demo[i];
            assert(self@.engine.regs =~= demo_regs().take(i + 1) + old(self)@.engine.regs.skip(
                i + 1,
            ));
            i = i + 1;
        }
        assert(demo_regs().take(8) =~= demo_regs());
        let mut vram: Vec<u8> = Vec::new();
        let mut a: usize = 0;
        while a < VRAM_SIZE
            invariant
                a <= VRAM_SIZE,
                vram.len() == a,
                forall|k: int| 0 <= k < a ==> vram@[k] == demo_byte(k),
            decreases VRAM_SIZE - a,
        {
            vram.push(demo_value(a));
            a = a + 1;
        }
        assert(vram@ =~= Seq::new(VRAM_SIZE as nat, |a: int| demo_byte(a)));
        self.engine.vram = vram;
    }
}

/// In the modes that the TMS9918 did not have, a data access moves on through
/// all of VRAM; in the others it stays in its 16 KiB bank.
pub proof fn law_data_address_counts(s: VdpState, value: u8)
    requires
        s.wf(),
    ensures
        s.v9938_mode() ==> s.after_data_read().full_address() == (s.full_address() + 1) % 131072
            && s.after_data_write(value).full_address() == (s.full_address() + 1) % 131072,
        !s.v9938_mode() ==> {
            let bank = s.full_address() / 16384;
            &&& s.after_data_read().full_address() == bank * 16384 + (s.full_address() + 1) % 16384
            &&& s.after_data_write(value).full_address() == bank * 16384 + (s.full_address() + 1)
                % 16384
        },
{
}

/// The state with the data address at `lo` and `hi`, as two writes to the
/// control port set it.
pub open spec fn addressed(s: VdpState, lo: u8, hi: u8) -> VdpState {
    s.after_control(lo).after_control(hi)
}

proof fn lemma_addressed(s: VdpState, lo: u8, hi: u8)
    requires
        !s.has_latched,
        hi < 128,
    ensures
        addressed(s, lo, hi) == (VdpState {
            latched: lo,
            has_latched: false,
            address: (hi % 64) * 256 + lo,
            ..s
        }),
{
}

/// A byte written through the data port reads back through it once the address
/// is set again. (The access must not carry into R14, which is not part of the
/// address that is set.)
pub proof fn law_data_reads_back(s: VdpState, lo: u8, hi: u8, value: u8)
    requires
        s.wf(),
        !s.has_latched,
        hi < 128,
        (lo, hi % 64) != (255u8, 63u8) || !s.v9938_mode(),
    ensures
        addressed(addressed(s, lo, hi).after_data_write(value), lo, hi).data() == value,
{
    lemma_addressed(s, lo, hi);
    let a = addressed(s, lo, hi);
    let w = a.after_data_write(value);
    assert(w.engine.regs[14] == s.engine.regs[14]);
    assert(w.engine.vram[a.full_address()] == value);
    lemma_addressed(w, lo, hi);
}

/// Two writes to the palette port set the entry that R16 points at and no
/// other, and move R16 to the next one.
pub proof fn law_palette_pair_sets_entry(s: VdpState, first: u8, second: u8, i: int)
    requires
        s.wf(),
        s.pending is None,
        0 <= i < 16,
    ensures
        ({
            let t = s.after_palette(first).after_palette(second);
            let ptr = (s.engine.regs[16] % 16) as int;
            &&& t.pending is None
            &&& t.palette[ptr] == colour(first / 16, second, first)
            &&& i != ptr ==> t.palette[i] == s.palette[i]
            &&& t.engine.regs[16] == (ptr + 1) % 16
        }),
{
}

proof fn lemma_flag_bits(b: u8)
    by (bit_vector)
    ensures
        (b | 0x80) & 0x80 != 0,
        (b & !0x01u8) & 0x01 == 0,
        (b | 0x01) & 0x01 != 0,
        0u8 & 0x80 == 0,
{
}

/// A frame interrupt stays pending until S0 is read, a line interrupt until S1
/// is read; the read acknowledges it.
pub proof fn law_status_read_acknowledges(s: VdpState)
    requires
        s.wf(),
    ensures
        s.selected() == 0 && !s.line_irq ==> !s.after_status_read().irq(),
        s.selected() == 1 ==> !s.after_status_read().line_irq
            && s.after_status_read().engine.status[1] & 0x01 == 0,
        s.selected() > 1 ==> s.after_status_read().irq() == s.irq(),
        s.engine.regs[1] & 0x20 != 0 ==> s.after_vblank().irq(),
{
    lemma_flag_bits(s.engine.status[1]);
    lemma_flag_bits(s.after_vblank().engine.status[0]);
    let e = s.engine;
    let mode = sprite_hardware(display_mode(e.regs));
    let status = if mode == 1 {
        e.status.update(0, sprites::status1(e.vram, e.regs, e.status[0]))
    } else if mode == 2 {
        sprites::status2(e.vram, e.regs, e.status)
    } else {
        e.status
    };
    lemma_flag_bits(status[0]);
}

/// CE does not outlast the duration of a command: once as many T-states have
/// passed, it is down.
pub proof fn law_busy_runs_out(s: VdpState, dt: int)
    requires
        s.wf(),
        s.engine.busy > 0,
        s.engine.xfer == CpuXfer::Idle,
    ensures
        dt >= s.engine.busy <==> s.after_tick(dt).engine.busy == 0,
        dt >= s.engine.busy ==> s.after_tick(dt).engine.status[2] & 0x01 == 0,
        dt < s.engine.busy ==> s.after_tick(dt).engine.status == s.engine.status,
{
    lemma_flag_bits(s.engine.status[2]);
}

/// While a transfer through the CPU is under way, the passing of time moves the
/// beam and changes nothing in the engine.
pub proof fn law_transfer_stops_timer(s: VdpState, dt: int)
    requires
        s.wf(),
        s.engine.xfer != CpuXfer::Idle,
    ensures
        s.after_tick(dt) == (VdpState { phase: beam_phase(s.phase + dt), ..s }),
{
}

/// The registers change through the control port and the indirect port as
/// `register_write` tells beforehand: what happens to the engine is what setting
/// that register does, and else only the pointer in R17 moves. No other write to
/// the control port touches the engine. The
/// palette changes at most in the entry that `palette_write` tells.
pub proof fn law_writes_are_told(s: VdpState, value: u8)
    requires
        s.wf(),
    ensures
        match s.register_write(0x99, value) {
            Some((reg, v)) => s.after_control(value).engine == s.with_register(
                reg as int,
                v,
            ).engine,
            None => s.after_control(value).engine == s.engine,
        },
        s.register_write(0x9B, value) matches Some((reg, v)) && ({
            let set = s.with_register(reg as int, v).engine;
            let after = s.after_indirect(value).engine;
            after == (EngineState { regs: set.regs.update(17, after.regs[17]), ..set })
        }),
        match s.palette_write(0x9A) {
            Some(i) => forall|j: int|
                0 <= j < 16 && j != i ==> s.after_palette(value).palette[j] == s.palette[j],
            None => s.after_palette(value).palette == s.palette,
        },
{
    let set = s.with_register((s.engine.regs[17] % 64) as int, value).engine;
    let after = s.after_indirect(value).engine;
    assert(after.regs =~= set.regs.update(17, after.regs[17]));
}

/// Writes to R44 and reads of S7 are what moves a transfer: the register that a
/// write sets feeds it, and a read gives what stands in S7 and moves on.
pub proof fn law_ports_move_transfers(s: VdpState, value: u8)
    requires
        s.wf(),
    ensures
        s.with_register(44, value).engine == stream_laws::given(s.engine, value),
        s.selected() == 7 ==> s.status() == s.engine.status[7],
        s.selected() == 7 && s.engine.xfer == CpuXfer::Lmcm ==> s.after_status_read().engine
            == s.engine.drained(),
{
}

} // verus!
