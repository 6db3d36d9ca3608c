//! The WD2793 floppy disk controller and one drive.
//!
//! Its registers lie in the top eight bytes of the disk ROM:
//!
//! - 0: status when read, command when written
//! - 1: track
//! - 2: sector
//! - 3: data; the bytes of a sector pass through here
//! - 4: side, in bit 0
//! - 5: drive
//! - 6 and 7: DRQ in bit 7 and INTRQ in bit 6, both low when active
//!
//! Commands are done at once. A disk image is the sequence of its sectors, nine
//! of 512 bytes to a side of a track, and writes change the image in memory.
pub mod head_laws;

use vstd::prelude::*;

verus! {

const SECTOR_SIZE: usize = 512;

const SECTORS_PER_TRACK: u8 = 9;

/// Bytes of a formatted track.
const TRACK_SIZE: u32 = 6250;

/// A disk as values.
#[verifier::ext_equal]
pub struct Disk {
    pub data: Seq<u8>,
    pub sides: int,
}

impl Disk {
    /// Where a sector starts in the image; sectors count from 1. There is none
    /// past the ninth, on a side that the disk lacks, or past the end.
    pub open spec fn offset(self, track: u8, side: u8, sector: u8) -> Option<int> {
        let at = ((track * self.sides + side) * 9 + (sector - 1)) * 512;
        if 1 <= sector <= 9 && side < self.sides && at + 512 <= self.data.len() {
            Some(at)
        } else {
            None
        }
    }
}

/// The disk that an image is: one of 360 KiB has one side, and one of any other
/// size is taken to have two.
pub open spec fn disk_of(data: Seq<u8>) -> Disk {
    Disk {
        data,
        sides: if data.len() == 368640 {
            1
        } else {
            2
        },
    }
}

/// A disk image.
pub struct DiskImage {
    data: Vec<u8>,
    sides: u8,
}

impl View for DiskImage {
    type V = Disk;

    closed spec fn view(&self) -> Disk {
        Disk { data: self.data@, sides: self.sides as int }
    }
}

impl DiskImage {
    pub open spec fn wf(&self) -> bool {
        self@ == disk_of(self@.data)
    }

    /// The disk that an image is. Its length tells how many sides it has.
    pub fn new(data: Vec<u8>) -> (r: Self)
        ensures
            r@ == disk_of(data@),
            r.wf(),
    {
        let sides: u8 = if data.len() == 80 * 9 * SECTOR_SIZE {
            1
        } else {
            2
        };
        DiskImage { data, sides }
    }

    /// Where a sector starts in the image.
    fn offset(&self, track: u8, side: u8, sector: u8) -> (r: Option<usize>)
        requires
            self.wf(),
        ensures
            match r {
                Some(at) => self@.offset(track, side, sector) == Some(at as int) && at + 512
                    <= self@.data.len(),
                None => self@.offset(track, side, sector) is None,
            },
    {
        if sector == 0 || sector > SECTORS_PER_TRACK || side >= self.sides {
            return None;
        }
        let tracks: usize = if self.sides == 1 {
            track as usize
        } else {
            track as usize * 2
        };
        assert(track as int * self@.sides == tracks) by (nonlinear_arith)
            requires
                self@.sides == 1 && tracks == track || self@.sides == 2 && tracks == track * 2,
        ;
        let at: usize = ((tracks + side as usize) * 9 + (sector as usize - 1)) * SECTOR_SIZE;
        if at + SECTOR_SIZE <= self.data.len() {
            Some(at)
        } else {
            None
        }
    }
}

impl DiskImage {
    /// Put a sector into the image.
    fn store(&mut self, offset: usize, bytes: &Vec<u8>)
        requires
            bytes.len() == 512,
            offset + 512 <= old(self)@.data.len(),
        ensures
            final(self)@ == (Disk {
                data: overwritten(old(self)@.data, offset as int, bytes@),
                ..old(self)@
            }),
    {
        let ghost data0 = self.data@;
        let mut i: usize = 0;
        while i < SECTOR_SIZE
            invariant
                i <= 512,
                bytes.len() == 512,
                offset + 512 <= self.data.len(),
                data0.len() == self.data.len(),
                self.sides == old(self).sides,
                self.data@ =~= overwritten(data0, offset as int, bytes@.take(i as int)),
            decreases 512 - i,
        {
            self.data[offset + i] = bytes[i];
            i = i + 1;
        }
        assert(bytes@.take(512) =~= bytes@);
    }
}

/// A transfer through the data register.
pub enum Flow {
    Idle,
    /// Bytes of `buffer` from `pos` on go to the CPU.
    Read { buffer: Seq<u8>, pos: int },
    /// Bytes of the sector at `offset` come from the CPU.
    Write { buffer: Seq<u8>, offset: int },
    /// Bytes of a track to format come from the CPU, and are dropped.
    Format { count: int },
}

/// Everything the controller holds, as values.
pub struct FdcState {
    pub disk: Option<Disk>,
    pub track: u8,
    pub sector: u8,
    pub data: u8,
    pub status: u8,
    pub side: u8,
    pub drive: u8,
    /// The last command moved the head: the status has its bits for that.
    pub type1: bool,
    pub flow: Flow,
    pub intrq: bool,
    /// The index pulse, which comes and goes with every read of it.
    pub index: bool,
}

impl FdcState {
    /// The status is one of four: nothing to tell, busy, no such sector, head
    /// loaded. It is busy only while the bytes of a sector pass.
    pub open spec fn wf(self) -> bool {
        &&& self.disk matches Some(d) ==> d == disk_of(d.data)
        &&& self.status == 0 || self.status == 0x01 || self.status == 0x10 || self.status == 0x20
        &&& self.status == 0x01 ==> self.flow !is Idle && !self.type1
        &&& match self.flow {
            Flow::Idle => true,
            Flow::Read { buffer, pos } => 0 <= pos < buffer.len(),
            Flow::Write { buffer, offset } => buffer.len() < 512 && 0 <= offset
                && self.disk is Some && offset + 512 <= self.disk->Some_0.data.len(),
            Flow::Format { count } => 0 <= count < 6250,
        }
    }

    /// The controller at power-on.
    pub open spec fn power_on(disk: Option<Disk>) -> FdcState {
        FdcState {
            disk,
            track: 0,
            sector: 1,
            data: 0,
            status: 0,
            side: 0,
            drive: 0,
            type1: true,
            flow: Flow::Idle,
            intrq: false,
            index: false,
        }
    }

    /// There is a disk in the drive that is selected; drive B does not exist.
    pub open spec fn ready(self) -> bool {
        self.disk is Some && self.drive % 2 == 0
    }

    /// Where the selected sector starts.
    pub open spec fn place(self) -> Option<int> {
        match self.disk {
            Some(d) if self.ready() => d.offset(self.track, self.side, self.sector),
            _ => None,
        }
    }

    /// The status register. After a head command it tells track 0 and the index
    /// pulse, after any other the data request; bit 7 says not ready.
    pub open spec fn status_value(self) -> u8 {
        let st = if self.ready() {
            self.status
        } else {
            self.status | 0x80
        };
        if self.type1 {
            let st = if self.track == 0 {
                st | 0x04
            } else {
                st
            };
            if !self.index {
                st | 0x02
            } else {
                st
            }
        } else if self.flow !is Idle {
            st | 0x02
        } else {
            st
        }
    }

    /// DRQ and INTRQ, low when active.
    pub open spec fn request_value(self) -> u8 {
        if self.flow !is Idle {
            if self.intrq {
                0x3F
            } else {
                0x7F
            }
        } else if self.intrq {
            0xBF
        } else {
            0xFF
        }
    }

    /// What a read of register `r` gives.
    pub open spec fn value(self, r: int) -> u8 {
        if r == 0 {
            self.status_value()
        } else if r == 1 {
            self.track
        } else if r == 2 {
            self.sector
        } else if r == 3 {
            match self.flow {
                Flow::Read { buffer, pos } => buffer[pos],
                _ => self.data,
            }
        } else if r == 4 {
            self.side
        } else if r == 5 {
            self.drive
        } else {
            self.request_value()
        }
    }

    /// A command done: not busy, INTRQ up.
    pub open spec fn done(self) -> FdcState {
        FdcState { flow: Flow::Idle, status: 0, intrq: true, ..self }
    }

    /// The controller after a read of register `r`: the status drops INTRQ and
    /// moves the index pulse, the data register takes the next byte.
    pub open spec fn after_read(self, r: int) -> FdcState {
        if r == 0 {
            FdcState {
                intrq: false,
                index: if self.type1 {
                    !self.index
                } else {
                    self.index
                },
                ..self
            }
        } else if r == 3 {
            match self.flow {
                Flow::Read { buffer, pos } => {
                    let s = FdcState { data: buffer[pos], ..self };
                    if pos + 1 >= buffer.len() {
                        s.done()
                    } else {
                        FdcState { flow: Flow::Read { buffer, pos: pos + 1 }, ..s }
                    }
                },
                _ => self,
            }
        } else {
            self
        }
    }

    /// A head command done, with the head at a track.
    pub open spec fn at_track(self, track: int) -> FdcState {
        FdcState { track: track as u8, type1: true, status: 0x20, intrq: true, ..self }
    }

    /// A sector command for a sector that is not there.
    pub open spec fn not_found(self) -> FdcState {
        FdcState { type1: false, status: 0x10, intrq: true, ..self }
    }

    /// READ SECTOR.
    pub open spec fn reading(self) -> FdcState {
        match self.place() {
            None => self.not_found(),
            Some(at) => FdcState {
                type1: false,
                status: 0x01,
                flow: Flow::Read {
                    buffer: self.disk->Some_0.data.subrange(at, at + 512),
                    pos: 0,
                },
                ..self
            },
        }
    }

    /// WRITE SECTOR.
    pub open spec fn writing(self) -> FdcState {
        match self.place() {
            None => self.not_found(),
            Some(at) => FdcState {
                type1: false,
                status: 0x01,
                flow: Flow::Write { buffer: Seq::empty(), offset: at },
                ..self
            },
        }
    }

    /// A command. The high four bits select it: RESTORE, SEEK, steps inwards and
    /// outwards, READ SECTOR, WRITE SECTOR, READ ADDRESS, FORCE INTERRUPT, READ
    /// TRACK and WRITE TRACK.
    pub open spec fn commanded(self, cmd: u8) -> FdcState {
        let s = FdcState { intrq: false, ..self };
        let c = cmd / 16;
        if c == 0 {
            s.at_track(0)
        } else if c == 1 {
            s.at_track(self.data as int)
        } else if c <= 5 {
            s.at_track(
                if self.track < 255 {
                    self.track + 1
                } else {
                    255
                },
            )
        } else if c <= 7 {
            s.at_track(
                if self.track > 0 {
                    self.track - 1
                } else {
                    0
                },
            )
        } else if c <= 9 {
            s.reading()
        } else if c <= 0xB {
            s.writing()
        } else if c == 0xC {
            FdcState {
                type1: false,
                status: 0,
                flow: Flow::Read {
                    buffer: seq![self.track, self.side, self.sector, 2, 0, 0],
                    pos: 0,
                },
                ..s
            }
        } else if c == 0xD {
            FdcState { type1: true, ..s.done() }
        } else if c == 0xE {
            FdcState { type1: false, status: 0, intrq: true, ..s }
        } else {
            FdcState { type1: false, status: 0, flow: Flow::Format { count: 0 }, ..s }
        }
    }

    /// A byte to the data register. The last byte of a sector puts the sector
    /// into the image.
    pub open spec fn fed(self, value: u8) -> FdcState {
        let s = FdcState { data: value, ..self };
        match self.flow {
            Flow::Write { buffer, offset } => {
                let b = buffer.push(value);
                if b.len() >= 512 {
                    let d = self.disk->Some_0;
                    FdcState {
                        disk: Some(Disk { data: overwritten(d.data, offset, b), ..d }),
                        ..s.done()
                    }
                } else {
                    FdcState { flow: Flow::Write { buffer: b, offset }, ..s }
                }
            },
            Flow::Format { count } => if count + 1 >= 6250 {
                s.done()
            } else {
                FdcState { flow: Flow::Format { count: count + 1 }, ..s }
            },
            _ => s,
        }
    }

    /// A write to register `r`.
    pub open spec fn after_write(self, r: int, value: u8) -> FdcState {
        if r == 0 {
            self.commanded(value)
        } else if r == 1 {
            FdcState { track: value, ..self }
        } else if r == 2 {
            FdcState { sector: value, ..self }
        } else if r == 3 {
            self.fed(value)
        } else if r == 4 {
            FdcState { side: value % 2, ..self }
        } else if r == 5 {
            FdcState { drive: value, ..self }
        } else {
            self
        }
    }
}

/// `data` with `bytes` in place from `at` on.
pub open spec fn overwritten(data: Seq<u8>, at: int, bytes: Seq<u8>) -> Seq<u8> {
    Seq::new(
        data.len(),
        |i: int|
            if at <= i < at + bytes.len() {
                bytes[i - at]
            } else {
                data[i]
            },
    )
}

/// What moves through the data register; the bytes are in the buffer beside it.
#[derive(Copy, Clone)]
enum Transfer {
    Idle,
    Read { pos: usize },
    Write { offset: usize },
    Format { count: u32 },
}

/// The controller.
pub struct Wd2793 {
    disk: Option<DiskImage>,
    track: u8,
    sector: u8,
    data: u8,
    status: u8,
    side: u8,
    drive: u8,
    type1_status: bool,
    transfer: Transfer,
    buffer: Vec<u8>,
    intrq: bool,
    index_flip: bool,
}

impl View for Wd2793 {
    type V = FdcState;

    closed spec fn view(&self) -> FdcState {
        FdcState {
            disk: match self.disk {
                Some(d) => Some(d@),
                None => None,
            },
            track: self.track,
            sector: self.sector,
            data: self.data,
            status: self.status,
            side: self.side,
            drive: self.drive,
            type1: self.type1_status,
            flow: match self.transfer {
                Transfer::Idle => Flow::Idle,
                Transfer::Read { pos } => Flow::Read { buffer: self.buffer@, pos: pos as int },
                Transfer::Write { offset } => Flow::Write {
                    buffer: self.buffer@,
                    offset: offset as int,
                },
                Transfer::Format { count } => Flow::Format { count: count as int },
            },
            intrq: self.intrq,
            index: self.index_flip,
        }
    }
}

impl Wd2793 {
    pub open spec fn wf(&self) -> bool {
        self@.wf()
    }

    /// The controller at power-on, with or without a disk.
    pub fn new(disk: Option<DiskImage>) -> (r: Self)
        requires
            disk matches Some(d) ==> d.wf(),
        ensures
            r.wf(),
            r@ == FdcState::power_on(
                match disk {
                    Some(d) => Some(d@),
                    None => None,
                },
            ),
    {
        Wd2793 {
            disk,
            track: 0,
            sector: 1,
            data: 0,
            status: 0,
            side: 0,
            drive: 0,
            type1_status: true,
            transfer: Transfer::Idle,
            buffer: Vec::new(),
            intrq: false,
            index_flip: false,
        }
    }

    fn drive_ready(&self) -> (r: bool)
        ensures
            r == self@.ready(),
    {
        self.disk.is_some() && self.drive % 2 == 0
    }

    fn drq(&self) -> (r: bool)
        ensures
            r == self@.flow !is Idle,
    {
        match self.transfer {
            Transfer::Idle => false,
            _ => true,
        }
    }

    /// What a read of a register gives.
    pub fn peek(&self, addr: u16) -> (r: u8)
        requires
            self.wf(),
        ensures
            r == self@.value(addr as int % 8),
    {
        match addr % 8 {
            0 => {
                let mut st: u8 = self.status;
                if !self.drive_ready() {
                    st = st | 0x80;
                }
                if self.type1_status {
                    if self.track == 0 {
                        st = st | 0x04;
                    }
                    if !self.index_flip {
                        st = st | 0x02;
                    }
                } else if self.drq() {
                    st = st | 0x02;
                }
                st
            },
            1 => self.track,
            2 => self.sector,
            3 => match self.transfer {
                Transfer::Read { pos } => self.buffer[pos],
                _ => self.data,
            },
            4 => self.side,
            5 => self.drive,
            _ => {
                if self.drq() {
                    if self.intrq {
                        0x3F
                    } else {
                        0x7F
                    }
                } else if self.intrq {
                    0xBF
                } else {
                    0xFF
                }
            },
        }
    }

    /// Read a register.
    pub fn read(&mut self, addr: u16) -> (r: u8)
        requires
            old(self).wf(),
        ensures
            final(self).wf(),
            r == old(self)@.value(addr as int % 8),
            final(self)@ == old(self)@.after_read(addr as int % 8),
    {
        let value = self.peek(addr);
        match addr % 8 {
            0 => {
                self.intrq = false;
                if self.type1_status {
                    self.index_flip = !self.index_flip;
                }
            },
            3 => {
                if let Transfer::Read { pos } = self.transfer {
                    self.data = value;
                    if self.buffer.len() - pos <= 1 {
                        self.finish();
                    } else {
                        self.transfer = Transfer::Read { pos: pos + 1 };
                    }
                }
            },
            _ => {},
        }
        value
    }

    fn finish(&mut self)
        requires
            old(self)@.disk matches Some(d) ==> d == disk_of(d.data),
        ensures
            final(self).wf(),
            final(self)@ == old(self)@.done(),
    {
        self.transfer = Transfer::Idle;
        self.status = 0;
        self.intrq = true;
    }

    /// Write a register.
    pub fn write(&mut self, addr: u16, value: u8)
        requires
            old(self).wf(),
        ensures
            final(self).wf(),
            final(self)@ == old(self)@.after_write(addr as int % 8, value),
    {
        match addr % 8 {
            0 => self.command(value),
            1 => {
                self.track = value;
            },
            2 => {
                self.sector = value;
            },
            3 => self.write_data(value),
            4 => {
                self.side = value % 2;
            },
            5 => {
                self.drive = value;
            },
            _ => {},
        }
    }

    fn command(&mut self, cmd: u8)
        requires
            old(self).wf(),
        ensures
            final(self).wf(),
            final(self)@ == old(self)@.commanded(cmd),
    {
        self.intrq = false;
        match cmd / 16 {
            0x0 => self.finish_type1(0),
            0x1 => {
                let target = self.data;
                self.finish_type1(target);
            },
            0x2 | 0x3 | 0x4 | 0x5 => {
                let target = self.track.saturating_add(1);
                self.finish_type1(target);
            },
            0x6 | 0x7 => {
                let target = self.track.saturating_sub(1);
                self.finish_type1(target);
            },
            0x8 | 0x9 => self.begin_read(),
            0xA | 0xB => self.begin_write(),
            0xC => {
                self.type1_status = false;
                self.status = 0;
                self.buffer = vec![self.track, self.side, self.sector, 2, 0, 0];
                self.transfer = Transfer::Read { pos: 0 };
            },
            0xD => {
                self.finish();
                self.type1_status = true;
            },
            0xE => {
                self.type1_status = false;
                self.status = 0;
                self.intrq = true;
            },
            _ => {
                self.type1_status = false;
                self.status = 0;
                self.transfer = Transfer::Format { count: 0 };
            },
        }
    }

    fn finish_type1(&mut self, track: u8)
        requires
            old(self).wf(),
        ensures
            final(self).wf(),
            final(self)@ == old(self)@.at_track(track as int),
    {
        self.track = track;
        self.type1_status = true;
        self.status = 0x20;
        self.intrq = true;
    }

    fn selected_offset(&self) -> (r: Option<usize>)
        requires
            self.wf(),
        ensures
            match r {
                Some(at) => self@.place() == Some(at as int) && self@.disk is Some && at + 512
                    <= self@.disk->Some_0.data.len(),
                None => self@.place() is None,
            },
    {
        if !self.drive_ready() {
            return None;
        }
        match &self.disk {
            Some(d) => d.offset(self.track, self.side, self.sector),
            None => None,
        }
    }

    fn begin_read(&mut self)
        requires
            old(self).wf(),
        ensures
            final(self).wf(),
            final(self)@ == old(self)@.reading(),
    {
        self.type1_status = false;
        match self.selected_offset() {
            None => {
                self.status = 0x10;
                self.intrq = true;
            },
            Some(at) => {
                if let Some(d) = &self.disk {
                    let mut buffer: Vec<u8> = Vec::new();
                    let mut i: usize = 0;
                    while i < SECTOR_SIZE
                        invariant
                            i <= 512,
                            at + 512 <= d.data.len(),
                            buffer.len() == i,
                            forall|k: int| 0 <= k < i ==> buffer@[k] == d.data@[at + k],
                        decreases 512 - i,
                    {
                        buffer.push(d.data[at + i]);
                        i = i + 1;
                    }
                    assert(buffer@ =~= d.data@.subrange(at as int, at + 512));
                    self.buffer = buffer;
                }
                self.status = 0x01;
                self.transfer = Transfer::Read { pos: 0 };
            },
        }
    }

    fn begin_write(&mut self)
        requires
            old(self).wf(),
        ensures
            final(self).wf(),
            final(self)@ == old(self)@.writing(),
    {
        self.type1_status = false;
        match self.selected_offset() {
            None => {
                self.status = 0x10;
                self.intrq = true;
            },
            Some(at) => {
                self.status = 0x01;
                self.buffer = Vec::new();
                self.transfer = Transfer::Write { offset: at };
            },
        }
    }

    fn write_data(&mut self, value: u8)
        requires
            old(self).wf(),
        ensures
            final(self).wf(),
            final(self)@ == old(self)@.fed(value),
    {
        self.data = value;
        match self.transfer {
            Transfer::Write { offset } => {
                self.buffer.push(value);
                if self.buffer.len() >= SECTOR_SIZE {
                    self.store_sector(offset);
                    self.finish();
                }
            },
            Transfer::Format { count } => {
                if count + 1 >= TRACK_SIZE {
                    self.finish();
                } else {
                    self.transfer = Transfer::Format { count: count + 1 };
                }
            },
            _ => {},
        }
    }

    /// Put the bytes of the buffer into the image.
    fn store_sector(&mut self, offset: usize)
        requires
            old(self)@.disk is Some,
            old(self).buffer.len() == 512,
            offset + 512 <= old(self)@.disk->Some_0.data.len(),
        ensures
            final(self)@ == (FdcState {
                disk: Some(
                    Disk {
                        data: overwritten(
                            old(self)@.disk->Some_0.data,
                            offset as int,
                            old(self).buffer@,
                        ),
                        ..old(self)@.disk->Some_0
                    },
                ),
                ..old(self)@
            }),
    {
        let mut disk = self.disk.take();
        if let Some(d) = &mut disk {
            d.store(offset, &self.buffer);
        }
        self.disk = disk;
    }
}

/// The controller after some bytes to the data register.
pub open spec fn fed_all(s: FdcState, bytes: Seq<u8>) -> FdcState
    decreases bytes.len(),
{
    if bytes.len() == 0 {
        s
    } else {
        fed_all(s.fed(bytes[0]), bytes.skip(1))
    }
}

/// The controller after `n` reads of the data register.
pub open spec fn read_on(s: FdcState, n: int) -> FdcState
    decreases n,
{
    if n <= 0 {
        s
    } else {
        read_on(s.after_read(3), n - 1)
    }
}

/// The bytes that `n` reads of the data register give.
pub open spec fn drained(s: FdcState, n: int) -> Seq<u8>
    decreases n,
{
    if n <= 0 {
        Seq::empty()
    } else {
        seq![s.value(3)] + drained(s.after_read(3), n - 1)
    }
}

/// A command byte that reads a sector.
pub open spec fn reads_sector(cmd: u8) -> bool {
    0x80 <= cmd < 0xA0
}

/// A command byte that writes a sector.
pub open spec fn writes_sector(cmd: u8) -> bool {
    0xA0 <= cmd < 0xC0
}

/// Bytes short of a sector are kept back, and change nothing else.
proof fn lemma_feed_some(s: FdcState, bytes: Seq<u8>, offset: int, buffer: Seq<u8>)
    requires
        s.flow == (Flow::Write { buffer, offset }),
        buffer.len() + bytes.len() < 512,
    ensures
        fed_all(s, bytes) == (FdcState {
            data: if bytes.len() == 0 {
                s.data
            } else {
                bytes.last()
            },
            flow: Flow::Write { buffer: buffer + bytes, offset },
            ..s
        }),
    decreases bytes.len(),
{
    if bytes.len() == 0 {
        assert(buffer + bytes =~= buffer);
    } else {
        let t = s.fed(bytes[0]);
        lemma_feed_some(t, bytes.skip(1), offset, buffer.push(bytes[0]));
        assert(buffer.push(bytes[0]) + bytes.skip(1) =~= buffer + bytes);
        if bytes.len() > 1 {
            assert(bytes.skip(1).last() == bytes.last());
        }
    }
}

pub(crate) proof fn lemma_feed(s: FdcState, bytes: Seq<u8>, offset: int, buffer: Seq<u8>)
    requires
        s.wf(),
        s.flow == (Flow::Write { buffer, offset }),
        buffer.len() + bytes.len() == 512,
    ensures
        ({
            let t = fed_all(s, bytes);
            let d = s.disk->Some_0;
            &&& t.disk == Some(Disk { data: overwritten(d.data, offset, buffer + bytes), ..d })
            &&& t.flow is Idle
            &&& t.intrq
            &&& t.status == 0
            &&& t.track == s.track && t.sector == s.sector && t.side == s.side && t.drive
                == s.drive
        }),
    decreases bytes.len(),
{
    let t = s.fed(bytes[0]);
    if bytes.len() == 1 {
        assert(bytes.skip(1).len() == 0);
        assert(fed_all(t, bytes.skip(1)) == t);
        assert(buffer.push(bytes[0]) =~= buffer + bytes);
    } else {
        lemma_feed(t, bytes.skip(1), offset, buffer.push(bytes[0]));
        assert(buffer.push(bytes[0]) + bytes.skip(1) =~= buffer + bytes);
    }
}

/// A sector that was written reads back as it was written, and the rest of the
/// disk stays as it was, whichever forms of the two commands are used.
pub proof fn law_written_sector_reads_back(
    s: FdcState,
    write: u8,
    bytes: Seq<u8>,
    read: u8,
    at: int,
)
    requires
        s.wf(),
        s.place() == Some(at),
        writes_sector(write),
        reads_sector(read),
        bytes.len() == 512,
    ensures
        ({
            let t = fed_all(s.commanded(write), bytes);
            let before = s.disk->Some_0.data;
            let after = t.disk->Some_0.data;
            &&& t.flow is Idle && t.intrq && t.status == 0
            &&& t.commanded(read).flow == (Flow::Read { buffer: bytes, pos: 0 })
            &&& after.len() == before.len()
            &&& after.subrange(at, at + 512) == bytes
            &&& forall|i: int|
                0 <= i < before.len() && !(at <= i < at + 512) ==> after[i] == before[i]
        }),
{
    let w = s.commanded(write);
    lemma_feed(w, bytes, at, Seq::empty());
    assert(Seq::<u8>::empty() + bytes =~= bytes);
    let t = fed_all(w, bytes);
    assert(t.disk->Some_0.data.subrange(at, at + 512) =~= bytes);
    assert(t.place() == Some(at));
}

/// A sector that was written only in part leaves the disk as it was: the
/// controller holds the bytes back, is busy, and asks for more.
pub proof fn law_partial_sector_changes_nothing(
    s: FdcState,
    write: u8,
    bytes: Seq<u8>,
    at: int,
)
    requires
        s.wf(),
        s.place() == Some(at),
        writes_sector(write),
        bytes.len() < 512,
    ensures
        ({
            let t = fed_all(s.commanded(write), bytes);
            &&& t.disk == s.disk
            &&& t.flow == (Flow::Write { buffer: bytes, offset: at })
            &&& t.status == 0x01 && !t.intrq
            &&& t.request_value() == 0x7F
        }),
{
    lemma_feed_some(s.commanded(write), bytes, at, Seq::empty());
    assert(Seq::<u8>::empty() + bytes =~= bytes);
}

pub(crate) proof fn lemma_drain(s: FdcState, buffer: Seq<u8>, pos: int, n: int)
    requires
        s.flow == (Flow::Read { buffer, pos }),
        0 <= pos < buffer.len(),
        0 <= n <= buffer.len() - pos,
    ensures
        drained(s, n) == buffer.subrange(pos, pos + n),
        read_on(s, n).disk == s.disk,
        n < buffer.len() - pos ==> read_on(s, n) == (FdcState {
            data: if n == 0 {
                s.data
            } else {
                buffer[pos + n - 1]
            },
            flow: Flow::Read { buffer, pos: pos + n },
            ..s
        }),
        n == buffer.len() - pos ==> read_on(s, n) == (FdcState {
            data: buffer[pos + n - 1],
            ..s.done()
        }),
    decreases n,
{
    let t = s.after_read(3);
    if n == 1 {
        assert(drained(t, 0) =~= Seq::<u8>::empty());
        assert(read_on(t, 0) == t);
    } else if n > 1 {
        lemma_drain(t, buffer, pos + 1, n - 1);
    }
    assert(drained(s, n) =~= buffer.subrange(pos, pos + n));
}

/// A read of a sector gives its bytes in order, as many as are taken. The data
/// request stays up until the last of the 512, which ends the command; the disk
/// stays as it was.
pub proof fn law_read_streams_sector(s: FdcState, read: u8, n: int, at: int)
    requires
        s.wf(),
        s.place() == Some(at),
        reads_sector(read),
        0 <= n <= 512,
    ensures
        ({
            let t = read_on(s.commanded(read), n);
            &&& drained(s.commanded(read), n) == s.disk->Some_0.data.subrange(at, at + n)
            &&& t.disk == s.disk
            &&& n < 512 ==> t.status == 0x01 && t.request_value() == 0x7F
            &&& n == 512 ==> t.flow is Idle && t.intrq && t.status == 0
        }),
{
    let buffer = s.disk->Some_0.data.subrange(at, at + 512);
    lemma_drain(s.commanded(read), buffer, 0, n);
    assert(buffer.subrange(0, n) =~= s.disk->Some_0.data.subrange(at, at + n));
}

/// BUSY is seen in the status register only together with the data request,
/// both there and in the request register.
pub proof fn law_busy_means_data_request(s: FdcState)
    requires
        s.wf(),
        s.status_value() & 0x01 != 0,
    ensures
        s.flow !is Idle,
        s.status_value() & 0x02 != 0,
        s.request_value() & 0x80 == 0,
{
    let st = s.status;
    assert(st == 0 || st == 0x10 || st == 0x20 ==> st & 1 == 0 && (st | 0x80) & 1 == 0 && (st | 4)
        & 1 == 0 && (st | 2) & 1 == 0 && ((st | 0x80) | 4) & 1 == 0 && ((st | 0x80) | 2) & 1 == 0
        && ((st | 4) | 2) & 1 == 0 && (((st | 0x80) | 4) | 2) & 1 == 0) by (bit_vector);
    let unready = st | 0x80;
    assert((st | 2) & 2 != 0 && (unready | 2) & 2 != 0 && 0x3Fu8 & 0x80 == 0 && 0x7Fu8 & 0x80 == 0)
        by (bit_vector);
}

} // verus!
