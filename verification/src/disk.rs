//! The CP/M disk controller: a status port, a data port and the worker that
//! executes one command at a time against a table of open disk images.

use vstd::prelude::*;
use crate::flags::{guest_byte, holds, is_set, low_byte, lower, raise};
use crate::flags::{lemma_lower_raise};
use vstd::arithmetic::power2::{lemma2_to64, lemma_pow2_strictly_increases, pow2};
use vstd::bits::lemma_u64_shl_is_mul;
use vstd::slice::slice_subrange;
use vstd::utf8::valid_utf8;

verus! {

/// Bytes in one sector, and in the transfer buffer.
pub const SECTOR_SIZE: usize = 128;

/// Number of slots in the disk table.
pub const MAX_DISK: u8 = 16;

/// Status bit: the controller accepts a new command byte.
pub const COMMAND_READY: usize = 0x10;

/// Status bit: the transfer buffer may be read or written by the guest.
pub const DATA_READY: usize = 0x20;

/// Status bit: the last command failed; stays raised until `RESET`.
pub const ERROR: usize = 0x80;

pub const NOP: u8 = 0;
pub const SEL_DSK: u8 = 1;
pub const SEL_TRK: u8 = 2;
pub const SEL_SEC: u8 = 3;
pub const READ: u8 = 4;
pub const WRITE: u8 = 5;
pub const RESET: u8 = 6;
pub const OPEN: u8 = 7;
pub const CLOSE: u8 = 8;
pub const DPB: u8 = 9;

/// The selection registers and the pending command.
#[derive(Clone, Copy, Debug, PartialEq, Eq, Structural)]
pub struct Parameters {
    pub disk: u8,
    pub track: u16,
    pub sector: u16,
    pub command: u8,
    pub do_command: bool,
}

impl Parameters {
    pub fn new() -> (parameters: Parameters)
        ensures
            parameters == (Parameters {
                disk: 0,
                track: 0,
                sector: 0,
                command: NOP,
                do_command: false,
            }),
    {
        Parameters { disk: 0, track: 0, sector: 0, command: NOP, do_command: false }
    }
}

/// The sector-sized transfer buffer and its rotating index.
pub struct Buffer {
    pub bytes: [u8; SECTOR_SIZE],
    pub i: u16,
}

impl Buffer {
    pub fn new() -> (buffer: Buffer)
        ensures
            buffer.i == 0,
            buffer.bytes@ == Seq::new(SECTOR_SIZE as nat, |k: int| 0u8),
    {
        let buffer = Buffer { bytes: [0u8; SECTOR_SIZE], i: 0 };
        assert(buffer.bytes@ =~= Seq::new(SECTOR_SIZE as nat, |k: int| 0u8));
        buffer
    }
}

/// The index that follows `i` in the rotating buffer.
pub open spec fn next_index(i: u16) -> u16 {
    if i + 1 >= SECTOR_SIZE {
        0
    } else {
        (i + 1) as u16
    }
}

/// The state shared by the two ports and the worker.
pub struct DiskController {
    pub status: usize,
    pub buffer: Buffer,
    pub parameters: Parameters,
}

/// What a controller holds, as plain values.
pub struct ControllerView {
    pub status: usize,
    pub bytes: Seq<u8>,
    pub index: u16,
    pub parameters: Parameters,
}

impl View for DiskController {
    type V = ControllerView;

    open spec fn view(&self) -> ControllerView {
        ControllerView {
            status: self.status,
            bytes: self.buffer.bytes@,
            index: self.buffer.i,
            parameters: self.parameters,
        }
    }
}

impl ControllerView {
    /// The index stays inside the buffer and the selected slot inside the table.
    pub open spec fn wf(self) -> bool {
        &&& self.bytes.len() == SECTOR_SIZE
        &&& self.index < SECTOR_SIZE
        &&& self.parameters.disk < MAX_DISK
    }

    /// A guest write of `value` to the status port.
    pub open spec fn submit(self, value: u8) -> ControllerView {
        if is_set(self.status, COMMAND_READY) {
            ControllerView {
                status: self.status & !COMMAND_READY,
                parameters: Parameters { command: value, do_command: true, ..self.parameters },
                ..self
            }
        } else {
            ControllerView { status: self.status | (COMMAND_READY | ERROR), ..self }
        }
    }

    /// The byte that a guest read of the data port returns.
    pub open spec fn data_byte(self) -> u8 {
        if is_set(self.status, DATA_READY) {
            self.bytes[next_index(self.index) as int]
        } else {
            0
        }
    }

    /// The state after a guest read of the data port.
    pub open spec fn data_read(self) -> ControllerView {
        if is_set(self.status, DATA_READY) {
            ControllerView { index: next_index(self.index), ..self }
        } else {
            ControllerView { status: self.status | ERROR, ..self }
        }
    }

    /// The state after a guest write of `value` to the data port.
    pub open spec fn data_write(self, value: u8) -> ControllerView {
        if is_set(self.status, DATA_READY) {
            ControllerView {
                index: next_index(self.index),
                bytes: self.bytes.update(next_index(self.index) as int, value),
                ..self
            }
        } else {
            ControllerView { status: self.status | ERROR, ..self }
        }
    }

    /// The state after the worker has announced that it waits for a command.
    pub open spec fn ready(self) -> ControllerView {
        ControllerView { status: self.status | COMMAND_READY, ..self }
    }
}

/// A single-bit flag that is raised in `word` survives being lowered and raised again.
proof fn lemma_data_ready_restored(word: usize)
    requires
        is_set(word, DATA_READY),
    ensures
        (word & !DATA_READY) | DATA_READY == word,
{
    assert(word & 0x20 != 0 ==> word & 0x20 == 0x20) by (bit_vector);
    lemma_lower_raise(word, DATA_READY);
}

impl DiskController {
    /// A controller with an empty buffer and zeroed parameters, whose buffer is
    /// open to the guest and which accepts no command until a worker is ready.
    pub fn new() -> (controller: DiskController)
        ensures
            controller@.wf(),
            controller.status == DATA_READY,
            controller.buffer.i == 0,
            controller.buffer.bytes@ == Seq::new(SECTOR_SIZE as nat, |k: int| 0u8),
            controller.parameters == (Parameters {
                disk: 0,
                track: 0,
                sector: 0,
                command: NOP,
                do_command: false,
            }),
    {
        DiskController {
            status: DATA_READY,
            buffer: Buffer::new(),
            parameters: Parameters::new(),
        }
    }

    /// This controller's status port.
    pub fn status_port(&mut self) -> (port: StatusPort<'_>)
        ensures
            *port.controller == *old(self),
            *final(self) == *final(port.controller),
    {
        StatusPort::new(self)
    }

    /// This controller's data port.
    pub fn data_port(&mut self) -> (port: DataPort<'_>)
        ensures
            *port.controller == *old(self),
            *final(self) == *final(port.controller),
    {
        DataPort::new(self)
    }

    /// The worker announces that it waits for a command.
    pub fn make_ready(&mut self)
        ensures
            final(self)@ == old(self)@.ready(),
            old(self)@.wf() ==> final(self)@.wf(),
    {
        self.status = raise(self.status, COMMAND_READY);
    }

    /// Whether a submitted command waits to be executed.
    pub fn command_pending(&self) -> (pending: bool)
        ensures
            pending == self.parameters.do_command,
    {
        self.parameters.do_command
    }
}

/// The guest's view of the status register. It borrows the controller for
/// as long as it lives; the last clause of each contract below says that an
/// operation leaves it borrowing the same controller.
pub struct StatusPort<'a> {
    pub controller: &'a mut DiskController,
}

impl<'a> StatusPort<'a> {
    pub fn new(controller: &'a mut DiskController) -> (port: StatusPort<'a>)
        ensures
            *port.controller == *old(controller),
            *final(controller) == *final(port.controller),
    {
        StatusPort { controller }
    }

    /// Returns the low eight bits of the status word.
    pub fn read_in(&self) -> (byte: u8)
        ensures
            byte == guest_byte(old(self.controller).status),
    {
        low_byte(self.controller.status)
    }

    /// Submits a command byte. It is accepted only while `COMMAND_READY` is
    /// raised; a refused byte raises `ERROR` and `COMMAND_READY` and changes
    /// nothing else. The result tells whether the worker has to be woken.
    pub fn write_out(&mut self, value: u8) -> (accepted: bool)
        ensures
            accepted == is_set(old(self).controller.status, COMMAND_READY),
            final(self).controller@ == old(self).controller@.submit(value),
            old(self).controller@.wf() ==> final(self).controller@.wf(),
            *final(final(self).controller) == *final(old(self).controller),
    {
        let before: usize = self.controller.status;
        self.controller.status = lower(before, COMMAND_READY);
        if holds(before, COMMAND_READY) {
            self.controller.parameters.command = value;
            self.controller.parameters.do_command = true;
            true
        } else {
            assert((before & !COMMAND_READY) | (COMMAND_READY | ERROR) == before | (COMMAND_READY
                | ERROR)) by (bit_vector);
            self.controller.status = raise(self.controller.status, COMMAND_READY | ERROR);
            false
        }
    }
}

/// The guest's view of the transfer buffer. It borrows the controller as
/// the status port does.
pub struct DataPort<'a> {
    pub controller: &'a mut DiskController,
}

impl<'a> DataPort<'a> {
    pub fn new(controller: &'a mut DiskController) -> (port: DataPort<'a>)
        ensures
            *port.controller == *old(controller),
            *final(controller) == *final(port.controller),
    {
        DataPort { controller }
    }

    /// Advances the index, wrapping at the end of the buffer, and returns the
    /// byte found there. Without `DATA_READY` it raises `ERROR` and returns 0.
    pub fn read_in(&mut self) -> (byte: u8)
        requires
            old(self).controller@.wf(),
        ensures
            byte == old(self).controller@.data_byte(),
            final(self).controller@ == old(self).controller@.data_read(),
            final(self).controller@.wf(),
            *final(final(self).controller) == *final(old(self).controller),
    {
        let before: usize = self.controller.status;
        self.controller.status = lower(before, DATA_READY);
        if holds(before, DATA_READY) {
            let next: u16 = advance(self.controller.buffer.i);
            self.controller.buffer.i = next;
            let byte: u8 = self.controller.buffer.bytes[next as usize];
            self.controller.status = raise(self.controller.status, DATA_READY);
            proof {
                lemma_data_ready_restored(before);
            }
            byte
        } else {
            assert((before & !DATA_READY) | ERROR == before | ERROR) by (bit_vector)
                requires
                    before & DATA_READY == 0,
            ;
            self.controller.status = raise(self.controller.status, ERROR);
            0
        }
    }

    /// Advances the index, wrapping at the end of the buffer, and stores
    /// `value` there. Without `DATA_READY` it raises `ERROR` and drops the byte.
    pub fn write_out(&mut self, value: u8)
        requires
            old(self).controller@.wf(),
        ensures
            final(self).controller@ == old(self).controller@.data_write(value),
            final(self).controller@.wf(),
            *final(final(self).controller) == *final(old(self).controller),
    {
        let before: usize = self.controller.status;
        self.controller.status = lower(before, DATA_READY);
        if holds(before, DATA_READY) {
            let next: u16 = advance(self.controller.buffer.i);
            self.controller.buffer.i = next;
            self.controller.buffer.bytes[next as usize] = value;
            self.controller.status = raise(self.controller.status, DATA_READY);
            proof {
                lemma_data_ready_restored(before);
            }
        } else {
            assert((before & !DATA_READY) | ERROR == before | ERROR) by (bit_vector)
                requires
                    before & DATA_READY == 0,
            ;
            self.controller.status = raise(self.controller.status, ERROR);
        }
    }
}

/// Computes the index that follows `i`.
fn advance(i: u16) -> (next: u16)
    requires
        i < SECTOR_SIZE,
    ensures
        next == next_index(i),
        next < SECTOR_SIZE,
{
    let next: u16 = if i + 1 >= 128 { 0 } else { i + 1 };
    next
}

/// Bytes in the header that precedes the sector data of an image.
pub const HEADER_SIZE: usize = 128;

/// Place of the disk parameter block in the header.
pub const DPB_OFFSET: usize = 32;

/// Bytes in a disk parameter block.
pub const DPB_SIZE: usize = 16;

/// The ten bytes `<CPM_Disk>` that open every image.
pub open spec fn magic() -> Seq<u8> {
    seq![0x3cu8, 0x43u8, 0x50u8, 0x4du8, 0x5fu8, 0x44u8, 0x69u8, 0x73u8, 0x6bu8, 0x3eu8]
}

/// The sixteen-bit value whose low byte is `low` and whose high byte is `high`.
pub open spec fn little_endian(low: u8, high: u8) -> int {
    low as int + 256 * (high as int)
}

/// Sectors per track, from a disk parameter block.
pub open spec fn dpb_spt(dpb: Seq<u8>) -> int {
    little_endian(dpb[0], dpb[1])
}

/// Number of tracks that a disk parameter block describes: the blocks, each of
/// `2^BSH` sectors, laid out on tracks of `SPT` sectors, behind the reserved tracks.
pub open spec fn dpb_tracks(dpb: Seq<u8>) -> int {
    (little_endian(dpb[5], dpb[6]) + 1) * pow2(dpb[2] as nat) / dpb_spt(dpb) + little_endian(
        dpb[13],
        dpb[14],
    )
}

/// Why an image was not accepted.
#[derive(Clone, Copy, Debug, PartialEq, Eq, Structural)]
pub enum OpenError {
    /// The host could not provide the file.
    Unavailable,
    /// The file is shorter than a header.
    Truncated,
    /// The first ten bytes are not text.
    InvalidEncoding,
    /// The first ten bytes are text, but not the magic.
    InvalidMagic,
    /// No track holds a sector, or the number of tracks exceeds sixteen bits.
    InvalidGeometry,
}

/// An open disk image: its sector data and its geometry.
pub struct Disk {
    pub image: Vec<u8>,
    pub tracks: u16,
    pub spt: u16,
    pub dpb: [u8; DPB_SIZE],
}

/// What a disk holds, as plain values.
pub struct DiskView {
    pub image: Seq<u8>,
    pub tracks: u16,
    pub spt: u16,
    pub dpb: Seq<u8>,
}

impl View for Disk {
    type V = DiskView;

    open spec fn view(&self) -> DiskView {
        DiskView { image: self.image@, tracks: self.tracks, spt: self.spt, dpb: self.dpb@ }
    }
}

/// What opening a file of these bytes gives.
pub open spec fn opened(file: Seq<u8>) -> Result<DiskView, OpenError> {
    let dpb = file.subrange(DPB_OFFSET as int, DPB_OFFSET + DPB_SIZE);
    if file.len() < HEADER_SIZE {
        Err(OpenError::Truncated)
    } else if !valid_utf8(file.subrange(0, 10)) {
        Err(OpenError::InvalidEncoding)
    } else if file.subrange(0, 10) != magic() {
        Err(OpenError::InvalidMagic)
    } else if dpb_spt(dpb) == 0 || dpb_tracks(dpb) > u16::MAX {
        Err(OpenError::InvalidGeometry)
    } else {
        Ok(
            DiskView {
                image: file.skip(HEADER_SIZE as int),
                tracks: dpb_tracks(dpb) as u16,
                spt: dpb_spt(dpb) as u16,
                dpb,
            },
        )
    }
}

/// `std::str::from_utf8`: whether the bytes are well-formed UTF-8, which is
/// all that the standard library's documentation says of its success.
#[verifier::external_body]
fn is_utf8(bytes: &[u8]) -> (ok: bool)
    ensures
        ok == valid_utf8(bytes@),
{
    std::str::from_utf8(bytes).is_ok()
}

/// Reads a little-endian sixteen-bit value.
fn read_u16(low: u8, high: u8) -> (value: u16)
    ensures
        value == little_endian(low, high),
{
    let value: u16 = (low as u16) | ((high as u16) << 8);
    assert(value == low as u16 + 256 * (high as u16)) by (bit_vector)
        requires
            value == (low as u16) | ((high as u16) << 8),
    ;
    value
}

/// Whether the ten bytes are the magic.
fn is_magic(bytes: &[u8]) -> (ok: bool)
    requires
        bytes@.len() == 10,
    ensures
        ok == (bytes@ == magic()),
{
    let ok = bytes[0] == 0x3c && bytes[1] == 0x43 && bytes[2] == 0x50 && bytes[3] == 0x4d
        && bytes[4] == 0x5f && bytes[5] == 0x44 && bytes[6] == 0x69 && bytes[7] == 0x73
        && bytes[8] == 0x6b && bytes[9] == 0x3e;
    proof {
        if ok {
            assert(bytes@ =~= magic());
        } else {
            assert(magic()[0] == 0x3c && magic()[1] == 0x43 && magic()[2] == 0x50 && magic()[3]
                == 0x4d && magic()[4] == 0x5f && magic()[5] == 0x44 && magic()[6] == 0x69
                && magic()[7] == 0x73 && magic()[8] == 0x6b && magic()[9] == 0x3e);
        }
    }
    ok
}

/// A block shift of 32 or more puts the number of tracks beyond sixteen bits.
proof fn lemma_large_shift(blocks: int, shift: nat, spt: int)
    requires
        1 <= blocks,
        32 <= shift,
        0 < spt <= 0xffff,
    ensures
        blocks * pow2(shift) / spt > 0xffff,
{
    lemma2_to64();
    if shift > 32 {
        lemma_pow2_strictly_increases(32, shift);
    }
    let p: int = pow2(shift) as int;
    assert(p >= 0x1_0000_0000);
    assert(blocks * p >= 0x1_0000_0000) by (nonlinear_arith)
        requires
            blocks >= 1,
            p >= 0x1_0000_0000,
    ;
    let total: int = blocks * p;
    assert(total / spt > 0xffff) by (nonlinear_arith)
        requires
            total >= 0x1_0000_0000,
            0 < spt <= 0xffff,
    ;
}

/// Computes the number of tracks, or `None` where it exceeds sixteen bits.
fn count_tracks(dpb: &[u8; DPB_SIZE], spt: u16) -> (tracks: Option<u16>)
    requires
        spt == dpb_spt(dpb@),
        spt != 0,
    ensures
        tracks is Some <==> dpb_tracks(dpb@) <= u16::MAX,
        tracks is Some ==> tracks->0 == dpb_tracks(dpb@),
{
    let bsh: u8 = dpb[2];
    let dsm: u16 = read_u16(dpb[5], dpb[6]);
    let off: u16 = read_u16(dpb[13], dpb[14]);
    let blocks: u64 = dsm as u64 + 1;
    if bsh >= 32 {
        proof {
            lemma_large_shift(blocks as int, bsh as nat, spt as int);
        }
        return None;
    }
    proof {
        lemma2_to64();
        if bsh < 31 {
            lemma_pow2_strictly_increases(bsh as nat, 31);
        }
        let p: int = pow2(bsh as nat) as int;
        assert(blocks * p <= 0x1_0000 * 0x8000_0000) by (nonlinear_arith)
            requires
                0 <= blocks <= 0x1_0000,
                0 <= p <= 0x8000_0000,
        ;
        lemma_u64_shl_is_mul(blocks, bsh as u64);
    }
    let sectors: u64 = blocks << (bsh as u64);
    let tracks: u64 = sectors / (spt as u64) + off as u64;
    if tracks > 0xffff {
        None
    } else {
        Some(tracks as u16)
    }
}

impl Disk {
    /// Decodes the bytes of an image file: the header with its magic and its
    /// disk parameter block, then the sector data.
    pub fn open(file: &[u8]) -> (result: Result<Disk, OpenError>)
        ensures
            result is Ok <==> opened(file@) is Ok,
            result is Ok ==> opened(file@) == Ok::<DiskView, OpenError>(result->Ok_0@),
            result is Err ==> opened(file@) == Err::<DiskView, OpenError>(result->Err_0),
    {
        if file.len() < HEADER_SIZE {
            return Err(OpenError::Truncated);
        }
        let head = slice_subrange(file, 0, 10);
        if !is_utf8(head) {
            return Err(OpenError::InvalidEncoding);
        }
        if !is_magic(head) {
            return Err(OpenError::InvalidMagic);
        }
        let mut dpb: [u8; DPB_SIZE] = [0u8; DPB_SIZE];
        let mut i: usize = 0;
        while i < DPB_SIZE
            invariant
                i <= DPB_SIZE,
                file@.len() >= HEADER_SIZE,
                forall|k: int| 0 <= k < i ==> dpb@[k] == file@[DPB_OFFSET + k],
            decreases DPB_SIZE - i,
        {
            dpb[i] = file[DPB_OFFSET + i];
            i += 1;
        }
        assert(dpb@ =~= file@.subrange(DPB_OFFSET as int, DPB_OFFSET + DPB_SIZE));
        let spt: u16 = read_u16(dpb[0], dpb[1]);
        if spt == 0 {
            return Err(OpenError::InvalidGeometry);
        }
        let tracks: u16 = match count_tracks(&dpb, spt) {
            Some(tracks) => tracks,
            None => {
                return Err(OpenError::InvalidGeometry);
            },
        };
        let mut image: Vec<u8> = Vec::new();
        let mut j: usize = HEADER_SIZE;
        while j < file.len()
            invariant
                HEADER_SIZE <= j <= file@.len(),
                image@ == file@.subrange(HEADER_SIZE as int, j as int),
            decreases file@.len() - j,
        {
            image.push(file[j]);
            j += 1;
            assert(image@ =~= file@.subrange(HEADER_SIZE as int, j as int));
        }
        assert(image@ =~= file@.skip(HEADER_SIZE as int));
        Ok(Disk { image, tracks, spt, dpb })
    }
}

/// The sixteen slots that hold the open disks. The worker owns it.
pub struct DiskTable {
    pub slots: Vec<Option<Disk>>,
}

/// What a slot holds, as plain values.
pub open spec fn slot_view(slot: Option<Disk>) -> Option<DiskView> {
    match slot {
        Some(disk) => Some(disk@),
        None => None,
    }
}

impl View for DiskTable {
    type V = Seq<Option<DiskView>>;

    open spec fn view(&self) -> Seq<Option<DiskView>> {
        Seq::new(self.slots@.len(), |i: int| slot_view(self.slots@[i]))
    }
}

impl DiskTable {
    /// The table has exactly sixteen slots.
    pub open spec fn wf(&self) -> bool {
        self.slots@.len() == MAX_DISK
    }

    /// A table with every slot empty.
    pub fn new() -> (table: DiskTable)
        ensures
            table.wf(),
            table@ == Seq::new(MAX_DISK as nat, |i: int| None::<DiskView>),
    {
        let mut slots: Vec<Option<Disk>> = Vec::new();
        let mut i: u8 = 0;
        while i < MAX_DISK
            invariant
                i <= MAX_DISK,
                slots@.len() == i,
                forall|k: int| 0 <= k < i ==> slots@[k] is None,
            decreases MAX_DISK - i,
        {
            slots.push(None);
            i += 1;
        }
        let table = DiskTable { slots };
        assert(table@ =~= Seq::new(MAX_DISK as nat, |i: int| None::<DiskView>));
        table
    }

    /// The disk in a slot, if one is open there.
    pub fn get(&self, slot: u8) -> (disk: Option<&Disk>)
        requires
            self.wf(),
        ensures
            disk is Some ==> slot < MAX_DISK && self@[slot as int] == Some(disk->0@),
            disk is None ==> slot >= MAX_DISK || self@[slot as int] is None,
    {
        if slot >= MAX_DISK {
            return None;
        }
        match &self.slots[slot as usize] {
            Some(disk) => Some(disk),
            None => None,
        }
    }

    /// Puts `slot` in place of what the table holds at `index`.
    fn put(&mut self, index: u8, slot: Option<Disk>)
        requires
            old(self).wf(),
            index < MAX_DISK,
        ensures
            final(self).wf(),
            final(self)@ == old(self)@.update(index as int, slot_view(slot)),
    {
        let _ = self.slots.remove(index as usize);
        self.slots.insert(index as usize, slot);
        assert(self@ =~= old(self)@.update(index as int, slot_view(slot)));
    }
}

/// What the host has to do after the worker has looked at a command.
#[derive(Clone, Copy, Debug, PartialEq, Eq, Structural)]
pub enum Action {
    /// The command is finished; nothing is left to do.
    Completed,
    /// The command was ignored because `ERROR` is raised.
    Rejected,
    /// The command waits for the host to read the file named in the buffer.
    OpenImage,
    /// The command is finished and has changed the sector at this offset in
    /// the image of the selected disk.
    SectorWritten { offset: u64 },
    /// The command failed: the buffer holds no well-formed file name.
    BadFileName,
    /// The command failed: the code is not one of the controller's.
    BadCommand,
}

/// The controller and the table after a step of the worker, and what it asks of the host.
pub struct Executed {
    pub controller: ControllerView,
    pub disks: Seq<Option<DiskView>>,
    pub action: Action,
}

/// Offset of a sector in the sector data of an image.
pub open spec fn sector_offset(track: u16, spt: u16, sector: u16) -> int {
    (track * spt + sector) * SECTOR_SIZE
}

impl DiskView {
    /// Offset of the selected sector in the sector data of this disk.
    pub open spec fn selected_offset(self, parameters: Parameters) -> int {
        sector_offset(parameters.track, self.spt, parameters.sector)
    }

    /// Whether the sector data of this disk reaches to the end of the selected sector.
    pub open spec fn holds_selected(self, parameters: Parameters) -> bool {
        self.selected_offset(parameters) + SECTOR_SIZE <= self.image.len()
    }

    /// Whether the sector data holds every sector of every track.
    pub open spec fn complete(self) -> bool {
        self.tracks * self.spt * SECTOR_SIZE <= self.image.len()
    }
}

/// The sector that starts at `offset`.
pub open spec fn sector_at(image: Seq<u8>, offset: int) -> Seq<u8> {
    image.subrange(offset, offset + SECTOR_SIZE)
}

/// The image with the sector at `offset` replaced by `bytes`.
pub open spec fn with_sector(image: Seq<u8>, offset: int, bytes: Seq<u8>) -> Seq<u8> {
    Seq::new(
        image.len(),
        |k: int|
            if offset <= k < offset + SECTOR_SIZE {
                bytes[k - offset]
            } else {
                image[k]
            },
    )
}

/// Position of the first zero byte at or after `from`, or the length where there is none.
pub open spec fn nul_from(bytes: Seq<u8>, from: int) -> int
    decreases bytes.len() - from,
{
    if from < 0 || from >= bytes.len() || bytes[from] == 0 {
        from
    } else {
        nul_from(bytes, from + 1)
    }
}

/// The bytes before the first zero byte: the file name that an `OPEN` finds in the buffer.
pub open spec fn file_name(bytes: Seq<u8>) -> Seq<u8> {
    bytes.take(nul_from(bytes, 0))
}

impl ControllerView {
    /// The state with `ERROR` raised.
    pub open spec fn fail(self) -> ControllerView {
        ControllerView { status: self.status | ERROR, ..self }
    }

    /// The state with other parameters.
    pub open spec fn select(self, parameters: Parameters) -> ControllerView {
        ControllerView { parameters, ..self }
    }

    /// The state with other bytes in the buffer.
    pub open spec fn fill(self, bytes: Seq<u8>) -> ControllerView {
        ControllerView { bytes, ..self }
    }

    /// The state after a command is finished: the wake flag is cleared and the
    /// buffer is handed back to the guest.
    pub open spec fn complete(self) -> ControllerView {
        ControllerView {
            status: self.status | DATA_READY,
            parameters: Parameters { do_command: false, ..self.parameters },
            ..self
        }
    }

    /// The effect of the pending command on a controller that has claimed the
    /// buffer, and on the table.
    pub open spec fn dispatch(self, disks: Seq<Option<DiskView>>) -> Executed {
        let p = self.parameters;
        let slot = disks[p.disk as int];
        let word: int = little_endian(self.bytes[0], self.bytes[1]);
        let failed = Executed { controller: self.fail(), disks, action: Action::Completed };
        if p.command == NOP {
            Executed { controller: self, disks, action: Action::Completed }
        } else if p.command == SEL_DSK {
            if self.bytes[0] < MAX_DISK {
                Executed {
                    controller: self.select(Parameters { disk: self.bytes[0], ..p }),
                    disks,
                    action: Action::Completed,
                }
            } else {
                failed
            }
        } else if p.command == SEL_TRK {
            match slot {
                Some(disk) if word < disk.tracks => Executed {
                    controller: self.select(Parameters { track: word as u16, ..p }),
                    disks,
                    action: Action::Completed,
                },
                _ => failed,
            }
        } else if p.command == SEL_SEC {
            match slot {
                Some(disk) if word < disk.spt => Executed {
                    controller: self.select(Parameters { sector: word as u16, ..p }),
                    disks,
                    action: Action::Completed,
                },
                _ => failed,
            }
        } else if p.command == READ {
            match slot {
                Some(disk) if disk.holds_selected(p) => Executed {
                    controller: self.fill(sector_at(disk.image, disk.selected_offset(p))),
                    disks,
                    action: Action::Completed,
                },
                _ => failed,
            }
        } else if p.command == WRITE {
            match slot {
                Some(disk) if disk.holds_selected(p) => Executed {
                    controller: self,
                    disks: disks.update(
                        p.disk as int,
                        Some(
                            DiskView {
                                image: with_sector(disk.image, disk.selected_offset(p), self.bytes),
                                ..disk
                            },
                        ),
                    ),
                    action: Action::SectorWritten { offset: disk.selected_offset(p) as u64 },
                },
                _ => failed,
            }
        } else if p.command == RESET {
            Executed {
                controller: ControllerView {
                    status: self.status & !ERROR,
                    parameters: Parameters { disk: 0, track: 0, sector: 0, command: NOP, ..p },
                    ..self
                },
                disks,
                action: Action::Completed,
            }
        } else if p.command == OPEN {
            if valid_utf8(file_name(self.bytes)) {
                Executed { controller: self, disks, action: Action::OpenImage }
            } else {
                Executed { controller: self.fail(), disks, action: Action::BadFileName }
            }
        } else if p.command == CLOSE {
            Executed {
                controller: self,
                disks: disks.update(p.disk as int, None),
                action: Action::Completed,
            }
        } else if p.command == DPB {
            match slot {
                Some(disk) => Executed {
                    controller: self.fill(disk.dpb + self.bytes.skip(DPB_SIZE as int)),
                    disks,
                    action: Action::Completed,
                },
                None => failed,
            }
        } else {
            Executed { controller: self.fail(), disks, action: Action::BadCommand }
        }
    }

    /// One step of the worker on a pending command. While `ERROR` is raised
    /// every command but `RESET` is ignored. Otherwise the worker claims the
    /// buffer, rewinds its index and carries the command out; unless the
    /// command waits for the host, it is then finished.
    pub open spec fn execute(self, disks: Seq<Option<DiskView>>) -> Executed {
        let claimed = ControllerView { status: self.status & !DATA_READY, index: 0, ..self };
        let done = claimed.dispatch(disks);
        if is_set(self.status, ERROR) && self.parameters.command != RESET {
            Executed {
                controller: ControllerView {
                    status: (self.status & !DATA_READY) | DATA_READY,
                    ..self
                },
                disks,
                action: Action::Rejected,
            }
        } else if done.action == Action::OpenImage {
            done
        } else {
            Executed { controller: done.controller.complete(), ..done }
        }
    }

    /// The end of an `OPEN`: the host hands over the bytes of the file, or
    /// nothing where it could not read it. An accepted image takes the
    /// selected slot; otherwise `ERROR` is raised. Either way the command is finished.
    pub open spec fn finish_open(self, disks: Seq<Option<DiskView>>, file: Option<Seq<u8>>)
        -> Executed {
        match file {
            Some(bytes) if opened(bytes) is Ok => Executed {
                controller: self.complete(),
                disks: disks.update(self.parameters.disk as int, Some(opened(bytes)->Ok_0)),
                action: Action::Completed,
            },
            _ => Executed { controller: self.fail().complete(), disks, action: Action::Completed },
        }
    }
}

/// The error that ends an `OPEN`, if any.
pub open spec fn open_error(file: Option<Seq<u8>>) -> Option<OpenError> {
    match file {
        Some(bytes) => match opened(bytes) {
            Ok(_) => None,
            Err(error) => Some(error),
        },
        None => Some(OpenError::Unavailable),
    }
}

/// Computes the offset of a sector in the sector data of an image.
fn locate(track: u16, spt: u16, sector: u16) -> (offset: u64)
    ensures
        offset == sector_offset(track, spt, sector),
        offset <= 0x200_0000_0000,
{
    assert(track * spt <= 0xffff * 0xffff) by (nonlinear_arith)
        requires
            0 <= track <= 0xffff,
            0 <= spt <= 0xffff,
    ;
    (track as u64 * spt as u64 + sector as u64) * 128
}

/// Length of the file name at the start of the buffer.
fn name_length(bytes: &[u8; SECTOR_SIZE]) -> (length: usize)
    ensures
        length == nul_from(bytes@, 0),
        length <= SECTOR_SIZE,
{
    let mut i: usize = 0;
    while i < SECTOR_SIZE && bytes[i] != 0
        invariant
            i <= SECTOR_SIZE,
            nul_from(bytes@, 0) == nul_from(bytes@, i as int),
        decreases SECTOR_SIZE - i,
    {
        i += 1;
    }
    i
}

impl Disk {
    /// Copies the sector at `offset` into `bytes`.
    fn read_sector(&self, offset: usize, bytes: &mut [u8; SECTOR_SIZE])
        requires
            offset + SECTOR_SIZE <= self.image@.len(),
        ensures
            final(bytes)@ == sector_at(self.image@, offset as int),
    {
        let length: usize = self.image.len();
        let mut k: usize = 0;
        while k < SECTOR_SIZE
            invariant
                k <= SECTOR_SIZE,
                offset + SECTOR_SIZE <= self.image@.len() == length,
                forall|n: int| 0 <= n < k ==> bytes@[n] == self.image@[offset + n],
            decreases SECTOR_SIZE - k,
        {
            bytes[k] = self.image[offset + k];
            k += 1;
        }
        assert(bytes@ =~= sector_at(self.image@, offset as int));
    }

    /// Copies `bytes` over the sector at `offset`.
    fn write_sector(&mut self, offset: usize, bytes: &[u8; SECTOR_SIZE])
        requires
            offset + SECTOR_SIZE <= old(self).image@.len(),
        ensures
            final(self)@ == (DiskView {
                image: with_sector(old(self).image@, offset as int, bytes@),
                ..old(self)@
            }),
    {
        let length: usize = self.image.len();
        let mut k: usize = 0;
        while k < SECTOR_SIZE
            invariant
                k <= SECTOR_SIZE,
                offset + SECTOR_SIZE <= self.image@.len() == length,
                self.image@.len() == old(self).image@.len(),
                self.tracks == old(self).tracks,
                self.spt == old(self).spt,
                self.dpb == old(self).dpb,
                forall|n: int|
                    0 <= n < self.image@.len() ==> self.image@[n] == if offset <= n < offset + k {
                        bytes@[n - offset]
                    } else {
                        old(self).image@[n]
                    },
            decreases SECTOR_SIZE - k,
        {
            self.image.set(offset + k, bytes[k]);
            k += 1;
        }
        assert(self.image@ =~= with_sector(old(self).image@, offset as int, bytes@));
    }
}

impl DiskController {
    /// The file name that an `OPEN` finds in the buffer: the bytes before the first zero byte.
    pub fn file_name(&self) -> (name: Vec<u8>)
        ensures
            name@ == file_name(self.buffer.bytes@),
    {
        let length: usize = name_length(&self.buffer.bytes);
        let mut name: Vec<u8> = Vec::new();
        let mut i: usize = 0;
        while i < length
            invariant
                i <= length <= SECTOR_SIZE,
                name@ == self.buffer.bytes@.take(i as int),
            decreases length - i,
        {
            name.push(self.buffer.bytes[i]);
            i += 1;
            assert(name@ =~= self.buffer.bytes@.take(i as int));
        }
        name
    }

    /// Raises `ERROR`.
    fn fail(&mut self)
        ensures
            final(self)@ == old(self)@.fail(),
    {
        self.status = raise(self.status, ERROR);
    }

    /// Finishes the command in flight.
    fn complete(&mut self)
        ensures
            final(self)@ == old(self)@.complete(),
    {
        self.parameters.do_command = false;
        self.status = raise(self.status, DATA_READY);
    }

    /// Carries out the pending command on a controller that has claimed the buffer.
    fn dispatch(&mut self, disks: &mut DiskTable) -> (action: Action)
        requires
            old(self)@.wf(),
            old(disks).wf(),
        ensures
            final(disks).wf(),
            final(self)@ == old(self)@.dispatch(old(disks)@).controller,
            final(disks)@ == old(self)@.dispatch(old(disks)@).disks,
            action == old(self)@.dispatch(old(disks)@).action,
    {
        let command: u8 = self.parameters.command;
        let selected: u8 = self.parameters.disk;
        let word: u16 = read_u16(self.buffer.bytes[0], self.buffer.bytes[1]);
        if command == NOP {
            Action::Completed
        } else if command == SEL_DSK {
            if self.buffer.bytes[0] < MAX_DISK {
                self.parameters.disk = self.buffer.bytes[0];
            } else {
                self.fail();
            }
            Action::Completed
        } else if command == SEL_TRK {
            match disks.get(selected) {
                Some(disk) if word < disk.tracks => {
                    self.parameters.track = word;
                },
                _ => {
                    self.fail();
                },
            }
            Action::Completed
        } else if command == SEL_SEC {
            match disks.get(selected) {
                Some(disk) if word < disk.spt => {
                    self.parameters.sector = word;
                },
                _ => {
                    self.fail();
                },
            }
            Action::Completed
        } else if command == READ {
            match disks.get(selected) {
                Some(disk) => {
                    let offset: u64 = locate(self.parameters.track, disk.spt, self.parameters.sector);
                    if offset + 128 <= disk.image.len() as u64 {
                        disk.read_sector(offset as usize, &mut self.buffer.bytes);
                    } else {
                        self.fail();
                    }
                },
                None => {
                    self.fail();
                },
            }
            Action::Completed
        } else if command == WRITE {
            let slot: Option<Disk> = disks.slots.remove(selected as usize);
            match slot {
                Some(mut disk) => {
                    let offset: u64 = locate(self.parameters.track, disk.spt, self.parameters.sector);
                    let fits: bool = offset + 128 <= disk.image.len() as u64;
                    if fits {
                        disk.write_sector(offset as usize, &self.buffer.bytes);
                    } else {
                        self.fail();
                    }
                    disks.slots.insert(selected as usize, Some(disk));
                    assert(disks@ =~= old(self)@.dispatch(old(disks)@).disks);
                    if fits {
                        Action::SectorWritten { offset }
                    } else {
                        Action::Completed
                    }
                },
                None => {
                    disks.slots.insert(selected as usize, None);
                    assert(disks@ =~= old(disks)@);
                    self.fail();
                    Action::Completed
                },
            }
        } else if command == RESET {
            self.parameters.disk = 0;
            self.parameters.track = 0;
            self.parameters.sector = 0;
            self.parameters.command = NOP;
            self.status = lower(self.status, ERROR);
            Action::Completed
        } else if command == OPEN {
            let name = self.file_name();
            if is_utf8(name.as_slice()) {
                Action::OpenImage
            } else {
                self.fail();
                Action::BadFileName
            }
        } else if command == CLOSE {
            disks.put(selected, None);
            Action::Completed
        } else if command == DPB {
            match disks.get(selected) {
                Some(disk) => {
                    let ghost before = self.buffer.bytes@;
                    let mut k: usize = 0;
                    while k < DPB_SIZE
                        invariant
                            k <= DPB_SIZE,
                            self.buffer.i == old(self).buffer.i,
                            self.status == old(self).status,
                            self.parameters == old(self).parameters,
                            forall|n: int|
                                0 <= n < SECTOR_SIZE ==> self.buffer.bytes@[n] == if n < k {
                                    disk.dpb@[n]
                                } else {
                                    before[n]
                                },
                        decreases DPB_SIZE - k,
                    {
                        self.buffer.bytes[k] = disk.dpb[k];
                        k += 1;
                    }
                    assert(self.buffer.bytes@ =~= disk.dpb@ + before.skip(DPB_SIZE as int));
                },
                None => {
                    self.fail();
                },
            }
            Action::Completed
        } else {
            self.fail();
            Action::BadCommand
        }
    }

    /// One step of the worker on a pending command.
    ///
    /// While `ERROR` is raised every command but `RESET` is ignored: the
    /// buffer is handed back and nothing else changes. Otherwise the worker
    /// claims the buffer, rewinds its index and carries the command out. An
    /// `OPEN` with a well-formed file name stays in flight until
    /// `finish_open`; every other command is finished on return.
    pub fn execute(&mut self, disks: &mut DiskTable) -> (action: Action)
        requires
            old(self)@.wf(),
            old(disks).wf(),
        ensures
            final(self)@.wf(),
            final(disks).wf(),
            final(self)@ == old(self)@.execute(old(disks)@).controller,
            final(disks)@ == old(self)@.execute(old(disks)@).disks,
            action == old(self)@.execute(old(disks)@).action,
    {
        let before: usize = self.status;
        self.status = lower(before, DATA_READY);
        if holds(before, ERROR) && self.parameters.command != RESET {
            self.status = raise(self.status, DATA_READY);
            return Action::Rejected;
        }
        self.buffer.i = 0;
        let action = self.dispatch(disks);
        match action {
            Action::OpenImage => {},
            _ => {
                self.complete();
            },
        }
        action
    }

    /// The end of an `OPEN`: the host hands over the bytes of the file, or
    /// nothing where it could not read it. An accepted image takes the
    /// selected slot; otherwise `ERROR` is raised and the reason returned.
    /// Either way the command is finished.
    pub fn finish_open(&mut self, disks: &mut DiskTable, file: Option<&[u8]>) -> (result: Result<
        (),
        OpenError,
    >)
        requires
            old(self)@.wf(),
            old(disks).wf(),
        ensures
            final(self)@.wf(),
            final(disks).wf(),
            final(self)@ == old(self)@.finish_open(old(disks)@, file_view(file)).controller,
            final(disks)@ == old(self)@.finish_open(old(disks)@, file_view(file)).disks,
            result is Ok <==> open_error(file_view(file)) is None,
            result is Err ==> open_error(file_view(file)) == Some(result->Err_0),
    {
        let outcome: Result<Disk, OpenError> = match file {
            Some(bytes) => Disk::open(bytes),
            None => Err(OpenError::Unavailable),
        };
        match outcome {
            Ok(disk) => {
                disks.put(self.parameters.disk, Some(disk));
                self.complete();
                Ok(())
            },
            Err(error) => {
                self.fail();
                self.complete();
                Err(error)
            },
        }
    }
}

/// The bytes that the host hands over, as plain values.
pub open spec fn file_view(file: Option<&[u8]>) -> Option<Seq<u8>> {
    match file {
        Some(bytes) => Some(bytes@),
        None => None,
    }
}

} // verus!
