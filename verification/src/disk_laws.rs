//! What holds of the disk controller across several steps.

use vstd::prelude::*;
use crate::disk::{
    opened, sector_at, sector_offset, with_sector, Action, ControllerView, DiskView, Parameters,
    COMMAND_READY, DATA_READY, ERROR, HEADER_SIZE, MAX_DISK, READ, RESET, SECTOR_SIZE, WRITE,
};
use crate::flags::{is_set, lemma_lower, lemma_raise};

verus! {

/// The three status bits are distinct.
pub proof fn lemma_distinct_bits()
    ensures
        !is_set(COMMAND_READY, DATA_READY),
        !is_set(COMMAND_READY, ERROR),
        !is_set(DATA_READY, COMMAND_READY),
        !is_set(DATA_READY, ERROR),
        !is_set(ERROR, COMMAND_READY),
        !is_set(ERROR, DATA_READY),
        is_set(COMMAND_READY, COMMAND_READY),
        is_set(DATA_READY, DATA_READY),
        is_set(ERROR, ERROR),
{
    assert(0x10usize & 0x20usize == 0 && 0x10usize & 0x80usize == 0 && 0x20usize & 0x10usize == 0
        && 0x20usize & 0x80usize == 0 && 0x80usize & 0x10usize == 0 && 0x80usize & 0x20usize == 0
        && 0x10usize & 0x10usize != 0 && 0x20usize & 0x20usize != 0 && 0x80usize & 0x80usize
        != 0) by (bit_vector);
}

/// A sector that was written is the sector that is read back from the same place.
pub proof fn lemma_sector_round_trip(image: Seq<u8>, offset: int, bytes: Seq<u8>)
    requires
        0 <= offset,
        offset + SECTOR_SIZE <= image.len(),
        bytes.len() == SECTOR_SIZE,
    ensures
        sector_at(with_sector(image, offset, bytes), offset) == bytes,
        with_sector(image, offset, bytes).len() == image.len(),
{
    assert(sector_at(with_sector(image, offset, bytes), offset) =~= bytes);
}

/// After a `WRITE` that succeeded, a `READ` with the same disk, track and
/// sector selected fills the buffer with the bytes that were written.
pub proof fn lemma_read_after_write(
    writer: ControllerView,
    disks: Seq<Option<DiskView>>,
    reader: ControllerView,
)
    requires
        writer.wf(),
        reader.wf(),
        disks.len() == MAX_DISK,
        writer.parameters.command == WRITE,
        !is_set(writer.status, ERROR),
        !is_set(writer.execute(disks).controller.status, ERROR),
        reader.parameters.command == READ,
        reader.parameters.disk == writer.parameters.disk,
        reader.parameters.track == writer.parameters.track,
        reader.parameters.sector == writer.parameters.sector,
        !is_set(reader.status, ERROR),
    ensures
        reader.execute(writer.execute(disks).disks).controller.bytes == writer.bytes,
        !is_set(reader.execute(writer.execute(disks).disks).controller.status, ERROR),
        reader.execute(writer.execute(disks).disks).disks == writer.execute(disks).disks,
{
    lemma_distinct_bits();
    let p = writer.parameters;
    let claimed = ControllerView { status: writer.status & !DATA_READY, index: 0, ..writer };
    let written = claimed.dispatch(disks);
    lemma_lower(writer.status, DATA_READY, ERROR);
    lemma_raise(claimed.status, ERROR, ERROR);
    lemma_raise(claimed.status | ERROR, DATA_READY, ERROR);
    lemma_raise(claimed.status, DATA_READY, ERROR);
    let slot = disks[p.disk as int];
    assert(slot is Some);
    let disk = slot->0;
    let offset: int = sector_offset(p.track, disk.spt, p.sector);
    assert(disk.holds_selected(p));
    lemma_sector_round_trip(disk.image, offset, writer.bytes);
    let after = writer.execute(disks).disks;
    assert(after[p.disk as int] == Some(
        DiskView { image: with_sector(disk.image, offset, writer.bytes), ..disk },
    ));
    let reclaimed = ControllerView { status: reader.status & !DATA_READY, index: 0, ..reader };
    lemma_lower(reader.status, DATA_READY, ERROR);
    lemma_raise(reclaimed.status, DATA_READY, ERROR);
}

/// The file of an open image after the sector at `offset` has been written
/// and stored: the header as it was, then the changed sector data.
pub open spec fn stored(file: Seq<u8>, offset: int, bytes: Seq<u8>) -> Seq<u8> {
    file.take(HEADER_SIZE as int) + with_sector(opened(file)->Ok_0.image, offset, bytes)
}

/// What was written is still read back after the image has been stored and
/// opened again: the sector data of an image file is what follows its header.
pub proof fn lemma_read_after_reopen(file: Seq<u8>, offset: int, bytes: Seq<u8>)
    requires
        opened(file) is Ok,
        0 <= offset,
        offset + SECTOR_SIZE <= opened(file)->Ok_0.image.len(),
        bytes.len() == SECTOR_SIZE,
    ensures
        opened(stored(file, offset, bytes)) is Ok,
        opened(stored(file, offset, bytes))->Ok_0.image == with_sector(
            opened(file)->Ok_0.image,
            offset,
            bytes,
        ),
        opened(stored(file, offset, bytes))->Ok_0.tracks == opened(file)->Ok_0.tracks,
        opened(stored(file, offset, bytes))->Ok_0.spt == opened(file)->Ok_0.spt,
        opened(stored(file, offset, bytes))->Ok_0.dpb == opened(file)->Ok_0.dpb,
        sector_at(opened(stored(file, offset, bytes))->Ok_0.image, offset) == bytes,
{
    let disk = opened(file)->Ok_0;
    let image = with_sector(disk.image, offset, bytes);
    let stored = stored(file, offset, bytes);
    lemma_sector_round_trip(disk.image, offset, bytes);
    assert(stored.subrange(0, 10) =~= file.subrange(0, 10));
    assert(stored.subrange(32, 48) =~= file.subrange(32, 48));
    assert(stored.skip(HEADER_SIZE as int) =~= image);
}

/// On a disk whose sector data is complete, a track and a sector that the
/// selection commands accept lie inside the image: `READ` and `WRITE` then
/// find their sector.
pub proof fn lemma_selected_sector_is_held(disk: DiskView, parameters: Parameters)
    requires
        disk.complete(),
        parameters.track < disk.tracks,
        parameters.sector < disk.spt,
    ensures
        disk.holds_selected(parameters),
{
    let track: int = parameters.track as int;
    let sector: int = parameters.sector as int;
    let tracks: int = disk.tracks as int;
    let spt: int = disk.spt as int;
    assert((track * spt + sector) * 128 + 128 <= tracks * spt * 128) by (nonlinear_arith)
        requires
            0 <= track < tracks,
            0 <= sector < spt,
    ;
}

/// A command that is neither refused nor waiting for the host is finished
/// when the worker's step returns: the wake flag is cleared and the buffer is
/// handed back to the guest. The end of an `OPEN` does the same.
pub proof fn lemma_finished_command(
    controller: ControllerView,
    disks: Seq<Option<DiskView>>,
    file: Option<Seq<u8>>,
)
    ensures
        controller.execute(disks).action != Action::OpenImage ==> is_set(
            controller.execute(disks).controller.status,
            DATA_READY,
        ),
        controller.execute(disks).action != Action::OpenImage && controller.execute(disks).action
            != Action::Rejected ==> !controller.execute(disks).controller.parameters.do_command,
        controller.execute(disks).action == Action::OpenImage ==> !is_set(
            controller.execute(disks).controller.status,
            DATA_READY,
        ) && controller.execute(disks).controller.parameters.do_command
            == controller.parameters.do_command,
        is_set(controller.finish_open(disks, file).controller.status, DATA_READY),
        !controller.finish_open(disks, file).controller.parameters.do_command,
{
    lemma_distinct_bits();
    let claimed: usize = controller.status & !DATA_READY;
    lemma_lower(controller.status, DATA_READY, DATA_READY);
    lemma_raise(claimed, DATA_READY, DATA_READY);
    lemma_raise(claimed | ERROR, DATA_READY, DATA_READY);
    lemma_raise(claimed & !ERROR, DATA_READY, DATA_READY);
    lemma_raise(controller.status, DATA_READY, DATA_READY);
    lemma_raise(controller.status | ERROR, DATA_READY, DATA_READY);
}

/// While `ERROR` is raised, a command other than `RESET` changes neither the
/// buffer, nor the parameters, nor any disk, and leaves `ERROR` raised.
pub proof fn lemma_error_is_sticky(controller: ControllerView, disks: Seq<Option<DiskView>>)
    requires
        is_set(controller.status, ERROR),
        controller.parameters.command != RESET,
    ensures
        controller.execute(disks).action == Action::Rejected,
        controller.execute(disks).disks == disks,
        controller.execute(disks).controller.bytes == controller.bytes,
        controller.execute(disks).controller.index == controller.index,
        controller.execute(disks).controller.parameters == controller.parameters,
        controller.execute(disks).controller.status == controller.status | DATA_READY,
        is_set(controller.execute(disks).controller.status, ERROR),
{
    let status: usize = controller.status;
    assert((status & !DATA_READY) | DATA_READY == status | DATA_READY) by (bit_vector);
    lemma_raise(status, DATA_READY, ERROR);
}

/// `RESET` lowers `ERROR`, whatever was raised before.
pub proof fn lemma_reset_clears_error(controller: ControllerView, disks: Seq<Option<DiskView>>)
    requires
        controller.parameters.command == RESET,
    ensures
        !is_set(controller.execute(disks).controller.status, ERROR),
        controller.execute(disks).controller.parameters == (Parameters {
            disk: 0,
            track: 0,
            sector: 0,
            command: crate::disk::NOP,
            do_command: false,
        }),
        controller.execute(disks).disks == disks,
{
    lemma_distinct_bits();
    let claimed: usize = controller.status & !DATA_READY;
    lemma_lower(claimed, ERROR, ERROR);
    lemma_raise(claimed & !ERROR, DATA_READY, ERROR);
}

/// One command is in flight at a time. A byte that is accepted lowers
/// `COMMAND_READY`, so that the next byte is refused; a refused byte does not
/// reach the parameters; and no step of the worker on a command raises
/// `COMMAND_READY`: only its announcement that it waits for the next one does.
pub proof fn lemma_one_command_in_flight(
    controller: ControllerView,
    disks: Seq<Option<DiskView>>,
    first: u8,
    second: u8,
)
    ensures
        is_set(controller.status, COMMAND_READY) ==> !is_set(
            controller.submit(first).status,
            COMMAND_READY,
        ),
        is_set(controller.status, COMMAND_READY) ==> controller.submit(first).parameters.command
            == first && controller.submit(first).parameters.do_command,
        is_set(controller.status, COMMAND_READY) ==> controller.submit(first).submit(
            second,
        ).parameters == controller.submit(first).parameters,
        !is_set(controller.status, COMMAND_READY) ==> controller.submit(first).parameters
            == controller.parameters,
        !is_set(controller.status, COMMAND_READY) ==> is_set(
            controller.submit(first).status,
            ERROR,
        ) && is_set(controller.submit(first).status, COMMAND_READY),
        is_set(controller.execute(disks).controller.status, COMMAND_READY) == is_set(
            controller.status,
            COMMAND_READY,
        ),
        is_set(controller.data_read().status, COMMAND_READY) == is_set(
            controller.status,
            COMMAND_READY,
        ),
        is_set(controller.data_write(first).status, COMMAND_READY) == is_set(
            controller.status,
            COMMAND_READY,
        ),
        is_set(controller.ready().status, COMMAND_READY),
{
    lemma_distinct_bits();
    let status: usize = controller.status;
    lemma_lower(status, COMMAND_READY, COMMAND_READY);
    assert((status | (COMMAND_READY | ERROR)) & ERROR != 0 && (status | (COMMAND_READY | ERROR))
        & COMMAND_READY != 0) by (bit_vector);
    lemma_raise(status, COMMAND_READY, COMMAND_READY);
    lemma_raise(status, ERROR, COMMAND_READY);
    lemma_lower(status, DATA_READY, COMMAND_READY);
    let claimed: usize = status & !DATA_READY;
    lemma_raise(claimed, DATA_READY, COMMAND_READY);
    lemma_raise(claimed, ERROR, COMMAND_READY);
    lemma_raise(claimed | ERROR, DATA_READY, COMMAND_READY);
    lemma_lower(claimed, ERROR, COMMAND_READY);
    lemma_raise(claimed & !ERROR, DATA_READY, COMMAND_READY);
}

} // verus!
