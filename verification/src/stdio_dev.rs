//! The buffered character device: a control port, a data port, and the two
//! workers that move bytes between the buffers and the host's standard streams.

use vstd::prelude::*;
use crate::flags::{guest_byte, holds, is_set, low_byte, lower, raise};
use crate::flags::{lemma_lower, lemma_raise};

verus! {

/// Status bit: the read buffer holds a byte for the guest.
pub const STATUS_READY_READ: usize = 1;

/// Status bit: the device accepts a byte from the guest.
pub const STATUS_READY_WRITE: usize = 2;

/// The most bytes that a worker moves at once.
pub const BUF_LENGTH: usize = 0x100;

/// The bytes on their way to standard output, and the writer's doorbell.
pub struct StdioWriterState {
    pub buffer: Vec<u8>,
    pub have_data: bool,
}

impl StdioWriterState {
    pub fn new() -> (state: StdioWriterState)
        ensures
            state.buffer@ == Seq::<u8>::empty(),
            !state.have_data,
    {
        StdioWriterState { buffer: Vec::new(), have_data: false }
    }
}

/// The state shared by the two ports and the two workers.
pub struct StdioDevice {
    pub status: usize,
    pub read_buffer: Vec<u8>,
    pub writer_state: StdioWriterState,
}

/// What a device holds, as plain values.
pub struct StdioView {
    pub status: usize,
    pub incoming: Seq<u8>,
    pub outgoing: Seq<u8>,
    pub have_data: bool,
}

impl View for StdioDevice {
    type V = StdioView;

    open spec fn view(&self) -> StdioView {
        StdioView {
            status: self.status,
            incoming: self.read_buffer@,
            outgoing: self.writer_state.buffer@,
            have_data: self.writer_state.have_data,
        }
    }
}

/// The bytes that the writer takes from the front of the outgoing bytes at once.
pub open spec fn chunk(outgoing: Seq<u8>) -> Seq<u8> {
    if outgoing.len() <= BUF_LENGTH {
        outgoing
    } else {
        outgoing.take(BUF_LENGTH as int)
    }
}

/// The outgoing bytes without their first `count`, or without all of them
/// where they are fewer.
pub open spec fn rest(outgoing: Seq<u8>, count: int) -> Seq<u8> {
    if 0 <= count <= outgoing.len() {
        outgoing.skip(count)
    } else {
        Seq::empty()
    }
}

impl StdioView {
    /// `STATUS_READY_READ` is raised exactly while a byte waits for the guest.
    pub open spec fn wf(self) -> bool {
        is_set(self.status, STATUS_READY_READ) <==> self.incoming.len() > 0
    }

    /// The byte that a guest read of the data port returns.
    pub open spec fn data_byte(self) -> u8 {
        if is_set(self.status, STATUS_READY_READ) {
            self.incoming[0]
        } else {
            0
        }
    }

    /// The state after a guest read of the data port.
    pub open spec fn data_read(self) -> StdioView {
        if is_set(self.status, STATUS_READY_READ) {
            StdioView {
                status: if self.incoming.len() == 1 {
                    self.status & !STATUS_READY_READ
                } else {
                    self.status
                },
                incoming: self.incoming.skip(1),
                ..self
            }
        } else {
            self
        }
    }

    /// The state after a guest write of `value` to the data port.
    pub open spec fn data_write(self, value: u8) -> StdioView {
        if is_set(self.status, STATUS_READY_WRITE) {
            StdioView {
                status: self.status & !STATUS_READY_WRITE,
                outgoing: self.outgoing.push(value),
                have_data: true,
                ..self
            }
        } else {
            self
        }
    }

    /// The state after the reader has received `bytes` from standard input.
    pub open spec fn accept(self, bytes: Seq<u8>) -> StdioView {
        if bytes.len() > 0 {
            StdioView {
                status: self.status | STATUS_READY_READ,
                incoming: self.incoming + bytes,
                ..self
            }
        } else {
            self
        }
    }

    /// The state after the writer has opened the device to the guest.
    pub open spec fn start(self) -> StdioView {
        StdioView { status: self.status | STATUS_READY_WRITE, ..self }
    }

    /// The state after `count` bytes have reached standard output.
    pub open spec fn commit(self, count: int) -> StdioView {
        StdioView { outgoing: rest(self.outgoing, count), ..self }
    }

    /// The state after the writer has drained the outgoing bytes.
    pub open spec fn finish(self) -> StdioView {
        StdioView { status: self.status | STATUS_READY_WRITE, have_data: false, ..self }
    }
}

impl StdioDevice {
    /// A device with empty buffers that is ready for nothing: no byte waits
    /// for the guest, and none is accepted until a writer has started.
    pub fn new() -> (device: StdioDevice)
        ensures
            device@.wf(),
            device@ == (StdioView {
                status: 0,
                incoming: Seq::empty(),
                outgoing: Seq::empty(),
                have_data: false,
            }),
    {
        assert(0usize & 1usize == 0) by (bit_vector);
        StdioDevice { status: 0, read_buffer: Vec::new(), writer_state: StdioWriterState::new() }
    }

    /// This device's control port.
    pub fn get_control_port(&self) -> (port: StdioControl<'_>)
        ensures
            *port.device == *self,
    {
        StdioControl::new(self)
    }

    /// This device's data port.
    pub fn get_data_port(&mut self) -> (port: StdioData<'_>)
        ensures
            *port.device == *old(self),
            *final(self) == *final(port.device),
    {
        StdioData::new(self)
    }

    /// The side of this device that receives what was read from standard input.
    pub fn get_reader(&mut self) -> (reader: StdioReader<'_>)
        ensures
            *reader.device == *old(self),
            *final(self) == *final(reader.device),
    {
        StdioReader::new(self)
    }

    /// The side of this device that hands out what goes to standard output.
    pub fn get_writer(&mut self) -> (writer: StdioWriter<'_>)
        ensures
            *writer.device == *old(self),
            *final(self) == *final(writer.device),
    {
        StdioWriter::new(self)
    }
}

/// The guest's view of the status word.
pub struct StdioControl<'a> {
    pub device: &'a StdioDevice,
}

impl<'a> StdioControl<'a> {
    pub fn new(device: &'a StdioDevice) -> (port: StdioControl<'a>)
        ensures
            *port.device == *device,
    {
        StdioControl { device }
    }

    /// Returns the low eight bits of the status word.
    pub fn read_in(&self) -> (byte: u8)
        ensures
            byte == guest_byte(self.device.status),
    {
        low_byte(self.device.status)
    }

    /// Does nothing: the control port takes no commands.
    pub fn write_out(&mut self, value: u8)
        ensures
            *final(self) == *old(self),
    {
    }
}

/// The guest's view of the two byte streams. It borrows the device for as
/// long as it lives; the last clause of each contract below says that an
/// operation leaves it borrowing the same device.
pub struct StdioData<'a> {
    pub device: &'a mut StdioDevice,
}

impl<'a> StdioData<'a> {
    pub fn new(device: &'a mut StdioDevice) -> (port: StdioData<'a>)
        ensures
            *port.device == *old(device),
            *final(device) == *final(port.device),
    {
        StdioData { device }
    }

    /// Takes the oldest byte that came from standard input, and lowers
    /// `STATUS_READY_READ` when it was the last. Returns 0 and changes
    /// nothing while `STATUS_READY_READ` is not raised.
    pub fn read_in(&mut self) -> (byte: u8)
        requires
            old(self).device@.wf(),
        ensures
            byte == old(self).device@.data_byte(),
            final(self).device@ == old(self).device@.data_read(),
            final(self).device@.wf(),
            *final(final(self).device) == *final(old(self).device),
    {
        let status: usize = self.device.status;
        if holds(status, STATUS_READY_READ) {
            if self.device.read_buffer.len() == 1 {
                self.device.status = lower(status, STATUS_READY_READ);
                proof {
                    lemma_lower(status, STATUS_READY_READ, STATUS_READY_READ);
                }
            }
            let byte: u8 = self.device.read_buffer.remove(0);
            assert(self.device.read_buffer@ =~= old(self).device.read_buffer@.skip(1));
            byte
        } else {
            0
        }
    }

    /// Appends `value` to the bytes for standard output, lowers
    /// `STATUS_READY_WRITE` and rings the writer's doorbell. Drops the byte
    /// while `STATUS_READY_WRITE` is not raised. The result tells whether the
    /// byte was taken, and so whether the writer has to be woken.
    pub fn write_out(&mut self, value: u8) -> (accepted: bool)
        ensures
            accepted == is_set(old(self).device.status, STATUS_READY_WRITE),
            final(self).device@ == old(self).device@.data_write(value),
            old(self).device@.wf() ==> final(self).device@.wf(),
            *final(final(self).device) == *final(old(self).device),
    {
        let status: usize = self.device.status;
        if holds(status, STATUS_READY_WRITE) {
            self.device.writer_state.buffer.push(value);
            self.device.status = lower(status, STATUS_READY_WRITE);
            self.device.writer_state.have_data = true;
            proof {
                lemma_distinct_bits();
                lemma_lower(status, STATUS_READY_WRITE, STATUS_READY_READ);
            }
            true
        } else {
            false
        }
    }
}

/// The two status bits are distinct.
pub proof fn lemma_distinct_bits()
    ensures
        !is_set(STATUS_READY_READ, STATUS_READY_WRITE),
        !is_set(STATUS_READY_WRITE, STATUS_READY_READ),
        is_set(STATUS_READY_READ, STATUS_READY_READ),
        is_set(STATUS_READY_WRITE, STATUS_READY_WRITE),
{
    assert(1usize & 2usize == 0 && 2usize & 1usize == 0 && 1usize & 1usize != 0 && 2usize & 2usize
        != 0) by (bit_vector);
}

/// The worker's side of the read buffer. It borrows the device as the data
/// port does.
pub struct StdioReader<'a> {
    pub device: &'a mut StdioDevice,
}

impl<'a> StdioReader<'a> {
    pub fn new(device: &'a mut StdioDevice) -> (reader: StdioReader<'a>)
        ensures
            *reader.device == *old(device),
            *final(device) == *final(reader.device),
    {
        StdioReader { device }
    }

    /// Appends what one read of standard input returned to the bytes that
    /// wait for the guest, and then raises `STATUS_READY_READ`. A read that
    /// returned nothing changes nothing.
    pub fn accept(&mut self, bytes: &[u8])
        ensures
            final(self).device@ == old(self).device@.accept(bytes@),
            old(self).device@.wf() ==> final(self).device@.wf(),
            *final(final(self).device) == *final(old(self).device),
    {
        let count: usize = bytes.len();
        if count > 0 {
            let mut i: usize = 0;
            while i < count
                invariant
                    i <= count == bytes@.len(),
                    self.device.read_buffer@ == old(self).device.read_buffer@ + bytes@.take(
                        i as int,
                    ),
                    self.device.status == old(self).device.status,
                    self.device.writer_state == old(self).device.writer_state,
                    *final(self.device) == *final(old(self).device),
                decreases count - i,
            {
                self.device.read_buffer.push(bytes[i]);
                i += 1;
                assert(self.device.read_buffer@ =~= old(self).device.read_buffer@ + bytes@.take(
                    i as int,
                ));
            }
            assert(bytes@.take(count as int) =~= bytes@);
            self.device.status = raise(self.device.status, STATUS_READY_READ);
            proof {
                lemma_distinct_bits();
                lemma_raise(old(self).device.status, STATUS_READY_READ, STATUS_READY_READ);
            }
        }
    }
}

/// The worker's side of the write buffer. It borrows the device as the data
/// port does.
pub struct StdioWriter<'a> {
    pub device: &'a mut StdioDevice,
}

impl<'a> StdioWriter<'a> {
    pub fn new(device: &'a mut StdioDevice) -> (writer: StdioWriter<'a>)
        ensures
            *writer.device == *old(device),
            *final(device) == *final(writer.device),
    {
        StdioWriter { device }
    }

    /// Opens the device to the guest: raises `STATUS_READY_WRITE`.
    pub fn start(&mut self)
        ensures
            final(self).device@ == old(self).device@.start(),
            old(self).device@.wf() ==> final(self).device@.wf(),
            *final(final(self).device) == *final(old(self).device),
    {
        self.device.status = raise(self.device.status, STATUS_READY_WRITE);
        proof {
            lemma_distinct_bits();
            lemma_raise(old(self).device.status, STATUS_READY_WRITE, STATUS_READY_READ);
        }
    }

    /// Whether the doorbell has been rung.
    pub fn have_data(&self) -> (rung: bool)
        ensures
            rung == old(self.device).writer_state.have_data,
    {
        self.device.writer_state.have_data
    }

    /// The next bytes for standard output: the oldest outgoing bytes, at most
    /// `BUF_LENGTH` of them. They stay in the buffer until `commit`.
    pub fn next_chunk(&self) -> (bytes: Vec<u8>)
        ensures
            bytes@ == chunk(old(self.device).writer_state.buffer@),
    {
        let mut bytes: Vec<u8> = Vec::new();
        let mut i: usize = 0;
        while i < BUF_LENGTH && i < self.device.writer_state.buffer.len()
            invariant
                i <= BUF_LENGTH,
                i <= self.device.writer_state.buffer@.len(),
                bytes@ == self.device.writer_state.buffer@.take(i as int),
            decreases BUF_LENGTH - i,
        {
            bytes.push(self.device.writer_state.buffer[i]);
            i += 1;
            assert(bytes@ =~= self.device.writer_state.buffer@.take(i as int));
        }
        assert(bytes@ =~= chunk(self.device.writer_state.buffer@));
        bytes
    }

    /// Removes the first `count` outgoing bytes, which have reached standard
    /// output; all of them where they are fewer.
    pub fn commit(&mut self, count: usize)
        ensures
            final(self).device@ == old(self).device@.commit(count as int),
            old(self).device@.wf() ==> final(self).device@.wf(),
            *final(final(self).device) == *final(old(self).device),
    {
        if self.device.writer_state.buffer.len() >= count {
            let kept: Vec<u8> = self.device.writer_state.buffer.split_off(count);
            self.device.writer_state.buffer = kept;
            assert(self.device.writer_state.buffer@ =~= rest(
                old(self).device.writer_state.buffer@,
                count as int,
            ));
        } else {
            self.device.writer_state.buffer = Vec::new();
        }
    }

    /// Ends a drain: clears the doorbell and raises `STATUS_READY_WRITE`.
    pub fn finish(&mut self)
        ensures
            final(self).device@ == old(self).device@.finish(),
            old(self).device@.wf() ==> final(self).device@.wf(),
            *final(final(self).device) == *final(old(self).device),
    {
        self.device.writer_state.have_data = false;
        self.device.status = raise(self.device.status, STATUS_READY_WRITE);
        proof {
            lemma_distinct_bits();
            lemma_raise(old(self).device.status, STATUS_READY_WRITE, STATUS_READY_READ);
        }
    }
}

} // verus!
