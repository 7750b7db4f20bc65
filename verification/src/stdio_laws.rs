//! What holds of the character device across several steps.

use vstd::prelude::*;
use crate::flags::{is_set, lemma_lower, lemma_raise};
use crate::stdio_dev::{
    chunk, lemma_distinct_bits, rest, StdioView, BUF_LENGTH, STATUS_READY_READ,
    STATUS_READY_WRITE,
};

verus! {

/// What reaches standard output when the writer drains the outgoing bytes:
/// chunk after chunk, each removed once it is written, until none is left.
pub open spec fn delivered(outgoing: Seq<u8>) -> Seq<u8>
    decreases outgoing.len(),
{
    if outgoing.len() == 0 {
        Seq::empty()
    } else {
        chunk(outgoing) + delivered(rest(outgoing, chunk(outgoing).len() as int))
    }
}

/// A chunk and what is left behind it are the outgoing bytes: writing a
/// chunk and removing it neither drops nor repeats a byte.
pub proof fn lemma_chunk_then_rest(outgoing: Seq<u8>)
    ensures
        chunk(outgoing) + rest(outgoing, chunk(outgoing).len() as int) == outgoing,
        chunk(outgoing).len() <= BUF_LENGTH,
        outgoing.len() > 0 ==> chunk(outgoing).len() > 0,
{
    assert(chunk(outgoing) + rest(outgoing, chunk(outgoing).len() as int) =~= outgoing);
}

/// A drain delivers every outgoing byte exactly once, in the order of the buffer.
pub proof fn lemma_drain_delivers_all(outgoing: Seq<u8>)
    ensures
        delivered(outgoing) == outgoing,
    decreases outgoing.len(),
{
    if outgoing.len() > 0 {
        lemma_chunk_then_rest(outgoing);
        lemma_drain_delivers_all(rest(outgoing, chunk(outgoing).len() as int));
    } else {
        assert(delivered(outgoing) =~= outgoing);
    }
}

/// A byte that the guest writes while `STATUS_READY_WRITE` is raised is
/// delivered once, behind every byte that was accepted before it; and until
/// the writer has drained, no further byte is accepted.
pub proof fn lemma_written_byte_is_delivered(device: StdioView, value: u8, next: u8)
    requires
        is_set(device.status, STATUS_READY_WRITE),
    ensures
        delivered(device.data_write(value).outgoing) == device.outgoing.push(value),
        device.data_write(value).have_data,
        !is_set(device.data_write(value).status, STATUS_READY_WRITE),
        device.data_write(value).data_write(next) == device.data_write(value),
{
    lemma_drain_delivers_all(device.outgoing.push(value));
    lemma_lower(device.status, STATUS_READY_WRITE, STATUS_READY_WRITE);
}

/// A byte that the guest writes while `STATUS_READY_WRITE` is not raised is dropped.
pub proof fn lemma_refused_byte_is_dropped(device: StdioView, value: u8)
    requires
        !is_set(device.status, STATUS_READY_WRITE),
    ensures
        device.data_write(value) == device,
{
}

/// The bytes that `count` successive reads of the data port return.
pub open spec fn reads(device: StdioView, count: nat) -> Seq<u8>
    decreases count,
{
    if count == 0 {
        Seq::empty()
    } else {
        seq![device.data_byte()] + reads(device.data_read(), (count - 1) as nat)
    }
}

/// The device after `count` successive reads of the data port.
pub open spec fn after_reads(device: StdioView, count: nat) -> StdioView
    decreases count,
{
    if count == 0 {
        device
    } else {
        after_reads(device.data_read(), (count - 1) as nat)
    }
}

/// A read of the data port keeps the device well-formed.
pub proof fn lemma_read_keeps_wf(device: StdioView)
    requires
        device.wf(),
    ensures
        device.data_read().wf(),
{
    lemma_lower(device.status, STATUS_READY_READ, STATUS_READY_READ);
}

/// The guest reads the waiting bytes in the order in which they arrived, each
/// once; behind the last of them `STATUS_READY_READ` is lowered.
pub proof fn lemma_reads_in_order(device: StdioView)
    requires
        device.wf(),
    ensures
        reads(device, device.incoming.len()) == device.incoming,
        after_reads(device, device.incoming.len()).incoming.len() == 0,
        !is_set(after_reads(device, device.incoming.len()).status, STATUS_READY_READ),
        forall|k: nat|
            k < device.incoming.len() ==> is_set(
                #[trigger] after_reads(device, k).status,
                STATUS_READY_READ,
            ),
    decreases device.incoming.len(),
{
    let count: nat = device.incoming.len();
    if count > 0 {
        let next = device.data_read();
        lemma_read_keeps_wf(device);
        lemma_reads_in_order(next);
        assert(next.incoming.len() == count - 1);
        assert(reads(device, count) =~= device.incoming);
        assert forall|k: nat| k < count implies is_set(
            #[trigger] after_reads(device, k).status,
            STATUS_READY_READ,
        ) by {
            if k > 0 {
                assert(after_reads(device, k) == after_reads(next, (k - 1) as nat));
            }
        }
    } else {
        assert(reads(device, count) =~= device.incoming);
    }
}

/// Bytes reach the data port in the order in which they arrived on standard
/// input: what the reader appends is read behind what waited before, and
/// nothing is dropped.
pub proof fn lemma_stdin_order(device: StdioView, bytes: Seq<u8>)
    requires
        device.wf(),
    ensures
        device.accept(bytes).wf(),
        reads(device.accept(bytes), device.incoming.len() + bytes.len()) == device.incoming
            + bytes,
{
    lemma_raise(device.status, STATUS_READY_READ, STATUS_READY_READ);
    lemma_distinct_bits();
    let accepted = device.accept(bytes);
    if bytes.len() == 0 {
        assert(device.incoming + bytes =~= device.incoming);
    }
    lemma_reads_in_order(accepted);
}

} // verus!
