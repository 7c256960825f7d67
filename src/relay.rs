//! The decisions of the capture and replay loops. The loops themselves, with
//! their devices and sockets, run around these functions.

use crate::protocol::{decode, decoded, lemma_decode_encode, wire_bytes, InputEvent, EVENT_SIZE};
use vstd::prelude::*;
use vstd::string::StringSliceAdditionalSpecFns;

verus! {

/// Why a device read returned no events.
#[derive(Clone, Copy, Debug, PartialEq, Eq, Structural)]
pub enum ReadFailure {
    /// The device has nothing to report yet.
    NoDataYet,
    /// Any other I/O failure.
    Failed,
}

/// What a capture thread does next after a read returned no events.
#[derive(Clone, Copy, Debug, PartialEq, Eq, Structural)]
pub enum ReaderAction {
    /// Sleep briefly and read again.
    SleepAndRetry,
    /// End this device's loop; the other devices go on.
    Stop,
}

/// A transient lack of data is retried after a short sleep; any other
/// failure ends this reader only.
pub fn after_read_failure(f: ReadFailure) -> (r: ReaderAction)
    ensures
        r == (if f == ReadFailure::NoDataYet {
            ReaderAction::SleepAndRetry
        } else {
            ReaderAction::Stop
        }),
{
    match f {
        ReadFailure::NoDataYet => ReaderAction::SleepAndRetry,
        ReadFailure::Failed => ReaderAction::Stop,
    }
}

/// The bytes of "event", the prefix of the device nodes that are captured.
pub open spec fn event_node_prefix() -> Seq<u8> {
    seq![0x65u8, 0x76u8, 0x65u8, 0x6eu8, 0x74u8]
}

/// Whether a directory entry named `name` is an input event node, that is,
/// whether its name starts with "event".
pub fn is_event_node(name: &str) -> (r: bool)
    ensures
        r == (name.spec_bytes().len() >= 5 && name.spec_bytes().subrange(0, 5)
            == event_node_prefix()),
{
    let b = name.as_bytes();
    if b.len() < 5 {
        return false;
    }
    let r = b[0] == 0x65 && b[1] == 0x76 && b[2] == 0x65 && b[3] == 0x6e && b[4] == 0x74;
    assert(r == (b@.subrange(0, 5) =~= event_node_prefix()));
    r
}

/// What the receiver does with one datagram.
#[derive(Clone, Copy, Debug, PartialEq, Eq, Structural)]
pub enum Delivery {
    /// Hand the event to the virtual device.
    Emit(InputEvent),
    /// Log and drop the payload, then go on receiving.
    Discard,
}

/// The delivery of the datagram `b`.
pub open spec fn delivery_of(b: Seq<u8>) -> Delivery {
    match decoded(b) {
        Some(e) => Delivery::Emit(e),
        None => Delivery::Discard,
    }
}

/// The events replayed from the datagrams `ds`, received in that order:
/// each datagram is decoded on its own and those that fail are skipped.
pub open spec fn replayed(ds: Seq<Seq<u8>>) -> Seq<InputEvent>
    decreases ds.len(),
{
    if ds.len() == 0 {
        Seq::empty()
    } else {
        let rest = replayed(ds.drop_last());
        match decoded(ds.last()) {
            Some(e) => rest.push(e),
            None => rest,
        }
    }
}

/// Decides the fate of one received datagram. A payload shorter than one
/// record is discarded; the receive loop is never ended by a payload.
pub fn on_datagram(bytes: &[u8]) -> (r: Delivery)
    ensures
        r == delivery_of(bytes@),
        bytes@.len() < EVENT_SIZE <==> r == Delivery::Discard,
{
    match decode(bytes) {
        Some(e) => Delivery::Emit(e),
        None => Delivery::Discard,
    }
}

/// The events that a receiver replays from `datagrams`, in arrival order.
pub fn replay_all(datagrams: &Vec<Vec<u8>>) -> (r: Vec<InputEvent>)
    ensures
        r@ == replayed(datagrams@.map_values(|d: Vec<u8>| d@)),
{
    let ghost ds = datagrams@.map_values(|d: Vec<u8>| d@);
    let mut out: Vec<InputEvent> = Vec::new();
    let mut i: usize = 0;
    while i < datagrams.len()
        invariant
            0 <= i <= datagrams@.len(),
            ds == datagrams@.map_values(|d: Vec<u8>| d@),
            out@ == replayed(ds.take(i as int)),
        decreases datagrams@.len() - i,
    {
        assert(ds.take(i + 1).drop_last() == ds.take(i as int));
        match on_datagram(datagrams[i].as_slice()) {
            Delivery::Emit(e) => out.push(e),
            Delivery::Discard => {},
        }
        i = i + 1;
    }
    assert(ds.take(datagrams@.len() as int) == ds);
    out
}

proof fn lemma_replayed_append(a: Seq<Seq<u8>>, b: Seq<Seq<u8>>)
    ensures
        replayed(a + b) == replayed(a) + replayed(b),
    decreases b.len(),
{
    if b.len() == 0 {
        assert(a + b == a);
        assert(replayed(a) + replayed(b) == replayed(a));
    } else {
        lemma_replayed_append(a, b.drop_last());
        assert((a + b).drop_last() == a + b.drop_last());
        assert((a + b).last() == b.last());
    }
}

/// A datagram shorter than one record, received anywhere in a stream, is
/// dropped and changes nothing for the datagrams before and after it.
pub proof fn lemma_short_datagram_skipped(
    before: Seq<Seq<u8>>,
    short: Seq<u8>,
    after: Seq<Seq<u8>>,
)
    requires
        short.len() < EVENT_SIZE,
    ensures
        replayed(before.push(short) + after) == replayed(before) + replayed(after),
{
    lemma_replayed_append(before.push(short), after);
    assert(before.push(short).drop_last() == before);
}

/// Each datagram is replayed on its own: the events of two streams received
/// one after the other are the events of the first followed by those of the
/// second.
pub proof fn lemma_replay_independent(a: Seq<Seq<u8>>, b: Seq<Seq<u8>>)
    ensures
        replayed(a + b) == replayed(a) + replayed(b),
{
    lemma_replayed_append(a, b);
}

/// Events encoded one per datagram and received in the order sent are
/// replayed exactly, with their fields and in their order.
pub proof fn lemma_replay_of_encoded(events: Seq<InputEvent>)
    ensures
        replayed(events.map_values(|e: InputEvent| wire_bytes(e))) == events,
    decreases events.len(),
{
    let ds = events.map_values(|e: InputEvent| wire_bytes(e));
    if events.len() > 0 {
        lemma_replay_of_encoded(events.drop_last());
        assert(ds.drop_last() == events.drop_last().map_values(|e: InputEvent| wire_bytes(e)));
        lemma_decode_encode(events.last());
        assert(events.drop_last().push(events.last()) == events);
    }
}

} // verus!
