//! From what one side of a connection writes to what the other side reads.
use vstd::prelude::*;
use crate::error::{SerdeReadError, SerdeWriteError};
use crate::frame::{
    encode_frame, frame, frame_handle, frame_payload, law_frame_layout, law_frame_parts,
    law_frame_roundtrip, law_header_is_big_endian,
};
use crate::handle::{ContextHandle, ROOT_HANDLE};
use crate::history::{
    after_all, all_allowed, arrivals, arrived, law_connection_starts_empty, law_open_until_the_end,
    law_registered_context_has_all, law_registered_stays_registered, law_registration_registers,
    naming, sent_all, Event,
};
use crate::poll::Polled;
use crate::router::{initial_table, is_open, is_registered, table_wf, waiting, Table};
use crate::session::sink_failure;
use crate::stream::{
    events, inspected, item_bytes, items, law_nothing_is_read_after_the_end,
    law_reading_stops_at_first_failure, law_written_frames_are_read, registers_once, Step,
};
use crate::transport::{has_failed, is_read_answer, read_item, Transport};

verus! {

/// The frames that go out when payloads are written to contexts, in this order.
pub open spec fn outgoing(written: Seq<(u32, Seq<u8>)>) -> Seq<Seq<u8>> {
    written.map_values(|item: (u32, Seq<u8>)| frame(item.0, item.1))
}

/// The payloads among `written` that were written to the context `handle`, in order.
pub open spec fn written_to(written: Seq<(u32, Seq<u8>)>, handle: u32) -> Seq<Seq<u8>> {
    written.filter(|item: (u32, Seq<u8>)| item.0 == handle).map_values(
        |item: (u32, Seq<u8>)| item.1,
    )
}

/// The payloads of frames.
pub open spec fn payloads(data: Seq<Seq<u8>>) -> Seq<Seq<u8>> {
    data.map_values(|item: Seq<u8>| frame_payload(item))
}

/// Whether a sink that was to take `messages` took `given`: from the first message on and in
/// order, and all of them unless it failed.
pub open spec fn is_forwarded<U>(
    messages: Seq<Seq<u8>>,
    given: Seq<Seq<u8>>,
    outcome: Result<(), U>,
) -> bool {
    &&& given.is_prefix_of(messages)
    &&& outcome is Ok ==> given == messages
}

/// The frames that name a context carry what was written to that context.
pub proof fn law_outgoing_frames_name_their_context(written: Seq<(u32, Seq<u8>)>, handle: u32)
    ensures
        payloads(naming(outgoing(written), handle)) == written_to(written, handle),
    decreases written.len(),
{
    reveal(Seq::filter);
    if written.len() == 0 {
        assert(payloads(naming(outgoing(written), handle)) =~= written_to(written, handle));
    } else {
        let earlier = written.drop_last();
        let (to, payload) = written.last();
        law_outgoing_frames_name_their_context(earlier, handle);
        law_frame_roundtrip(to, payload);
        assert(outgoing(written).drop_last() =~= outgoing(earlier));
        assert(payloads(naming(outgoing(written), handle)) =~= if to == handle {
            payloads(naming(outgoing(earlier), handle)).push(payload)
        } else {
            payloads(naming(outgoing(earlier), handle))
        });
        assert(written_to(written, handle) =~= if to == handle {
            written_to(earlier, handle).push(payload)
        } else {
            written_to(earlier, handle)
        });
    }
}

/// What was written first comes first, context by context.
proof fn lemma_written_prefix(written: Seq<(u32, Seq<u8>)>, n: int, handle: u32)
    requires
        0 <= n <= written.len(),
    ensures
        written_to(written.take(n), handle).is_prefix_of(written_to(written, handle)),
    decreases written.len() - n,
{
    reveal(Seq::filter);
    if n == written.len() {
        assert(written.take(n) =~= written);
    } else {
        let next = written.take(n + 1);
        lemma_written_prefix(written, n + 1, handle);
        assert(next.drop_last() =~= written.take(n));
        assert(written_to(written.take(n), handle).is_prefix_of(written_to(next, handle)));
    }
}

/// Many contexts share one link and do not meet on it: where the frames that arrive are those of
/// everything that was written on the other side, to whatever contexts, each context that is
/// registered gets just what was written to it, in order.
pub proof fn law_contexts_share_a_link<C>(
    table: Table<C>,
    events: Seq<Event<C>>,
    written: Seq<(u32, Seq<u8>)>,
    handle: u32,
)
    requires
        table_wf(table),
        all_allowed(table, events),
        waiting(table, handle) == Seq::<Seq<u8>>::empty(),
        arrivals(events) == outgoing(written),
        is_registered(after_all(table, events), handle),
    ensures
        payloads(sent_all(table, events, handle)) == written_to(written, handle),
{
    law_registered_context_has_all(table, events, handle);
    assert(sent_all(table, events, handle) =~= arrived(events, handle));
    law_outgoing_frames_name_their_context(written, handle);
}

/// Frames go out in the order in which they were written and unmodified, up to the first failure
/// of the sink. The failure is what transports are told, and where they are told nothing all
/// frames went out. On the other side each context that is registered gets what was written to
/// it, as far as it went out.
pub proof fn law_frames_go_out_in_order<C, U>(
    written: Seq<(u32, Seq<u8>)>,
    given: Seq<Seq<u8>>,
    outcome: Result<(), U>,
    cause: U,
    table: Table<C>,
    events: Seq<Event<C>>,
    handle: u32,
)
    requires
        is_forwarded(outgoing(written), given, outcome),
        table_wf(table),
        all_allowed(table, events),
        waiting(table, handle) == Seq::<Seq<u8>>::empty(),
        arrivals(events) == given,
        is_registered(after_all(table, events), handle),
    ensures
        given == outgoing(written.take(given.len() as int)),
        sink_failure(outcome) == Some(SerdeWriteError::Sink(cause)) <==> outcome == Err::<(), U>(
            cause,
        ),
        sink_failure(outcome) is None ==> given == outgoing(written),
        payloads(sent_all(table, events, handle)) == written_to(
            written.take(given.len() as int),
            handle,
        ),
        payloads(sent_all(table, events, handle)).is_prefix_of(written_to(written, handle)),
{
    let out = written.take(given.len() as int);
    assert(given =~= outgoing(out));
    law_contexts_share_a_link(table, events, out, handle);
    lemma_written_prefix(written, given.len() as int, handle);
}

/// From a fresh connection on, through whatever the stream gives and whatever is registered, each
/// context that is registered gets just what was written to it on the other side, in order, where
/// the frames before the first item that is none are those that were written.
pub proof fn law_connection_carries_what_was_written<C, E>(
    root: C,
    steps: Seq<Step<C, E>>,
    n: nat,
    written: Seq<(u32, Seq<u8>)>,
    handle: u32,
    channel: C,
)
    requires
        registers_once(initial_table(root), steps),
        n <= items(steps).len(),
        forall|i: int| 0 <= i < n ==> inspected(#[trigger] items(steps)[i]) is Frame,
        n < items(steps).len() ==> !(inspected(items(steps)[n as int]) is Frame),
        items(steps).take(n as int).map_values(
            |item: Option<Result<Vec<u8>, E>>| item_bytes(item),
        ) == outgoing(written),
        handle == ROOT_HANDLE || steps.contains(Step::Registration(handle, channel)),
    ensures
        payloads(sent_all(initial_table(root), events(steps), handle)) == written_to(
            written,
            handle,
        ),
{
    let table = initial_table(root);
    law_connection_starts_empty(root, handle);
    law_nothing_is_read_after_the_end(table, steps);
    law_reading_stops_at_first_failure(steps, n);
    if handle == ROOT_HANDLE {
        law_registered_stays_registered(table, events(steps), handle);
    } else {
        law_registration_registers(table, events(steps), handle, channel);
    }
    law_contexts_share_a_link(table, events(steps), written, handle);
}

/// What the receiving end of a channel gives after `taken` frames were taken from it: the next of
/// those that were sent, and behind them nothing, which is for good once the channel is let go.
pub open spec fn channel_gives(sent: Seq<Seq<u8>>, held: bool, taken: nat) -> Polled<
    Option<Seq<u8>>,
> {
    if taken < sent.len() {
        Polled::Ready(Some(sent[taken as int]))
    } else if held {
        Polled::Pending
    } else {
        Polled::Ready(None)
    }
}

/// What a poll of a receiver gave, with the frame as a sequence of bytes.
pub open spec fn given_frame(polled: Polled<Option<Vec<u8>>>) -> Polled<Option<Seq<u8>>> {
    match polled {
        Polled::Ready(Some(data)) => Polled::Ready(Some(data@)),
        Polled::Ready(None) => Polled::Ready(None),
        Polled::Pending => Polled::Pending,
    }
}

/// Where the connection has not failed, the reads of a context give what arrived for it, frame by
/// frame and in order. Behind the last frame a read waits while the stream goes on, and is told
/// that the stream completed early once it has ended.
pub proof fn law_reads_follow_the_stream<C, S, R, L, T, X, I, D, G, N, F>(
    table: Table<C>,
    events: Seq<Event<C>>,
    transport: Transport<S, R, L>,
    taken: nat,
    failure: G,
    next: N,
    decode: F,
    answer: Polled<Result<I, SerdeReadError<T>>>,
) where
    G: FnOnce(&mut L) -> Polled<Result<SerdeReadError<T>, X>>,
    N: FnOnce(&mut R) -> Polled<Option<Vec<u8>>>,
    F: FnOnce(&[u8]) -> Result<I, D>,

    requires
        table_wf(table),
        !table.ended,
        all_allowed(table, events),
        waiting(table, transport.id.0) == Seq::<Seq<u8>>::empty(),
        is_registered(after_all(table, events), transport.id.0),
        forall|link: &mut L, slot: Polled<Result<SerdeReadError<T>, X>>| #[trigger]
            failure.ensures((link,), slot) && *link == transport.link ==> !has_failed(slot),
        forall|receiver: &mut R, polled: Polled<Option<Vec<u8>>>| #[trigger]
            next.ensures((receiver,), polled) && *receiver == transport.receiver ==> given_frame(
                polled,
            ) == channel_gives(
                sent_all(table, events, transport.id.0),
                is_open(after_all(table, events), transport.id.0),
                taken,
            ),
        is_read_answer(transport, failure, next, decode, answer),
    ensures
        taken < arrived(events, transport.id.0).len() ==> exists|
            bytes: &[u8],
            decoded: Result<I, D>,
        |
            #[trigger] decode.ensures((bytes,), decoded) && bytes@ == frame_payload(
                arrived(events, transport.id.0)[taken as int],
            ) && answer == Polled::Ready(read_item::<T, I, D>(decoded)),
        taken >= arrived(events, transport.id.0).len() && events.contains(Event::End) ==> answer
            == Polled::Ready(Err::<I, _>(SerdeReadError::<T>::Terminated)),
        taken >= arrived(events, transport.id.0).len() && !events.contains(Event::End)
            ==> answer is Pending,
{
    let handle = transport.id.0;
    law_registered_context_has_all(table, events, handle);
    assert(sent_all(table, events, handle) =~= arrived(events, handle));
    law_open_until_the_end(table, events, handle);
}

proof fn lemma_naming_picks(
    written: Seq<(ContextHandle, Vec<u8>, Vec<u8>)>,
    data: Seq<Seq<u8>>,
    wanted: spec_fn((ContextHandle, Vec<u8>, Vec<u8>)) -> bool,
    handle: u32,
)
    requires
        data.len() == written.len(),
        forall|i: int|
            0 <= i < written.len() ==> data[i] == (#[trigger] written[i]).2@ && frame_handle(
                data[i],
            ) == Some(written[i].0.0),
        forall|item: (ContextHandle, Vec<u8>, Vec<u8>)| #[trigger]
            wanted(item) <==> item.0.0 == handle,
    ensures
        naming(data, handle).len() == written.filter(wanted).len(),
        forall|k: int|
            0 <= k < written.filter(wanted).len() ==> #[trigger] naming(data, handle)[k]
                == written.filter(wanted)[k].2@,
    decreases written.len(),
{
    reveal(Seq::filter);
    if written.len() > 0 {
        let last = written.len() - 1;
        assert(data[last] == written[last].2@);
        assert forall|i: int| 0 <= i < last implies data.drop_last()[i] == (
        #[trigger] written.drop_last()[i]).2@ && frame_handle(data.drop_last()[i]) == Some(
            written.drop_last()[i].0.0,
        ) by {
            assert(data[i] == written[i].2@);
        }
        lemma_naming_picks(written.drop_last(), data.drop_last(), wanted, handle);
    }
}

/// What was written to a context on one side reaches the channel of that context on the other
/// side, where the stream gives the frames that were written: every frame that was written to it,
/// in order and byte for byte, its payload behind the four bytes of the handle, and none that was
/// written to another.
pub proof fn law_written_payloads_reach_their_contexts<C, E>(
    root: C,
    steps: Seq<Step<C, E>>,
    written: Seq<(ContextHandle, Vec<u8>, Vec<u8>)>,
    wanted: spec_fn((ContextHandle, Vec<u8>, Vec<u8>)) -> bool,
    handle: ContextHandle,
    channel: C,
)
    requires
        forall|i: int|
            0 <= i < written.len() ==> encode_frame.ensures(
                ((#[trigger] written[i]).0, written[i].1),
                written[i].2,
            ),
        forall|item: (ContextHandle, Vec<u8>, Vec<u8>)| #[trigger]
            wanted(item) <==> item.0.0 == handle.0,
        registers_once(initial_table(root), steps),
        items(steps).len() == written.len(),
        forall|i: int|
            0 <= i < written.len() ==> #[trigger] items(steps)[i] == Some(
                Ok::<Vec<u8>, E>(written[i].2),
            ),
        handle.0 == 0 || steps.contains(Step::Registration(handle.0, channel)),
    ensures
        sent_all(initial_table(root), events(steps), handle.0).len() == written.filter(
            wanted,
        ).len(),
        forall|k: int|
            0 <= k < written.filter(wanted).len() ==> {
                &&& #[trigger] sent_all(initial_table(root), events(steps), handle.0)[k]
                    == written.filter(wanted)[k].2@
                &&& sent_all(initial_table(root), events(steps), handle.0)[k].len() >= 4
                &&& sent_all(initial_table(root), events(steps), handle.0)[k].subrange(
                    4,
                    sent_all(initial_table(root), events(steps), handle.0)[k].len() as int,
                ) == written.filter(wanted)[k].1@
            },
{
    let table = initial_table(root);
    let handles = Seq::new(written.len(), |i: int| written[i].0);
    let carried = Seq::new(written.len(), |i: int| written[i].1);
    let frames = Seq::new(written.len(), |i: int| written[i].2);
    assert forall|i: int| 0 <= i < frames.len() implies encode_frame.ensures(
        (handles[i], carried[i]),
        #[trigger] frames[i],
    ) by {
        assert(written[i].2 == frames[i]);
    }
    assert forall|i: int| 0 <= i < frames.len() implies #[trigger] items(steps)[i] == Some(
        Ok::<Vec<u8>, E>(frames[i]),
    ) by {}
    law_written_frames_are_read(steps, handles, carried, frames);
    law_nothing_is_read_after_the_end(table, steps);
    law_connection_starts_empty(root, handle.0);
    assert forall|i: int| 0 <= i < items(steps).len() implies inspected(
        #[trigger] items(steps)[i],
    ) is Frame by {
        law_header_is_big_endian(handles[i], carried[i], frames[i]);
        law_frame_parts(frames[i]@);
    }
    law_reading_stops_at_first_failure(steps, items(steps).len());
    if handle.0 == ROOT_HANDLE {
        law_registered_stays_registered(table, events(steps), handle.0);
    } else {
        law_registration_registers(table, events(steps), handle.0, channel);
    }
    law_registered_context_has_all(table, events(steps), handle.0);
    assert(sent_all(table, events(steps), handle.0) =~= arrived(events(steps), handle.0));
    let data = arrivals(events(steps));
    assert forall|i: int| 0 <= i < written.len() implies data[i] == (#[trigger] written[i]).2@
        && frame_handle(data[i]) == Some(written[i].0.0) by {
        assert(data[i] == frames[i]@);
        law_header_is_big_endian(written[i].0, written[i].1, written[i].2);
        law_frame_parts(data[i]);
    }
    lemma_naming_picks(written, data, wanted, handle.0);
    assert forall|k: int| 0 <= k < written.filter(wanted).len() implies {
        &&& #[trigger] sent_all(table, events(steps), handle.0)[k] == written.filter(wanted)[k].2@
        &&& sent_all(table, events(steps), handle.0)[k].len() >= 4
        &&& sent_all(table, events(steps), handle.0)[k].subrange(
            4,
            sent_all(table, events(steps), handle.0)[k].len() as int,
        ) == written.filter(wanted)[k].1@
    } by {
        let picked = written.filter(wanted)[k];
        assert(naming(data, handle.0)[k] == picked.2@);
        assert(written.filter(wanted).contains(picked));
        written.lemma_filter_contains_rev(wanted, picked);
        let at = choose|i: int| 0 <= i < written.len() && written[i] == picked;
        assert(encode_frame.ensures((written[at].0, written[at].1), written[at].2));
        law_header_is_big_endian(picked.0, picked.1, picked.2);
        assert(picked.2@.subrange(4, picked.2@.len() as int) =~= picked.1@);
    }
}

/// What goes out, what is written to a context and what frames carry, element by element.
pub proof fn law_outgoing_element_by_element(
    written: Seq<(u32, Seq<u8>)>,
    data: Seq<Seq<u8>>,
    i: int,
)
    ensures
        outgoing(written).len() == written.len(),
        0 <= i < written.len() ==> {
            &&& outgoing(written)[i].len() == 4 + written[i].1.len()
            &&& outgoing(written)[i][0] * 0x100_0000 + outgoing(written)[i][1] * 0x1_0000
                + outgoing(written)[i][2] * 0x100 + outgoing(written)[i][3] == written[i].0
            &&& outgoing(written)[i].subrange(4, 4 + written[i].1.len() as int) == written[i].1
        },
        payloads(data).len() == data.len(),
        0 <= i < data.len() && data[i].len() >= 4 ==> payloads(data)[i] == data[i].subrange(
            4,
            data[i].len() as int,
        ),
{
    if 0 <= i < written.len() {
        law_frame_layout(written[i].0, written[i].1);
    }
    if 0 <= i < data.len() {
        law_frame_parts(data[i]);
    }
}

/// What is written to a context is gathered item by item.
pub proof fn law_written_to_item_by_item(
    written: Seq<(u32, Seq<u8>)>,
    to: u32,
    payload: Seq<u8>,
    handle: u32,
)
    ensures
        written_to(Seq::<(u32, Seq<u8>)>::empty(), handle).len() == 0,
        written_to(written.push((to, payload)), handle) == if to == handle {
            written_to(written, handle).push(payload)
        } else {
            written_to(written, handle)
        },
{
    reveal(Seq::filter);
    let more = written.push((to, payload));
    assert(more.drop_last() =~= written);
    assert(written_to(more, handle) =~= if to == handle {
        written_to(written, handle).push(payload)
    } else {
        written_to(written, handle)
    });
}

} // verus!
