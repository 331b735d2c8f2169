//! What the items of the stream are, and how far the stream is read.
use vstd::prelude::*;
use crate::error::SerdeReadError;
use crate::frame::{
    decode_handle, encode_frame, frame_handle, law_frame_parts, law_header_is_big_endian,
};
use crate::handle::ContextHandle;
use crate::history::{after_all, all_allowed, arrivals, sent_all, Event};
use crate::router::{
    after_arrival, after_end, after_registration, is_open, is_registered, law_slots_after_arrival,
    law_slots_after_end, waiting, Registered, Registration, Router, Slot, Table,
};

verus! {

/// What the stream gave.
pub enum Inbound<E> {
    /// The stream is at its end; nothing more is read.
    Ended,
    /// Nothing more is read, and this is why. Every transport of the connection is told.
    Failed(SerdeReadError<E>),
    /// A frame for the router.
    Frame(ContextHandle, Vec<u8>),
}

/// What an item of the stream is: a frame, the end, or a failure.
pub open spec fn inspected<E>(item: Option<Result<Vec<u8>, E>>) -> Inbound<E> {
    match item {
        None => Inbound::Ended,
        Some(Err(cause)) => Inbound::Failed(SerdeReadError::Stream(cause)),
        Some(Ok(data)) => match frame_handle(data@) {
            None => Inbound::Failed(SerdeReadError::Insufficient),
            Some(handle) => Inbound::Frame(ContextHandle(handle), data),
        },
    }
}

/// Looks at what the stream gave next: an item, an error, or its end.
pub fn inspect<E>(item: Option<Result<Vec<u8>, E>>) -> (inbound: Inbound<E>)
    ensures
        inbound == inspected(item),
{
    match item {
        None => Inbound::Ended,
        Some(Err(cause)) => Inbound::Failed(SerdeReadError::Stream(cause)),
        Some(Ok(data)) => match decode_handle(data.as_slice()) {
            None => Inbound::Failed(SerdeReadError::Insufficient),
            Some(handle) => Inbound::Frame(handle, data),
        },
    }
}

/// Keeps back what the stream gave where it is a failure, which does not concern the router. So
/// transports can be told of it while the router is busy.
pub fn sift<E>(item: Option<Result<Vec<u8>, E>>) -> (sifted: Result<
    Option<Result<Vec<u8>, E>>,
    SerdeReadError<E>,
>)
    ensures
        sifted == match inspected(item) {
            Inbound::Failed(error) => Err(error),
            _ => Ok(item),
        },
{
    match item {
        None => Ok(None),
        Some(Err(cause)) => Err(SerdeReadError::Stream(cause)),
        Some(Ok(data)) => match decode_handle(data.as_slice()) {
            None => Err(SerdeReadError::Insufficient),
            Some(_) => Ok(Some(Ok(data))),
        },
    }
}

/// What is to be done about an item of the stream once the router has taken it in.
pub enum Todo<E> {
    /// Nothing; the stream is at its end, and nothing more is read.
    Over,
    /// Every transport of the connection is to be told this, and nothing more is read.
    Tell(SerdeReadError<E>),
    /// Nothing; reading goes on.
    Proceed,
    /// The frame is to be sent on the channel of its context; reading goes on.
    Send(ContextHandle, Vec<u8>),
}

/// What is to be done about an item, with the table as it is.
pub open spec fn todo_about<C, E>(table: Table<C>, item: Option<Result<Vec<u8>, E>>) -> Todo<E> {
    match inspected(item) {
        Inbound::Ended => Todo::Over,
        Inbound::Failed(error) => Todo::Tell(error),
        Inbound::Frame(handle, data) => if is_open(table, handle.0) {
            Todo::Send(handle, data)
        } else {
            Todo::Proceed
        },
    }
}

/// The table after an item of the stream.
pub open spec fn after_item<C, E>(table: Table<C>, item: Option<Result<Vec<u8>, E>>) -> Table<C> {
    match inspected(item) {
        Inbound::Ended => after_end(table),
        Inbound::Failed(_) => table,
        Inbound::Frame(_, data) => after_arrival(table, data@),
    }
}

/// Something that the tasks of a connection meet.
pub enum Step<C, E> {
    /// The stream gives an item, an error, or its end.
    Item(Option<Result<Vec<u8>, E>>),
    /// A channel is registered for a context.
    Registration(u32, C),
}

/// What the stream gives in a run of steps, in order.
pub open spec fn items<C, E>(steps: Seq<Step<C, E>>) -> Seq<Option<Result<Vec<u8>, E>>>
    decreases steps.len(),
{
    if steps.len() == 0 {
        seq![]
    } else {
        match steps.last() {
            Step::Item(item) => items(steps.drop_last()).push(item),
            Step::Registration(_, _) => items(steps.drop_last()),
        }
    }
}

/// Whether the stream is still read after a run of steps: each item is looked at, and reading
/// goes on where it was a frame.
pub open spec fn is_reading<C, E>(steps: Seq<Step<C, E>>) -> bool
    decreases steps.len(),
{
    steps.len() == 0 || {
        &&& is_reading(steps.drop_last())
        &&& steps.last() matches Step::Item(item) ==> inspected(item) is Frame
    }
}

/// What happens at the router in a run of steps. Frames and the end of the stream reach it while
/// the stream is read; a failure does not concern it.
pub open spec fn events<C, E>(steps: Seq<Step<C, E>>) -> Seq<Event<C>>
    decreases steps.len(),
{
    if steps.len() == 0 {
        seq![]
    } else {
        let earlier = events(steps.drop_last());
        match steps.last() {
            Step::Registration(handle, channel) => earlier.push(
                Event::Registration(handle, channel),
            ),
            Step::Item(item) => if is_reading(steps.drop_last()) {
                match inspected(item) {
                    Inbound::Frame(_, data) => earlier.push(Event::Arrival(data@)),
                    Inbound::Ended => earlier.push(Event::End),
                    Inbound::Failed(_) => earlier,
                }
            } else {
                earlier
            },
        }
    }
}

/// The error that transports are told in a run of steps, if any.
pub open spec fn told<C, E>(steps: Seq<Step<C, E>>) -> Option<SerdeReadError<E>>
    decreases steps.len(),
{
    if steps.len() == 0 {
        None
    } else {
        match steps.last() {
            Step::Item(item) if is_reading(steps.drop_last()) => match inspected(item) {
                Inbound::Failed(error) => Some(error),
                _ => None,
            },
            _ => told(steps.drop_last()),
        }
    }
}

/// Whether taking in `item` after the run of steps `steps` from the table `start` on leads to the
/// table `table` and to `todo`: as that run with the item behind it says, for the table, for what
/// transports are told, for whether reading goes on, and for what each context is sent.
pub open spec fn is_next_step<C, E>(
    start: Table<C>,
    steps: Seq<Step<C, E>>,
    item: Option<Result<Vec<u8>, E>>,
    table: Table<C>,
    todo: Todo<E>,
) -> bool {
    let more = steps.push(Step::Item(item));
    &&& table == after_all(start, events(more))
    &&& told(more) == match todo {
        Todo::Tell(error) => Some(error),
        _ => None,
    }
    &&& is_reading(more) <==> todo is Proceed || todo is Send
    &&& forall|handle: u32| #[trigger]
        sent_all(start, events(more), handle) == sent_all(start, events(steps), handle) + (
        match todo {
            Todo::Send(to, data) if to.0 == handle => seq![data@],
            _ => seq![],
        })
}

/// Taking in an item while the stream is read is the next step of the run.
pub proof fn law_item_is_next_step<C, E>(
    start: Table<C>,
    steps: Seq<Step<C, E>>,
    item: Option<Result<Vec<u8>, E>>,
)
    requires
        is_reading(steps),
    ensures
        is_next_step(
            start,
            steps,
            item,
            after_item(after_all(start, events(steps)), item),
            todo_about(after_all(start, events(steps)), item),
        ),
{
    let more = steps.push(Step::Item(item));
    let known = events(steps);
    let table = after_all(start, known);
    let todo = todo_about(table, item);
    assert(more.drop_last() =~= steps);
    if events(more) != known {
        assert(events(more).drop_last() =~= known);
    }
    assert forall|handle: u32| #[trigger]
        sent_all(start, events(more), handle) == sent_all(start, known, handle) + (match todo {
            Todo::Send(to, data) if to.0 == handle => seq![data@],
            _ => seq![],
        }) by {
        assert(sent_all(start, events(more), handle) =~= sent_all(start, known, handle) + (
        match todo {
            Todo::Send(to, data) if to.0 == handle => seq![data@],
            _ => seq![],
        }));
    }
}

/// Registering a context is the next step of the run: the table is that after the registration,
/// the context is sent the frames that waited for it and no other is sent anything, and reading
/// goes on or not as before.
pub proof fn law_registration_is_next_step<C, E>(
    start: Table<C>,
    steps: Seq<Step<C, E>>,
    registered: u32,
    channel: C,
    handle: u32,
)
    ensures
        ({
            let before = after_all(start, events(steps));
            let more = steps.push(Step::Registration(registered, channel));
            &&& after_all(start, events(more)) == after_registration(before, registered, channel)
            &&& told(more) == told(steps)
            &&& is_reading(more) == is_reading(steps)
            &&& sent_all(start, events(more), handle) == sent_all(start, events(steps), handle) + (
            if registered == handle {
                waiting(before, handle)
            } else {
                seq![]
            })
        }),
{
    let more = steps.push(Step::Registration(registered, channel));
    assert(more.drop_last() =~= steps);
    assert(events(more).drop_last() =~= events(steps));
}

/// Takes in what the stream gave next: an item, an error, or its end.
pub fn receive<C, E>(router: &mut Router<C>, item: Option<Result<Vec<u8>, E>>) -> (todo: Todo<E>)
    requires
        old(router).wf(),
    ensures
        final(router).wf(),
        final(router).table() == after_item(old(router).table(), item),
        todo == todo_about(old(router).table(), item),
        forall|start: Table<C>, steps: Seq<Step<C, E>>|
            is_reading(steps) && old(router).table() == #[trigger] after_all(start, events(steps))
                ==> is_next_step(start, steps, item, final(router).table(), todo),
{
    proof {
        assert forall|start: Table<C>, steps: Seq<Step<C, E>>|
            is_reading(steps) && old(router).table() == #[trigger] after_all(
                start,
                events(steps),
            ) implies is_next_step(
            start,
            steps,
            item,
            after_item(old(router).table(), item),
            todo_about(old(router).table(), item),
        ) by {
            law_item_is_next_step(start, steps, item);
        }
    }
    match inspect(item) {
        Inbound::Ended => {
            router.end();
            Todo::Over
        },
        Inbound::Failed(error) => Todo::Tell(error),
        Inbound::Frame(handle, data) => match router.deliver(handle, data) {
            Some(data) => Todo::Send(handle, data),
            None => Todo::Proceed,
        },
    }
}

/// The bytes of an item that is a frame.
pub open spec fn item_bytes<E>(item: Option<Result<Vec<u8>, E>>) -> Seq<u8> {
    match item {
        Some(Ok(data)) => data@,
        _ => seq![],
    }
}

proof fn lemma_push_contains<A>(seq: Seq<A>, last: A)
    ensures
        forall|value: A| #[trigger]
            seq.push(last).contains(value) <==> seq.contains(value) || value == last,
{
    let more = seq.push(last);
    assert forall|value: A| #[trigger] more.contains(value) <==> seq.contains(value) || value
        == last by {
        if seq.contains(value) {
            let at = choose|i: int| 0 <= i < seq.len() && seq[i] == value;
            assert(more[at] == value);
        }
        if value == last {
            assert(more[seq.len() as int] == value);
        }
        if more.contains(value) && value != last {
            let at = choose|i: int| 0 <= i < more.len() && more[i] == value;
            assert(seq[at] == value);
        }
    }
}

/// The stream is read up to its first item that is no frame, whatever is registered meanwhile.
/// Where the first `n` items are frames and the next, if there is one, is not: the frames that
/// reach the router are just those `n`, in order. Where the item behind them is a failure it is
/// what transports are told, and they are told nothing else. The router learns of the end just
/// where that item is the end. Every registration reaches the router.
pub proof fn law_reading_stops_at_first_failure<C, E>(steps: Seq<Step<C, E>>, n: nat)
    requires
        n <= items(steps).len(),
        forall|i: int| 0 <= i < n ==> inspected(#[trigger] items(steps)[i]) is Frame,
        n < items(steps).len() ==> !(inspected(items(steps)[n as int]) is Frame),
    ensures
        arrivals(events(steps)) == items(steps).take(n as int).map_values(
            |item: Option<Result<Vec<u8>, E>>| item_bytes(item),
        ),
        is_reading(steps) <==> n == items(steps).len(),
        told(steps) == if n < items(steps).len() {
            match inspected(items(steps)[n as int]) {
                Inbound::Failed(error) => Some(error),
                _ => None,
            }
        } else {
            None
        },
        events(steps).contains(Event::End) <==> n < items(steps).len() && items(steps)[n as int]
            is None,
        forall|handle: u32, channel: C|
            events(steps).contains(Event::Registration(handle, channel)) <==> #[trigger]
                steps.contains(Step::Registration(handle, channel)),
    decreases steps.len(),
{
    let bytes = |item: Option<Result<Vec<u8>, E>>| item_bytes(item);
    if steps.len() == 0 {
        assert(arrivals(events(steps)) =~= items(steps).take(n as int).map_values(bytes));
    } else {
        let earlier = steps.drop_last();
        let before = items(earlier);
        let count: nat = if n <= before.len() {
            n
        } else {
            before.len()
        };
        assert forall|i: int| 0 <= i < count implies inspected(#[trigger] before[i]) is Frame by {
            assert(items(steps)[i] == before[i]);
        }
        if count < before.len() {
            assert(items(steps)[count as int] == before[count as int]);
        }
        law_reading_stops_at_first_failure(earlier, count);
        let known = events(earlier);
        assert(steps =~= earlier.push(steps.last()));
        lemma_push_contains(earlier, steps.last());
        if events(steps) != known {
            let event = events(steps).last();
            assert(events(steps) == known.push(event));
            assert(known.push(event).drop_last() =~= known);
            lemma_push_contains(known, event);
        }
        let read = before.take(count as int).map_values(bytes);
        assert(arrivals(known) =~= read);
        if n > before.len() {
            let item = items(steps)[before.len() as int];
            assert(arrivals(events(steps)) == read.push(item_bytes(item)));
            assert(items(steps).take(n as int).map_values(bytes) =~= read.push(item_bytes(item)));
        } else {
            assert(arrivals(events(steps)) =~= read);
            assert(items(steps).take(n as int) =~= before.take(count as int));
        }
    }
}

/// Whether no context is registered a second time in a run of steps.
pub open spec fn registers_once<C, E>(table: Table<C>, steps: Seq<Step<C, E>>) -> bool
    decreases steps.len(),
{
    steps.len() == 0 || {
        &&& registers_once(table, steps.drop_last())
        &&& steps.last() matches Step::Registration(handle, _) ==> !is_registered(
            after_all(table, events(steps.drop_last())),
            handle,
        )
    }
}

/// Whatever the stream gives, the router meets only events that may happen: no frame comes after
/// the end of the stream, and no second end. While the stream is read it has not ended.
pub proof fn law_nothing_is_read_after_the_end<C, E>(table: Table<C>, steps: Seq<Step<C, E>>)
    requires
        !table.ended,
        registers_once(table, steps),
    ensures
        all_allowed(table, events(steps)),
        is_reading(steps) ==> !after_all(table, events(steps)).ended,
    decreases steps.len(),
{
    if steps.len() > 0 {
        let known = events(steps.drop_last());
        law_nothing_is_read_after_the_end(table, steps.drop_last());
        if events(steps) != known {
            assert(events(steps).drop_last() =~= known);
        }
    }
}

/// An item of the stream is a frame just where it has four bytes or more, however many. Then it is
/// taken as it came, for the context that its first four bytes spell. A shorter item is
/// insufficient, an error of the stream is that error, and the end is the end.
pub proof fn law_items_are_what_they_hold<E>(
    item: Option<Result<Vec<u8>, E>>,
    inbound: Inbound<E>,
    sifted: Result<Option<Result<Vec<u8>, E>>, SerdeReadError<E>>,
)
    requires
        inspect::<E>.ensures((item,), inbound),
        sift::<E>.ensures((item,), sifted),
    ensures
        inspected(item) == inbound,
        match item {
            None => inbound is Ended && sifted == Ok::<_, SerdeReadError<E>>(item),
            Some(Err(cause)) => inbound == Inbound::<E>::Failed(SerdeReadError::Stream(cause))
                && sifted == Err::<Option<Result<Vec<u8>, E>>, _>(SerdeReadError::Stream(cause)),
            Some(Ok(data)) => if data@.len() >= 4 {
                &&& sifted == Ok::<_, SerdeReadError<E>>(item)
                &&& inbound matches Inbound::Frame(handle, taken)
                &&& taken == data
                &&& handle.0 == data@[0] * 0x100_0000 + data@[1] * 0x1_0000 + data@[2] * 0x100
                    + data@[3]
            } else {
                &&& inbound == Inbound::<E>::Failed(SerdeReadError::Insufficient)
                &&& sifted == Err::<Option<Result<Vec<u8>, E>>, _>(
                    SerdeReadError::<E>::Insufficient,
                )
            },
        },
{
    if let Some(Ok(data)) = item {
        law_frame_parts(data@);
    }
}

/// What taking an item in comes to. A frame of four bytes or more is to be sent to the context
/// that its first four bytes spell where that has a channel, and waits for it where it is not
/// registered; either way reading goes on. A shorter item or an error of the stream is to be told,
/// and the end lets every channel go.
pub proof fn law_items_are_taken_in<C, E>(
    router: &mut Router<C>,
    item: Option<Result<Vec<u8>, E>>,
    todo: Todo<E>,
    other: u32,
)
    requires
        receive::<C, E>.ensures((router, item), todo),
    ensures
        match item {
            None => {
                &&& todo is Over
                &&& final(router).table().ended
                &&& !(final(router).table().slots.contains_key(other)
                    && final(router).table().slots[other] is Open)
            },
            Some(Err(cause)) => {
                &&& todo == Todo::<E>::Tell(SerdeReadError::Stream(cause))
                &&& final(router).table() == old(router).table()
            },
            Some(Ok(data)) => if data@.len() < 4 {
                &&& todo == Todo::<E>::Tell(SerdeReadError::Insufficient)
                &&& final(router).table() == old(router).table()
            } else if other == data@[0] * 0x100_0000 + data@[1] * 0x1_0000 + data@[2] * 0x100
                + data@[3] {
                &&& todo == if old(router).table().slots.contains_key(other)
                    && old(router).table().slots[other] is Open {
                    Todo::<E>::Send(ContextHandle(other), data)
                } else {
                    Todo::Proceed
                }
                &&& final(router).table().ended == old(router).table().ended
                &&& !old(router).table().ended ==> {
                    &&& final(router).table().slots.contains_key(other)
                    &&& final(router).table().slots[other]
                        == if old(router).table().slots.contains_key(other) {
                        match old(router).table().slots[other] {
                            Slot::Waiting(kept) => Slot::Waiting(kept.push(data@)),
                            Slot::Open(channel) => Slot::Open(channel),
                            Slot::Closed => Slot::Closed,
                        }
                    } else {
                        Slot::Waiting(seq![data@])
                    }
                }
            } else {
                &&& final(router).table().slots.contains_key(other)
                    <==> old(router).table().slots.contains_key(other)
                &&& old(router).table().slots.contains_key(other)
                    ==> final(router).table().slots[other] == old(router).table().slots[other]
            },
        },
{
    if let Some(Ok(data)) = item {
        law_frame_parts(data@);
        law_slots_after_arrival(old(router).table(), data@, other);
    }
    law_slots_after_end(old(router).table(), other);
}

/// A frame that is written for a context goes, where it arrives, to the channel that this context
/// was registered with and to no other, and arrives as it was written.
pub proof fn law_written_frame_goes_to_its_context<'a, C, E>(
    handle: ContextHandle,
    payload: Vec<u8>,
    data: Vec<u8>,
    registering: &'a mut Router<C>,
    channel: C,
    registered: Registered<'a, C>,
    router: &mut Router<C>,
    todo: Todo<E>,
    to: ContextHandle,
    found: Option<&C>,
)
    requires
        encode_frame.ensures((handle, payload), data),
        Router::<C>::register.ensures(
            (registering, Registration { handle, channel }),
            Some(registered),
        ),
        registered.outlet is Kept,
        *old(router) == *final(registering),
        receive::<C, E>.ensures((router, Some(Ok(data))), todo),
        Router::<C>::channel.ensures((&*final(router), to), found),
    ensures
        todo == Todo::<E>::Send(handle, data),
        to == handle ==> found == Some(&channel),
{
    law_header_is_big_endian(handle, payload, data);
    law_frame_parts(data@);
    law_slots_after_arrival(old(router).table(), data@, handle.0);
}

/// The frames that were written are read, all of them and in order, whatever they carry and
/// whatever is registered meanwhile: where the stream gives them and nothing else, each reaches
/// the router, no error is told and reading goes on.
pub proof fn law_written_frames_are_read<C, E>(
    steps: Seq<Step<C, E>>,
    handles: Seq<ContextHandle>,
    payloads: Seq<Vec<u8>>,
    written: Seq<Vec<u8>>,
)
    requires
        handles.len() == written.len(),
        payloads.len() == written.len(),
        forall|i: int|
            0 <= i < written.len() ==> encode_frame.ensures(
                (handles[i], payloads[i]),
                #[trigger] written[i],
            ),
        items(steps).len() == written.len(),
        forall|i: int|
            0 <= i < written.len() ==> #[trigger] items(steps)[i] == Some(
                Ok::<Vec<u8>, E>(written[i]),
            ),
    ensures
        is_reading(steps),
        told(steps) is None,
        arrivals(events(steps)).len() == written.len(),
        forall|i: int|
            0 <= i < written.len() ==> #[trigger] arrivals(events(steps))[i] == written[i]@,
        !events(steps).contains(Event::End),
{
    assert forall|i: int| 0 <= i < written.len() implies inspected(
        #[trigger] items(steps)[i],
    ) is Frame by {
        law_header_is_big_endian(handles[i], payloads[i], written[i]);
        law_frame_parts(written[i]@);
    }
    law_reading_stops_at_first_failure(steps, written.len());
    assert(items(steps).take(written.len() as int) =~= items(steps));
}

/// Where the stream gives frames of four bytes or more and then something else, all the frames are
/// read, what is behind the something else is not, and an error is told just where it was one: the
/// stream's own, or that the item was insufficient.
pub proof fn law_stream_is_read_to_its_first_fault<C, E>(steps: Seq<Step<C, E>>, n: int)
    requires
        0 <= n < items(steps).len(),
        forall|i: int|
            0 <= i < n ==> (#[trigger] items(steps)[i] matches Some(Ok(data)) && data@.len() >= 4),
        items(steps)[n] matches Some(Ok(data)) ==> data@.len() < 4,
    ensures
        !is_reading(steps),
        arrivals(events(steps)).len() == n,
        forall|i: int|
            0 <= i < n ==> (#[trigger] items(steps)[i] matches Some(Ok(data)) && arrivals(
                events(steps),
            )[i] == data@),
        match items(steps)[n] {
            None => told(steps) is None && events(steps).contains(Event::End),
            Some(Err(cause)) => told(steps) == Some(SerdeReadError::Stream(cause))
                && !events(steps).contains(Event::End),
            Some(Ok(_)) => told(steps) == Some(SerdeReadError::<E>::Insufficient)
                && !events(steps).contains(Event::End),
        },
{
    assert forall|i: int| 0 <= i < n implies inspected(#[trigger] items(steps)[i]) is Frame by {
        if let Some(Ok(data)) = items(steps)[i] {
            law_frame_parts(data@);
        }
    }
    if let Some(Ok(data)) = items(steps)[n] {
        law_frame_parts(data@);
    }
    law_reading_stops_at_first_failure(steps, n as nat);
    assert forall|i: int| 0 <= i < n implies (#[trigger] items(steps)[i] matches Some(
        Ok(data),
    ) && arrivals(events(steps))[i] == data@) by {
        assert(items(steps).take(n)[i] == items(steps)[i]);
    }
}

/// What the stream gives in a run is what its steps hold, in order.
pub proof fn law_items_come_step_by_step<C, E>(
    steps: Seq<Step<C, E>>,
    item: Option<Result<Vec<u8>, E>>,
    handle: u32,
    channel: C,
)
    ensures
        items(Seq::<Step<C, E>>::empty()).len() == 0,
        items(steps.push(Step::Item(item))) == items(steps).push(item),
        items(steps.push(Step::Registration(handle, channel))) == items(steps),
{
    assert(steps.push(Step::Item(item)).drop_last() =~= steps);
    assert(steps.push(Step::<C, E>::Registration(handle, channel)).drop_last() =~= steps);
}

/// How far the stream is read, step by step. It is read on just where it was read so far and the
/// item is a frame of four bytes or more. What is told is told by the item that reading stops at.
pub proof fn law_reading_goes_step_by_step<C, E>(
    steps: Seq<Step<C, E>>,
    item: Option<Result<Vec<u8>, E>>,
    handle: u32,
    channel: C,
)
    ensures
        is_reading(Seq::<Step<C, E>>::empty()),
        told(Seq::<Step<C, E>>::empty()) is None,
        events(Seq::<Step<C, E>>::empty()).len() == 0,
        is_reading(steps.push(Step::Registration(handle, channel))) == is_reading(steps),
        told(steps.push(Step::Registration(handle, channel))) == told(steps),
        events(steps.push(Step::Registration(handle, channel))) == events(steps).push(
            Event::Registration(handle, channel),
        ),
        !is_reading(steps) ==> {
            &&& !is_reading(steps.push(Step::Item(item)))
            &&& told(steps.push(Step::Item(item))) == told(steps)
            &&& events(steps.push(Step::Item(item))) == events(steps)
        },
        is_reading(steps) ==> match item {
            None => {
                &&& !is_reading(steps.push(Step::Item(item)))
                &&& told(steps.push(Step::Item(item))) is None
                &&& events(steps.push(Step::Item(item))) == events(steps).push(Event::End)
            },
            Some(Err(cause)) => {
                &&& !is_reading(steps.push(Step::Item(item)))
                &&& told(steps.push(Step::Item(item))) == Some(SerdeReadError::Stream(cause))
                &&& events(steps.push(Step::Item(item))) == events(steps)
            },
            Some(Ok(data)) => if data@.len() >= 4 {
                &&& is_reading(steps.push(Step::Item(item)))
                &&& told(steps.push(Step::Item(item))) is None
                &&& events(steps.push(Step::Item(item))) == events(steps).push(
                    Event::Arrival(data@),
                )
            } else {
                &&& !is_reading(steps.push(Step::Item(item)))
                &&& told(steps.push(Step::Item(item))) == Some(SerdeReadError::<E>::Insufficient)
                &&& events(steps.push(Step::Item(item))) == events(steps)
            },
        },
{
    assert(steps.push(Step::Item(item)).drop_last() =~= steps);
    assert(steps.push(Step::<C, E>::Registration(handle, channel)).drop_last() =~= steps);
    if let Some(Ok(data)) = item {
        law_frame_parts(data@);
    }
}

/// Whatever the stream gives can be looked at and taken in, and leaves the router fit for use.
pub proof fn law_every_item_can_be_taken_in<C, E>(item: Option<Result<Vec<u8>, E>>)
    ensures
        inspect::<E>.requires((item,)),
        sift::<E>.requires((item,)),
        forall|router: &mut Router<C>|
            router.wf() ==> #[trigger] receive::<C, E>.requires((router, item)),
        forall|router: &mut Router<C>, todo: Todo<E>| #[trigger]
            receive::<C, E>.ensures((router, item), todo) ==> final(router).wf(),
{
}

} // verus!
