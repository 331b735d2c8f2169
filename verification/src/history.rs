//! What becomes of the frames of a connection over any run of arrivals and registrations, to the
//! end of the stream and behind it.
use vstd::prelude::*;
use crate::context::{is_fork, is_join, Forked, Joined};
use crate::frame::{
    frame, frame_handle, frame_payload, law_frame_parts, law_frame_roundtrip, HEADER_LEN,
};
use crate::handle::{
    handles_per_side, law_handles_are_distinct, law_sides_are_disjoint, nth_handle, ContextHandle,
    FIRST_COALESCE_HANDLE, FIRST_UNRAVEL_HANDLE, ROOT_HANDLE,
};
use crate::router::{
    after_arrival, after_end, after_registration, initial_table, is_open, is_registered, table_wf,
    waiting, Registered, Registration, Router, Slot, Table,
};
use crate::transport::Transport;

verus! {

/// Something that happens at a router.
pub enum Event<C> {
    /// The stream gives a frame.
    Arrival(Seq<u8>),
    /// A channel is registered for a context.
    Registration(u32, C),
    /// The stream ends.
    End,
}

/// The table after one event.
pub open spec fn after<C>(table: Table<C>, event: Event<C>) -> Table<C> {
    match event {
        Event::Arrival(data) => after_arrival(table, data),
        Event::Registration(handle, channel) => after_registration(table, handle, channel),
        Event::End => after_end(table),
    }
}

/// The frames that one event sends on the channel of `handle`: the frame that arrives, where
/// the context is open; the frames that waited, where it is registered now.
pub open spec fn sent<C>(table: Table<C>, event: Event<C>, handle: u32) -> Seq<Seq<u8>> {
    match event {
        Event::Arrival(data) => if frame_handle(data) == Some(handle) && is_open(table, handle) {
            seq![data]
        } else {
            seq![]
        },
        Event::Registration(registered, _) => if registered == handle {
            waiting(table, handle)
        } else {
            seq![]
        },
        Event::End => seq![],
    }
}

/// Whether the event may happen: a context is registered once only, and the stream gives nothing
/// after its end.
pub open spec fn allowed<C>(table: Table<C>, event: Event<C>) -> bool {
    match event {
        Event::Arrival(_) => !table.ended,
        Event::Registration(handle, _) => !is_registered(table, handle),
        Event::End => !table.ended,
    }
}

/// The table after a run of events.
pub open spec fn after_all<C>(table: Table<C>, events: Seq<Event<C>>) -> Table<C>
    decreases events.len(),
{
    if events.len() == 0 {
        table
    } else {
        after(after_all(table, events.drop_last()), events.last())
    }
}

/// The frames that a run of events sends on the channel of `handle`, in order.
pub open spec fn sent_all<C>(
    table: Table<C>,
    events: Seq<Event<C>>,
    handle: u32,
) -> Seq<Seq<u8>>
    decreases events.len(),
{
    if events.len() == 0 {
        seq![]
    } else {
        sent_all(table, events.drop_last(), handle) + sent(
            after_all(table, events.drop_last()),
            events.last(),
            handle,
        )
    }
}

/// Whether every event of a run may happen when it does.
pub open spec fn all_allowed<C>(table: Table<C>, events: Seq<Event<C>>) -> bool
    decreases events.len(),
{
    events.len() == 0 || {
        &&& all_allowed(table, events.drop_last())
        &&& allowed(after_all(table, events.drop_last()), events.last())
    }
}

/// The frames that arrive in a run of events, in order.
pub open spec fn arrivals<C>(events: Seq<Event<C>>) -> Seq<Seq<u8>>
    decreases events.len(),
{
    if events.len() == 0 {
        seq![]
    } else {
        match events.last() {
            Event::Arrival(data) => arrivals(events.drop_last()).push(data),
            _ => arrivals(events.drop_last()),
        }
    }
}

/// The frames among `data` that name the context `handle`, in order.
pub open spec fn naming(data: Seq<Seq<u8>>, handle: u32) -> Seq<Seq<u8>> {
    data.filter(|frame: Seq<u8>| frame_handle(frame) == Some(handle))
}

/// The frames for `handle` among those that arrive in a run of events, in order.
pub open spec fn arrived<C>(events: Seq<Event<C>>, handle: u32) -> Seq<Seq<u8>> {
    naming(arrivals(events), handle)
}

proof fn lemma_naming_push(data: Seq<Seq<u8>>, last: Seq<u8>, handle: u32)
    ensures
        naming(data.push(last), handle) == if frame_handle(last) == Some(handle) {
            naming(data, handle).push(last)
        } else {
            naming(data, handle)
        },
{
    reveal(Seq::filter);
    assert(data.push(last).drop_last() =~= data);
}

/// No frame is lost, doubled, reordered or sent to another context: the frames that were sent
/// to a context, followed by those that still wait for it, are those that waited at the start,
/// followed by those that arrived, whenever in between the context was registered.
pub proof fn law_frames_are_conserved<C>(
    table: Table<C>,
    events: Seq<Event<C>>,
    handle: u32,
)
    requires
        table_wf(table),
        all_allowed(table, events),
    ensures
        sent_all(table, events, handle) + waiting(after_all(table, events), handle) == waiting(
            table,
            handle,
        ) + arrived(events, handle),
    decreases events.len(),
{
    reveal(Seq::filter);
    if events.len() == 0 {
        assert(sent_all(table, events, handle) + waiting(table, handle) =~= waiting(table, handle)
            + arrived(events, handle));
    } else {
        let earlier = events.drop_last();
        let before = after_all(table, earlier);
        law_frames_are_conserved(table, earlier, handle);
        law_table_stays_wf(table, earlier);
        let sent_before = sent_all(table, earlier, handle);
        let total = waiting(table, handle) + arrived(earlier, handle);
        assert(sent_before + waiting(before, handle) == total);
        match events.last() {
            Event::Arrival(data) => {
                lemma_naming_push(arrivals(earlier), data, handle);
                if frame_handle(data) == Some(handle) {
                    assert(sent_all(table, events, handle) + waiting(
                        after_all(table, events),
                        handle,
                    ) =~= total.push(data));
                    assert(waiting(table, handle) + arrived(events, handle) =~= total.push(data));
                } else {
                    assert(sent_all(table, events, handle) =~= sent_before);
                    assert(waiting(after_all(table, events), handle) =~= waiting(before, handle));
                }
            },
            Event::Registration(registered, _) => {
                assert(sent_all(table, events, handle) + waiting(
                    after_all(table, events),
                    handle,
                ) =~= sent_before + waiting(before, handle));
            },
            Event::End => {
                assert(sent_all(table, events, handle) =~= sent_before);
            },
        }
    }
}

/// A context that is registered stays registered.
pub proof fn law_registered_stays_registered<C>(
    table: Table<C>,
    events: Seq<Event<C>>,
    handle: u32,
)
    requires
        is_registered(table, handle),
    ensures
        is_registered(after_all(table, events), handle),
    decreases events.len(),
{
    if events.len() > 0 {
        law_registered_stays_registered(table, events.drop_last(), handle);
    }
}

/// The stream has ended just where its end has come, and then for good.
pub proof fn law_end_is_final<C>(table: Table<C>, events: Seq<Event<C>>)
    ensures
        after_all(table, events).ended <==> table.ended || events.contains(Event::End),
    decreases events.len(),
{
    if events.len() > 0 {
        let earlier = events.drop_last();
        law_end_is_final(table, earlier);
        if earlier.contains(Event::End) {
            let at = choose|i: int| 0 <= i < earlier.len() && earlier[i] == Event::<C>::End;
            assert(events[at] == Event::<C>::End);
        }
        if events.contains(Event::End) && !(events.last() is End) {
            let at = choose|i: int| 0 <= i < events.len() && events[i] == Event::<C>::End;
            assert(earlier[at] == Event::<C>::End);
        }
        if events.last() is End {
            assert(events[events.len() - 1] == Event::<C>::End);
        }
    }
}

/// A context has a channel from when it is registered until the stream ends. From the end on none
/// has, not even one that is registered later.
pub proof fn law_open_until_the_end<C>(table: Table<C>, events: Seq<Event<C>>, handle: u32)
    requires
        table_wf(table),
        !table.ended,
    ensures
        is_open(after_all(table, events), handle) <==> is_registered(
            after_all(table, events),
            handle,
        ) && !events.contains(Event::End),
{
    law_table_stays_wf(table, events);
    law_end_is_final(table, events);
    let after = after_all(table, events);
    assert(is_open(after, handle) ==> is_registered(after, handle));
}

/// Nothing is sent to a context before it is registered.
pub proof fn law_nothing_sent_before_registration<C>(
    table: Table<C>,
    events: Seq<Event<C>>,
    handle: u32,
)
    requires
        !is_registered(after_all(table, events), handle),
    ensures
        sent_all(table, events, handle) == Seq::<Seq<u8>>::empty(),
    decreases events.len(),
{
    if events.len() > 0 {
        law_nothing_sent_before_registration(table, events.drop_last(), handle);
        assert(sent_all(table, events, handle) =~= seq![]);
    }
}

/// Once a context is registered, everything that waited for it or arrived for it has been sent
/// to it.
pub proof fn law_registered_context_has_all<C>(
    table: Table<C>,
    events: Seq<Event<C>>,
    handle: u32,
)
    requires
        table_wf(table),
        all_allowed(table, events),
        is_registered(after_all(table, events), handle),
    ensures
        sent_all(table, events, handle) == waiting(table, handle) + arrived(events, handle),
{
    law_frames_are_conserved(table, events, handle);
    assert(sent_all(table, events, handle) + waiting(after_all(table, events), handle)
        =~= sent_all(table, events, handle));
}

/// Every frame that is sent to a context names that context, so it is long enough to be taken
/// apart there.
pub proof fn law_sent_frames_name_their_context<C>(
    table: Table<C>,
    events: Seq<Event<C>>,
    handle: u32,
    i: int,
)
    requires
        table_wf(table),
        0 <= i < sent_all(table, events, handle).len(),
    ensures
        frame_handle(sent_all(table, events, handle)[i]) == Some(handle),
        sent_all(table, events, handle)[i].len() >= HEADER_LEN,
    decreases events.len(),
{
    if events.len() > 0 {
        let earlier = events.drop_last();
        let before = sent_all(table, earlier, handle);
        if i < before.len() {
            law_sent_frames_name_their_context(table, earlier, handle, i);
        } else {
            law_table_stays_wf(table, earlier);
            let now = sent(after_all(table, earlier), events.last(), handle);
            assert(sent_all(table, events, handle)[i] == now[i - before.len()]);
        }
    }
}

/// Whatever happens, every frame that waits for a context names that context.
pub proof fn law_table_stays_wf<C>(table: Table<C>, events: Seq<Event<C>>)
    requires
        table_wf(table),
    ensures
        table_wf(after_all(table, events)),
    decreases events.len(),
{
    if events.len() > 0 {
        let earlier = events.drop_last();
        let before = after_all(table, earlier);
        law_table_stays_wf(table, earlier);
        match events.last() {
            Event::Arrival(data) => {
                crate::router::lemma_arrival_keeps_wf(before, data);
            },
            Event::Registration(handle, channel) => {
                crate::router::lemma_registration_keeps_wf(before, handle, channel);
            },
            Event::End => {
                crate::router::lemma_end_keeps_wf(before);
            },
        }
    }
}

/// What one side writes to a context the other side reads there: where the frames that arrive
/// for a context are those of a run of payloads, its channel gets frames that carry just these
/// payloads, in the order in which they were written.
pub proof fn law_payloads_come_through<C>(
    table: Table<C>,
    events: Seq<Event<C>>,
    handle: u32,
    payloads: Seq<Seq<u8>>,
)
    requires
        table_wf(table),
        all_allowed(table, events),
        waiting(table, handle) == Seq::<Seq<u8>>::empty(),
        arrived(events, handle) == payloads.map_values(|payload: Seq<u8>| frame(handle, payload)),
        is_registered(after_all(table, events), handle),
    ensures
        sent_all(table, events, handle).map_values(|data: Seq<u8>| frame_payload(data))
            == payloads,
{
    law_registered_context_has_all(table, events, handle);
    let out = sent_all(table, events, handle);
    assert(out =~= payloads.map_values(|payload: Seq<u8>| frame(handle, payload)));
    assert forall|i: int| 0 <= i < payloads.len() implies #[trigger] frame_payload(out[i])
        == payloads[i] by {
        law_frame_roundtrip(handle, payloads[i]);
    }
    assert(out.map_values(|data: Seq<u8>| frame_payload(data)) =~= payloads);
}

/// The router hands a frame back just where its arrival sends it to its context.
pub proof fn law_router_follows_events<C>(table: Table<C>, data: Seq<u8>, handle: u32)
    requires
        frame_handle(data) == Some(handle),
    ensures
        is_open(table, handle) <==> sent(table, Event::Arrival(data), handle) == seq![data],
        !is_open(table, handle) <==> sent(table, Event::Arrival(data), handle) == Seq::<
            Seq<u8>,
        >::empty(),
{
    assert(seq![data].len() == 1);
}

/// A connection starts with the root context registered, and with nothing that waits.
pub proof fn law_connection_starts_empty<C>(root: C, handle: u32)
    ensures
        table_wf(initial_table(root)),
        !initial_table(root).ended,
        is_open(initial_table(root), handle) <==> handle == ROOT_HANDLE,
        is_registered(initial_table(root), handle) <==> handle == ROOT_HANDLE,
        waiting(initial_table(root), handle) == Seq::<Seq<u8>>::empty(),
{
}

/// A context whose registration is among a run of events is registered after it.
pub proof fn law_registration_registers<C>(
    table: Table<C>,
    events: Seq<Event<C>>,
    handle: u32,
    channel: C,
)
    requires
        events.contains(Event::Registration(handle, channel)),
    ensures
        is_registered(after_all(table, events), handle),
    decreases events.len(),
{
    let at = choose|i: int|
        0 <= i < events.len() && events[i] == Event::Registration(handle, channel);
    if at < events.len() - 1 {
        assert(events.drop_last()[at] == events[at]);
        law_registration_registers(table, events.drop_last(), handle, channel);
    }
}

/// What is written to a context that one side opened and the other side joined comes out where
/// it was joined: from a fresh connection on, through any run of events at the joining side in
/// which the joined context is registered, its channel gets just the payloads that the transport
/// of the opening side wrote, in order.
pub proof fn law_forked_context_carries_payloads<S: Clone, R, L: Clone, C>(
    near: Transport<S, R, L>,
    far: Transport<S, R, L>,
    handle: u32,
    near_channel: (C, R),
    far_channel: (C, R),
    forked: Forked<S, R, L, C>,
    joined: Joined<S, R, L, C>,
    root: C,
    events: Seq<Event<C>>,
    payloads: Seq<Seq<u8>>,
)
    requires
        is_fork(near, handle, near_channel, forked),
        is_join(far, forked.handle, far_channel, joined),
        all_allowed(initial_table(root), events),
        events.contains(
            Event::Registration(joined.registration.handle.0, joined.registration.channel),
        ),
        arrived(events, handle) == payloads.map_values(
            |payload: Seq<u8>| frame(forked.transport.id.0, payload),
        ),
    ensures
        sent_all(initial_table(root), events, joined.transport.id.0).map_values(
            |data: Seq<u8>| frame_payload(data),
        ) == payloads,
{
    let table = initial_table(root);
    law_registration_registers(table, events, handle, joined.registration.channel);
    law_connection_starts_empty(root, handle);
    assert(arrived(events, handle) =~= payloads.map_values(
        |payload: Seq<u8>| frame(handle, payload),
    ));
    law_payloads_come_through(table, events, handle, payloads);
}

/// Whether every registered context is the root context, one of the first `n` that this side
/// opened, or one of those that the other side opened and this side joined, by their numbers
/// there.
pub open spec fn registered_so_far<C>(
    table: Table<C>,
    own_first: u32,
    other_first: u32,
    n: nat,
    joined: Set<nat>,
) -> bool {
    forall|handle: u32| #[trigger]
        is_registered(table, handle) ==> {
            ||| handle == ROOT_HANDLE
            ||| exists|m: nat| m < n && handle == #[trigger] nth_handle(own_first, m)
            ||| exists|m: nat| joined.contains(m) && handle == #[trigger] nth_handle(other_first, m)
        }
}

/// Whether a side that starts at `first` gives out its `n`th handle as a new one: not for the
/// second time, and not that of the root context.
pub open spec fn is_new_handle(first: u32, n: nat) -> bool {
    n < handles_per_side() && nth_handle(first, n) != ROOT_HANDLE
}

/// No context is registered twice: as long as handles are new, the one that a side gives out next
/// is not registered there yet, nor is one that it has not joined yet.
pub proof fn law_contexts_are_registered_once<C>(
    table: Table<C>,
    own_first: u32,
    other_first: u32,
    n: nat,
    joined: Set<nat>,
    next: nat,
)
    requires
        (own_first == FIRST_COALESCE_HANDLE && other_first == FIRST_UNRAVEL_HANDLE) || (own_first
            == FIRST_UNRAVEL_HANDLE && other_first == FIRST_COALESCE_HANDLE),
        registered_so_far(table, own_first, other_first, n, joined),
        forall|m: nat| joined.contains(m) ==> m < handles_per_side(),
    ensures
        is_new_handle(own_first, n) ==> !is_registered(table, nth_handle(own_first, n)),
        is_new_handle(other_first, next) && !joined.contains(next) ==> !is_registered(
            table,
            nth_handle(other_first, next),
        ),
{
    assert forall|m: nat, k: nat| #[trigger] nth_handle(own_first, m) != #[trigger] nth_handle(
        other_first,
        k,
    ) by {
        law_sides_are_disjoint(m, k);
        law_sides_are_disjoint(k, m);
    }
    if is_new_handle(own_first, n) {
        assert forall|m: nat| m < n implies #[trigger] nth_handle(own_first, m) != nth_handle(
            own_first,
            n,
        ) by {
            law_handles_are_distinct(own_first, m, n);
        }
    }
    if is_new_handle(other_first, next) && !joined.contains(next) {
        assert forall|m: nat| joined.contains(m) implies #[trigger] nth_handle(other_first, m)
            != nth_handle(other_first, next) by {
            if m < next {
                law_handles_are_distinct(other_first, m, next);
            } else {
                law_handles_are_distinct(other_first, next, m);
            }
        }
    }
}

/// Which contexts are registered stays accounted for: from a fresh connection on, through the
/// contexts that a side opens in turn, those that it joins, the frames that arrive, and the end of
/// the stream.
pub proof fn law_registered_contexts_are_accounted_for<C>(
    table: Table<C>,
    own_first: u32,
    other_first: u32,
    n: nat,
    joined: Set<nat>,
    next: nat,
    channel: C,
    data: Seq<u8>,
)
    ensures
        registered_so_far(initial_table(channel), own_first, other_first, 0, Set::empty()),
        registered_so_far(table, own_first, other_first, n, joined) ==> {
            &&& registered_so_far(
                after_registration(table, nth_handle(own_first, n), channel),
                own_first,
                other_first,
                n + 1,
                joined,
            )
            &&& registered_so_far(
                after_registration(table, nth_handle(other_first, next), channel),
                own_first,
                other_first,
                n,
                joined.insert(next),
            )
            &&& registered_so_far(after_arrival(table, data), own_first, other_first, n, joined)
            &&& registered_so_far(after_end(table), own_first, other_first, n, joined)
        },
{
    if registered_so_far(table, own_first, other_first, n, joined) {
        let forked = after_registration(table, nth_handle(own_first, n), channel);
        assert forall|handle: u32| #[trigger] is_registered(forked, handle) implies {
            ||| handle == ROOT_HANDLE
            ||| exists|m: nat| m < n + 1 && handle == #[trigger] nth_handle(own_first, m)
            ||| exists|m: nat| joined.contains(m) && handle == #[trigger] nth_handle(other_first, m)
        } by {
            if handle != nth_handle(own_first, n) {
                assert(is_registered(table, handle));
            }
        }
        let met = after_registration(table, nth_handle(other_first, next), channel);
        let more = joined.insert(next);
        assert forall|handle: u32| #[trigger] is_registered(met, handle) implies {
            ||| handle == ROOT_HANDLE
            ||| exists|m: nat| m < n && handle == #[trigger] nth_handle(own_first, m)
            ||| exists|m: nat| more.contains(m) && handle == #[trigger] nth_handle(other_first, m)
        } by {
            if handle == nth_handle(other_first, next) {
                assert(more.contains(next));
            } else {
                assert(is_registered(table, handle));
                assert(forall|m: nat| joined.contains(m) ==> more.contains(m));
            }
        }
        let fed = after_arrival(table, data);
        assert forall|handle: u32| #[trigger] is_registered(fed, handle) implies is_registered(
            table,
            handle,
        ) by {}
        let over = after_end(table);
        assert forall|handle: u32| #[trigger] is_registered(over, handle) implies is_registered(
            table,
            handle,
        ) by {}
    }
}

/// What a router does is what the events say: taking a frame in is its arrival, registering a
/// context is its registration, and the end is the end.
pub proof fn law_router_makes_events<'a, C>(
    delivering: &mut Router<C>,
    handle: ContextHandle,
    data: Vec<u8>,
    forward: Option<Vec<u8>>,
    registering: &'a mut Router<C>,
    registration: Registration<C>,
    registered: Registered<'a, C>,
    ending: &mut Router<C>,
)
    requires
        Router::<C>::deliver.ensures((delivering, handle, data), forward),
        Router::<C>::register.ensures((registering, registration), Some(registered)),
        Router::<C>::end.ensures((ending,), ()),
    ensures
        final(delivering).table() == after(old(delivering).table(), Event::Arrival(data@)),
        final(registering).table() == after(
            old(registering).table(),
            Event::Registration(registration.handle.0, registration.channel),
        ),
        final(ending).table() == after(old(ending).table(), Event::End),
{
}

/// A run is its events one after the other.
pub proof fn law_runs_go_event_by_event<C>(
    table: Table<C>,
    events: Seq<Event<C>>,
    event: Event<C>,
    handle: u32,
)
    ensures
        after_all(table, Seq::<Event<C>>::empty()) == table,
        after_all(table, events.push(event)) == after(after_all(table, events), event),
        sent_all(table, Seq::<Event<C>>::empty(), handle).len() == 0,
        sent_all(table, events.push(event), handle) == sent_all(table, events, handle) + sent(
            after_all(table, events),
            event,
            handle,
        ),
        all_allowed(table, Seq::<Event<C>>::empty()),
        all_allowed(table, events.push(event)) <==> all_allowed(table, events) && allowed(
            after_all(table, events),
            event,
        ),
        arrivals(Seq::<Event<C>>::empty()).len() == 0,
        arrivals(events.push(event)) == match event {
            Event::Arrival(data) => arrivals(events).push(data),
            _ => arrivals(events),
        },
{
    assert(events.push(event).drop_last() =~= events);
}

/// What an event does, slot by slot, and what it sends.
pub proof fn law_event_slot_by_slot<C>(
    table: Table<C>,
    data: Seq<u8>,
    registered: u32,
    channel: C,
    handle: u32,
)
    ensures
        after(table, Event::Arrival(data)) == after_arrival(table, data),
        after(table, Event::Registration(registered, channel)) == after_registration(
            table,
            registered,
            channel,
        ),
        after(table, Event::<C>::End) == after_end(table),
        sent(table, Event::Arrival(data), handle) == (if data.len() >= 4 && handle == data[0]
            * 0x100_0000 + data[1] * 0x1_0000 + data[2] * 0x100 + data[3]
            && table.slots.contains_key(handle) && table.slots[handle] is Open {
            seq![data]
        } else {
            seq![]
        }),
        registered != handle ==> sent(
            table,
            Event::Registration(registered, channel),
            handle,
        ).len() == 0,
        sent(table, Event::Registration(handle, channel), handle) == (
        if table.slots.contains_key(handle) {
            match table.slots[handle] {
                Slot::Waiting(kept) => kept,
                _ => seq![],
            }
        } else {
            seq![]
        }),
        sent(table, Event::<C>::End, handle).len() == 0,
        allowed(table, Event::Arrival(data)) <==> !table.ended,
        allowed(table, Event::Registration(registered, channel)) <==> !(
        table.slots.contains_key(registered) && !(table.slots[registered] is Waiting)),
        allowed(table, Event::<C>::End) <==> !table.ended,
{
    law_frame_parts(data);
}

/// Until the stream ends, the frames of a context go to the very channel that it was registered
/// with, whatever arrives and whatever other contexts are registered, before or after.
pub proof fn law_context_keeps_its_channel<C>(
    table: Table<C>,
    events: Seq<Event<C>>,
    at: int,
    handle: u32,
    channel: C,
)
    requires
        !table.ended,
        all_allowed(table, events),
        forall|i: int| 0 <= i < events.len() ==> !(#[trigger] events[i] is End),
        0 <= at < events.len(),
        events[at] == Event::Registration(handle, channel),
    ensures
        after_all(table, events).slots.contains_key(handle),
        after_all(table, events).slots[handle] == Slot::Open(channel),
    decreases events.len(),
{
    let earlier = events.drop_last();
    assert forall|i: int| 0 <= i < earlier.len() implies !(#[trigger] earlier[i] is End) by {
        assert(earlier[i] == events[i]);
    }
    assert(!(events[events.len() - 1] is End));
    lemma_not_ended(table, earlier);
    if at < events.len() - 1 {
        assert(earlier[at] == events[at]);
        law_context_keeps_its_channel(table, earlier, at, handle, channel);
    }
}

/// Until the stream ends, the frames of the root context go to the channel that the connection
/// was made with, and those of a context that had a channel go on going there.
pub proof fn law_open_context_keeps_its_channel<C>(
    table: Table<C>,
    events: Seq<Event<C>>,
    handle: u32,
    channel: C,
)
    requires
        !table.ended,
        all_allowed(table, events),
        forall|i: int| 0 <= i < events.len() ==> !(#[trigger] events[i] is End),
        table.slots.contains_key(handle) && table.slots[handle] == Slot::Open(channel),
    ensures
        after_all(table, events).slots.contains_key(handle),
        after_all(table, events).slots[handle] == Slot::Open(channel),
        initial_table(channel).slots.contains_key(0),
        initial_table(channel).slots[0] == Slot::Open(channel),
        !initial_table(channel).ended,
    decreases events.len(),
{
    if events.len() > 0 {
        let earlier = events.drop_last();
        assert forall|i: int| 0 <= i < earlier.len() implies !(#[trigger] earlier[i] is End) by {
            assert(earlier[i] == events[i]);
        }
        assert(!(events[events.len() - 1] is End));
        law_open_context_keeps_its_channel(table, earlier, handle, channel);
    }
}

proof fn lemma_not_ended<C>(table: Table<C>, events: Seq<Event<C>>)
    requires
        !table.ended,
        forall|i: int| 0 <= i < events.len() ==> !(#[trigger] events[i] is End),
    ensures
        !after_all(table, events).ended,
    decreases events.len(),
{
    law_end_is_final(table, events);
    if events.contains(Event::End) {
        let at = choose|i: int| 0 <= i < events.len() && events[i] == Event::<C>::End;
        assert(events[at] is End);
    }
}

/// The frames for a context are gathered one by one: those of four bytes or more whose first four
/// bytes spell its handle.
pub proof fn law_frames_are_named_one_by_one(data: Seq<Seq<u8>>, last: Seq<u8>, handle: u32)
    ensures
        naming(Seq::<Seq<u8>>::empty(), handle).len() == 0,
        naming(data.push(last), handle) == if last.len() >= 4 && handle == last[0] * 0x100_0000
            + last[1] * 0x1_0000 + last[2] * 0x100 + last[3] {
            naming(data, handle).push(last)
        } else {
            naming(data, handle)
        },
{
    reveal(Seq::filter);
    law_frame_parts(last);
    lemma_naming_push(data, last, handle);
}

} // verus!
