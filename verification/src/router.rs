//! Where the frames that arrive on a connection go.
use std::collections::HashMap;
use vstd::pervasive::unreached;
use vstd::prelude::*;
use crate::frame::{frame_handle, law_frame_parts};
use crate::handle::{ContextHandle, ROOT_HANDLE};

verus! {

broadcast use vstd::std_specs::hash::group_hash_axioms;

/// What is kept for one context: the items that came in before it was registered here, or the
/// channel that its items go to since.
pub enum Storage<T, C> {
    /// Not registered yet; the items wait in the order in which they came.
    Temporary(Vec<T>),
    /// Registered; items go to the channel.
    Channel(C),
}

impl<T, C> Storage<T, C> {
    /// Takes an item in. It is kept while there is no channel; else it is handed back, to be
    /// sent on the channel.
    pub fn send(&mut self, item: T) -> (forward: Option<T>)
        ensures
            match *old(self) {
                Storage::Temporary(data) => {
                    &&& forward is None
                    &&& *final(self) matches Storage::Temporary(kept)
                    &&& kept@ == data@.push(item)
                },
                Storage::Channel(_) => forward == Some(item) && *final(self) == *old(self),
            },
    {
        match self {
            Storage::Temporary(data) => {
                data.push(item);
                None
            },
            Storage::Channel(_) => Some(item),
        }
    }

    /// Sets the channel and hands back the items that were kept, which are to be sent on the
    /// channel in their order before any other.
    pub fn upgrade(&mut self, channel: C) -> (kept: Vec<T>)
        requires
            *old(self) is Temporary,
        ensures
            *old(self) matches Storage::Temporary(data) && kept@ == data@,
            *final(self) == Storage::<T, C>::Channel(channel),
    {
        let mut kept: Vec<T> = Vec::new();
        match self {
            Storage::Temporary(data) => {
                kept.append(data);
            },
            Storage::Channel(_) => {},
        }
        *self = Storage::Channel(channel);
        kept
    }
}

/// What is kept for one context, as a value.
pub enum Slot<C> {
    /// The frames that wait, first come first.
    Waiting(Seq<Seq<u8>>),
    /// The channel that frames go to.
    Open(C),
    /// The context is registered, and its channel was let go when the stream ended.
    Closed,
}

/// What a router knows: what is kept for each context, and whether the stream has ended.
pub struct Table<C> {
    /// What is kept for each context.
    pub slots: Map<u32, Slot<C>>,
    /// Whether the stream has ended.
    pub ended: bool,
}

/// The frames in a vector, as sequences of bytes.
pub open spec fn frames(data: Seq<Vec<u8>>) -> Seq<Seq<u8>> {
    Seq::new(data.len(), |i: int| data[i]@)
}

impl<C> Storage<Vec<u8>, Option<C>> {
    /// The storage as a value.
    pub open spec fn slot(self) -> Slot<C> {
        match self {
            Storage::Temporary(data) => Slot::Waiting(frames(data@)),
            Storage::Channel(Some(channel)) => Slot::Open(channel),
            Storage::Channel(None) => Slot::Closed,
        }
    }
}

/// What a connection starts with: the root context is registered, no other is known.
pub open spec fn initial_table<C>(root: C) -> Table<C> {
    Table {
        slots: Map::<u32, Slot<C>>::empty().insert(ROOT_HANDLE, Slot::Open(root)),
        ended: false,
    }
}

/// Whether `handle` has been registered.
pub open spec fn is_registered<C>(table: Table<C>, handle: u32) -> bool {
    table.slots.contains_key(handle) && !(table.slots[handle] is Waiting)
}

/// Whether frames for `handle` go to a channel.
pub open spec fn is_open<C>(table: Table<C>, handle: u32) -> bool {
    table.slots.contains_key(handle) && table.slots[handle] is Open
}

/// The frames that wait for `handle`.
pub open spec fn waiting<C>(table: Table<C>, handle: u32) -> Seq<Seq<u8>> {
    if table.slots.contains_key(handle) {
        match table.slots[handle] {
            Slot::Waiting(kept) => kept,
            _ => seq![],
        }
    } else {
        seq![]
    }
}

/// The table after the frame `data` has arrived. It waits where its context is not registered.
/// Nothing changes where the context is, nor where the frame names none or the stream has ended.
pub open spec fn after_arrival<C>(table: Table<C>, data: Seq<u8>) -> Table<C> {
    match frame_handle(data) {
        Some(handle) if !table.ended && !is_registered(table, handle) => Table {
            slots: table.slots.insert(handle, Slot::Waiting(waiting(table, handle).push(data))),
            ended: table.ended,
        },
        _ => table,
    }
}

/// The table after `channel` has been registered for `handle`. After the end of the stream the
/// channel is not kept.
pub open spec fn after_registration<C>(table: Table<C>, handle: u32, channel: C) -> Table<C> {
    let slot = if table.ended {
        Slot::Closed
    } else {
        Slot::Open(channel)
    };
    Table { slots: table.slots.insert(handle, slot), ended: table.ended }
}

/// What the end of the stream leaves of a slot: a channel is let go, frames wait on.
pub open spec fn closed_slot<C>(slot: Slot<C>) -> Slot<C> {
    match slot {
        Slot::Open(_) => Slot::Closed,
        _ => slot,
    }
}

/// The table after the end of the stream: every channel is let go.
pub open spec fn after_end<C>(table: Table<C>) -> Table<C> {
    Table { slots: table.slots.map_values(|slot: Slot<C>| closed_slot(slot)), ended: true }
}

/// Every frame that waits for a context names that context. A context that is registered has its
/// channel until the stream ends, and none from then on.
pub open spec fn table_wf<C>(table: Table<C>) -> bool {
    &&& forall|handle: u32, i: int|
        0 <= i < waiting(table, handle).len() ==> frame_handle(
            #[trigger] waiting(table, handle)[i],
        ) == Some(handle)
    &&& forall|handle: u32| #[trigger]
        is_registered(table, handle) ==> (is_open(table, handle) <==> !table.ended)
}

/// Taking a frame in keeps the table well-formed.
pub proof fn lemma_arrival_keeps_wf<C>(table: Table<C>, data: Seq<u8>)
    requires
        table_wf(table),
    ensures
        table_wf(after_arrival(table, data)),
{
    let after = after_arrival(table, data);
    assert forall|handle: u32, i: int|
        0 <= i < waiting(after, handle).len() implies frame_handle(
        #[trigger] waiting(after, handle)[i],
    ) == Some(handle) by {
        if i < waiting(table, handle).len() {
            assert(waiting(after, handle)[i] == waiting(table, handle)[i]);
        }
    }
    assert forall|handle: u32| #[trigger] is_registered(after, handle) implies (is_open(
        after,
        handle,
    ) <==> !after.ended) by {
        assert(is_registered(table, handle));
    }
}

/// Registering a context keeps the table well-formed.
pub proof fn lemma_registration_keeps_wf<C>(table: Table<C>, handle: u32, channel: C)
    requires
        table_wf(table),
    ensures
        table_wf(after_registration(table, handle, channel)),
{
    let after = after_registration(table, handle, channel);
    assert forall|other: u32, i: int|
        0 <= i < waiting(after, other).len() implies frame_handle(
        #[trigger] waiting(after, other)[i],
    ) == Some(other) by {
        assert(waiting(after, other)[i] == waiting(table, other)[i]);
    }
    assert forall|other: u32| #[trigger] is_registered(after, other) implies (is_open(after, other)
        <==> !after.ended) by {
        if other != handle {
            assert(is_registered(table, other));
        }
    }
}

/// The end of the stream keeps the table well-formed.
pub proof fn lemma_end_keeps_wf<C>(table: Table<C>)
    requires
        table_wf(table),
    ensures
        table_wf(after_end(table)),
{
    let after = after_end(table);
    assert forall|handle: u32, i: int|
        0 <= i < waiting(after, handle).len() implies frame_handle(
        #[trigger] waiting(after, handle)[i],
    ) == Some(handle) by {
        assert(waiting(after, handle)[i] == waiting(table, handle)[i]);
    }
}

/// A channel for the frames of one context, on its way to the router.
pub struct Registration<C> {
    /// The context.
    pub handle: ContextHandle,
    /// Where its frames go.
    pub channel: C,
}

/// The channel of a context that was registered just now.
pub enum Outlet<'a, C> {
    /// The router keeps the channel.
    Kept(&'a C),
    /// The stream has ended and the router does not keep the channel. It is to be let go once the
    /// frames that waited are sent.
    Last(C),
}

impl<'a, C> Outlet<'a, C> {
    /// The channel.
    pub open spec fn spec_channel(self) -> C {
        match self {
            Outlet::Kept(channel) => *channel,
            Outlet::Last(channel) => channel,
        }
    }

    /// The channel.
    pub fn channel(&self) -> (channel: &C)
        ensures
            *channel == self.spec_channel(),
    {
        match self {
            Outlet::Kept(channel) => *channel,
            Outlet::Last(channel) => channel,
        }
    }
}

/// What registering a context leaves to do.
pub struct Registered<'a, C> {
    /// The frames that waited for the context. They are to be sent in their order, before any
    /// other.
    pub frames: Vec<Vec<u8>>,
    /// Where they are to be sent.
    pub outlet: Outlet<'a, C>,
}

/// Knows for each context of a connection the channel that its frames go to, and keeps the
/// frames of contexts that have none yet.
pub struct Router<C> {
    channels: HashMap<u32, Storage<Vec<u8>, Option<C>>>,
    ended: bool,
}

impl<C> Router<C> {
    /// What the router knows.
    pub closed spec fn table(self) -> Table<C> {
        Table {
            slots: self.channels@.map_values(|storage: Storage<Vec<u8>, Option<C>>| storage.slot()),
            ended: self.ended,
        }
    }

    /// Every frame that waits for a context names that context, and contexts have their channels
    /// just until the stream ends.
    pub open spec fn wf(self) -> bool {
        table_wf(self.table())
    }

    /// A router that knows the root context only.
    pub fn new(root: C) -> (router: Self)
        ensures
            router.wf(),
            router.table() == initial_table(root),
    {
        let mut channels: HashMap<u32, Storage<Vec<u8>, Option<C>>> = HashMap::new();
        channels.insert(ROOT_HANDLE, Storage::Channel(Some(root)));
        let router = Router { channels, ended: false };
        assert(router.table().slots =~= initial_table(root).slots);
        router
    }

    /// Takes a frame in. Where its context has a channel the frame is handed back, to be sent
    /// there. Else it waits. After the end of the stream it is dropped.
    pub fn deliver(&mut self, handle: ContextHandle, data: Vec<u8>) -> (forward: Option<Vec<u8>>)
        requires
            old(self).wf(),
            frame_handle(data@) == Some(handle.0),
        ensures
            final(self).wf(),
            final(self).table() == after_arrival(old(self).table(), data@),
            forward == if is_open(old(self).table(), handle.0) {
                Some(data)
            } else {
                None
            },
    {
        if self.ended {
            proof {
                let slots = self.table().slots;
                if slots.contains_key(handle.0) && slots[handle.0] is Open {
                    assert(is_registered(self.table(), handle.0));
                }
            }
            return None;
        }
        let mut storage = self.take(handle);
        let ghost kept = storage;
        let forward = storage.send(data);
        self.put(handle, storage);
        proof {
            let before = old(self).table();
            if kept is Temporary {
                assert(frames(storage->Temporary_0@) =~= frames(kept->Temporary_0@).push(data@));
            } else {
                assert(is_registered(before, handle.0));
            }
            assert(self.table().slots =~= after_arrival(before, data@).slots);
            lemma_arrival_keeps_wf(before, data@);
        }
        forward
    }

    /// Takes the storage of a context out, an empty one where there is none yet.
    fn take(&mut self, handle: ContextHandle) -> (storage: Storage<Vec<u8>, Option<C>>)
        ensures
            final(self).table().slots == old(self).table().slots.remove(handle.0),
            final(self).table().ended == old(self).table().ended,
            storage.slot() == if is_registered(old(self).table(), handle.0) {
                old(self).table().slots[handle.0]
            } else {
                Slot::Waiting(waiting(old(self).table(), handle.0))
            },
    {
        let storage = match self.channels.remove(&handle.0) {
            Some(storage) => storage,
            None => Storage::Temporary(Vec::new()),
        };
        assert(self.table().slots =~= old(self).table().slots.remove(handle.0));
        assert(frames(Seq::<Vec<u8>>::empty()) =~= seq![]);
        storage
    }

    /// Puts the storage of a context in.
    fn put(&mut self, handle: ContextHandle, storage: Storage<Vec<u8>, Option<C>>)
        ensures
            final(self).table().slots == old(self).table().slots.insert(handle.0, storage.slot()),
            final(self).table().ended == old(self).table().ended,
    {
        self.channels.insert(handle.0, storage);
        assert(self.table().slots =~= old(self).table().slots.insert(handle.0, storage.slot()));
    }

    /// Registers the channel of a context, and gives the frames that waited for it together with
    /// the channel that they go to. Where the context is registered already nothing changes, and
    /// there is no answer.
    pub fn register(&mut self, registration: Registration<C>) -> (registered: Option<
        Registered<'_, C>,
    >)
        requires
            old(self).wf(),
        ensures
            final(self).wf(),
            match registered {
                None => is_registered(old(self).table(), registration.handle.0) && *final(self)
                    == *old(self),
                Some(registered) => {
                    &&& !is_registered(old(self).table(), registration.handle.0)
                    &&& final(self).table() == after_registration(
                        old(self).table(),
                        registration.handle.0,
                        registration.channel,
                    )
                    &&& frames(registered.frames@) == waiting(
                        old(self).table(),
                        registration.handle.0,
                    )
                    &&& registered.outlet.spec_channel() == registration.channel
                    &&& registered.outlet is Last <==> old(self).table().ended
                },
            },
    {
        let Registration { handle, channel } = registration;
        if self.is_registered(handle) {
            return None;
        }
        let mut storage = self.take(handle);
        let (kept, last) = if self.ended {
            (None, Some(channel))
        } else {
            (Some(channel), None)
        };
        let frames = storage.upgrade(kept);
        self.put(handle, storage);
        proof {
            let before = old(self).table();
            assert(self.table().slots =~= after_registration(before, handle.0, channel).slots);
            lemma_registration_keeps_wf(before, handle.0, channel);
        }
        let outlet = match last {
            Some(channel) => Outlet::Last(channel),
            None => match self.channel(handle) {
                Some(channel) => Outlet::Kept(channel),
                None => unreached(),
            },
        };
        Some(Registered { frames, outlet })
    }

    /// Ends the stream: the channel of every context is let go, so that nothing more comes out of
    /// it behind the frames that were sent.
    pub fn end(&mut self)
        requires
            old(self).wf(),
        ensures
            final(self).wf(),
            final(self).table() == after_end(old(self).table()),
    {
        let mut handles: Vec<u32> = Vec::new();
        for handle in it: self.channels.keys()
            invariant
                handles@ =~= it.seq().unref().take(it.index()),
                it.seq().unref().to_set() == self.channels@.dom(),
                it.index() == it.seq().len() ==> handles@ =~= it.seq().unref(),
        {
            handles.push(*handle);
        }
        let ghost before = self.table().slots;
        assert(handles@.to_set() == before.dom());
        let mut i: usize = 0;
        while i < handles.len()
            invariant
                i <= handles@.len(),
                handles@.to_set() == before.dom(),
                self.table().slots.dom() == before.dom(),
                forall|handle: u32| #[trigger]
                    before.contains_key(handle) ==> self.table().slots[handle] == before[handle]
                        || self.table().slots[handle] == closed_slot(before[handle]),
                forall|j: int|
                    0 <= j < i ==> self.table().slots[#[trigger] handles@[j]] == closed_slot(
                        before[handles@[j]],
                    ),
            decreases handles.len() - i,
        {
            let handle = ContextHandle(handles[i]);
            assert(handles@.to_set().contains(handle.0));
            let storage = match self.take(handle) {
                Storage::Channel(_) => Storage::Channel(None),
                storage => storage,
            };
            self.put(handle, storage);
            assert(self.table().slots.dom() =~= before.dom());
            i += 1;
        }
        self.ended = true;
        proof {
            assert forall|handle: u32| #[trigger] before.contains_key(
                handle,
            ) implies self.table().slots[handle] == closed_slot(before[handle]) by {
                assert(handles@.contains(handle));
            }
            assert(self.table().slots =~= after_end(old(self).table()).slots);
            lemma_end_keeps_wf(old(self).table());
        }
    }

    /// Whether a context has been registered.
    pub fn is_registered(&self, handle: ContextHandle) -> (registered: bool)
        ensures
            registered == is_registered(self.table(), handle.0),
    {
        match self.channels.get(&handle.0) {
            Some(Storage::Channel(_)) => true,
            _ => false,
        }
    }

    /// The channel that the frames of a context go to.
    pub fn channel(&self, handle: ContextHandle) -> (channel: Option<&C>)
        ensures
            channel == if is_open(self.table(), handle.0) {
                match self.table().slots[handle.0] {
                    Slot::Open(channel) => Some(&channel),
                    _ => None,
                }
            } else {
                None
            },
    {
        match self.channels.get(&handle.0) {
            Some(Storage::Channel(Some(channel))) => Some(channel),
            _ => None,
        }
    }
}

/// A fresh router knows the root context alone, and its frames go to the channel that the router
/// was made with.
pub proof fn law_fresh_router_routes_to_root<C>(
    root: C,
    router: Router<C>,
    handle: ContextHandle,
    found: Option<&C>,
    known: bool,
)
    requires
        Router::<C>::new.ensures((root,), router),
        Router::<C>::channel.ensures((&router, handle), found),
        Router::<C>::is_registered.ensures((&router, handle), known),
    ensures
        handle.0 == 0 ==> found == Some(&root) && known,
        handle.0 != 0 ==> found is None && !known,
        !router.table().ended,
        forall|other: u32| #[trigger] router.table().slots.contains_key(other) <==> other == 0,
{
}

/// What is found of a context is what its slot says.
pub proof fn law_router_finds_slots<C>(
    router: Router<C>,
    handle: ContextHandle,
    found: Option<&C>,
    known: bool,
)
    requires
        Router::<C>::channel.ensures((&router, handle), found),
        Router::<C>::is_registered.ensures((&router, handle), known),
    ensures
        found matches Some(channel) ==> router.table().slots.contains_key(handle.0)
            && router.table().slots[handle.0] == Slot::Open(*channel),
        found is None ==> !(router.table().slots.contains_key(handle.0)
            && router.table().slots[handle.0] is Open),
        known <==> router.table().slots.contains_key(handle.0)
            && !(router.table().slots[handle.0] is Waiting),
{
}

/// A context that is registered has the very channel that it was registered with, and no other
/// context gets another channel or loses its own by it. After the end of the stream it has none.
/// A context that was registered before is left as it is.
pub proof fn law_registration_sets_one_channel<'a, C>(
    router: &'a mut Router<C>,
    registration: Registration<C>,
    registered: Option<Registered<'a, C>>,
    other: ContextHandle,
    found_before: Option<&C>,
    found_after: Option<&C>,
    known_before: bool,
    known_after: bool,
)
    requires
        Router::<C>::register.ensures((router, registration), registered),
        Router::<C>::channel.ensures((&*old(router), other), found_before),
        Router::<C>::channel.ensures((&*final(router), other), found_after),
        Router::<C>::is_registered.ensures((&*old(router), other), known_before),
        Router::<C>::is_registered.ensures((&*final(router), other), known_after),
    ensures
        other != registration.handle ==> found_after == found_before && known_after == known_before,
        other == registration.handle ==> known_after && (registered is None <==> known_before),
        registered is None ==> found_after == found_before,
        registered matches Some(made) ==> match made.outlet {
            Outlet::Kept(channel) => *channel == registration.channel && !old(router).table().ended
                && (other == registration.handle ==> found_after == Some(&registration.channel)),
            Outlet::Last(channel) => channel == registration.channel && old(router).table().ended
                && (other == registration.handle ==> found_after is None),
        },
        final(router).table().ended == old(router).table().ended,
{
}

/// Registering a context gives the frames that waited for it, byte for byte and in order, and
/// touches no other slot.
pub proof fn law_registration_releases_what_waited<'a, C>(
    router: &'a mut Router<C>,
    registration: Registration<C>,
    registered: Registered<'a, C>,
)
    requires
        Router::<C>::register.ensures((router, registration), Some(registered)),
    ensures
        !old(router).table().slots.contains_key(registration.handle.0)
            ==> registered.frames@.len() == 0,
        old(router).table().slots.contains_key(registration.handle.0)
            ==> match old(router).table().slots[registration.handle.0] {
            Slot::Waiting(kept) => registered.frames@.len() == kept.len() && forall|i: int|
                0 <= i < kept.len() ==> (#[trigger] registered.frames@[i])@ == kept[i],
            _ => false,
        },
        final(router).table().slots.contains_key(registration.handle.0),
        final(router).table().slots[registration.handle.0] == if old(router).table().ended {
            Slot::Closed
        } else {
            Slot::Open(registration.channel)
        },
        forall|other: u32|
            other != registration.handle.0
                ==> (#[trigger] final(router).table().slots.contains_key(other)
                    <==> old(router).table().slots.contains_key(other)),
        forall|other: u32|
            other != registration.handle.0 && old(router).table().slots.contains_key(other)
                ==> #[trigger] final(router).table().slots[other]
                    == old(router).table().slots[other],
{
    law_frames_are_the_elements(registered.frames@);
    let before = old(router).table();
    let handle = registration.handle.0;
    assert(frames(registered.frames@) == waiting(before, handle));
    if before.slots.contains_key(handle) {
        if let Slot::Waiting(kept) = before.slots[handle] {
            assert forall|i: int| 0 <= i < kept.len() implies (#[trigger] registered.frames@[i])@
                == kept[i] by {
                assert(frames(registered.frames@)[i] == kept[i]);
            }
        }
    }
}

/// The frames in a vector are its elements, byte for byte.
pub proof fn law_frames_are_the_elements(data: Seq<Vec<u8>>)
    ensures
        frames(data).len() == data.len(),
        forall|i: int| 0 <= i < data.len() ==> (#[trigger] frames(data)[i]) == data[i]@,
{
}

/// A frame goes to the channel of its context where there is one, as it came. Else it waits
/// behind those that wait for the same context, as it came. No other slot is touched.
pub proof fn law_delivery_forwards_or_keeps<C>(
    router: &mut Router<C>,
    handle: ContextHandle,
    data: Vec<u8>,
    forward: Option<Vec<u8>>,
)
    requires
        Router::<C>::deliver.ensures((router, handle, data), forward),
        data@.len() >= 4,
        handle.0 == data@[0] * 0x100_0000 + data@[1] * 0x1_0000 + data@[2] * 0x100 + data@[3],
    ensures
        final(router).table().ended == old(router).table().ended,
        forward == (if old(router).table().slots.contains_key(handle.0)
            && old(router).table().slots[handle.0] is Open {
            Some(data)
        } else {
            None
        }),
        old(router).table().ended ==> final(router).table() == old(router).table(),
        !old(router).table().ended ==> final(router).table().slots.contains_key(handle.0)
            && final(router).table().slots[handle.0] == (if old(router).table().slots.contains_key(
            handle.0,
        ) {
            match old(router).table().slots[handle.0] {
                Slot::Waiting(kept) => Slot::Waiting(kept.push(data@)),
                Slot::Open(channel) => Slot::Open(channel),
                Slot::Closed => Slot::Closed,
            }
        } else {
            Slot::Waiting(seq![data@])
        }),
        forall|other: u32|
            other != handle.0 ==> (#[trigger] final(router).table().slots.contains_key(other)
                <==> old(router).table().slots.contains_key(other)),
        forall|other: u32|
            other != handle.0 && old(router).table().slots.contains_key(other)
                ==> #[trigger] final(router).table().slots[other]
                    == old(router).table().slots[other],
{
    law_frame_parts(data@);
    assert(seq![data@] =~= Seq::<Seq<u8>>::empty().push(data@));
}

/// The end of the stream lets the channel of every context go, and touches nothing that waits.
pub proof fn law_end_lets_every_channel_go<C>(
    router: &mut Router<C>,
    handle: ContextHandle,
    found: Option<&C>,
    known_before: bool,
    known_after: bool,
)
    requires
        Router::<C>::end.ensures((router,), ()),
        Router::<C>::channel.ensures((&*final(router), handle), found),
        Router::<C>::is_registered.ensures((&*old(router), handle), known_before),
        Router::<C>::is_registered.ensures((&*final(router), handle), known_after),
    ensures
        final(router).table().ended,
        found is None,
        known_after == known_before,
        final(router).table().slots.contains_key(handle.0)
            <==> old(router).table().slots.contains_key(handle.0),
        old(router).table().slots.contains_key(handle.0)
            ==> match old(router).table().slots[handle.0] {
            Slot::Waiting(kept) => final(router).table().slots[handle.0] == Slot::<C>::Waiting(
                kept,
            ),
            _ => final(router).table().slots[handle.0] == Slot::<C>::Closed,
        },
{
}

/// Storage without a channel keeps what it is sent, in order and as it came, and gives all of it
/// to the one that sets the channel; from then on it keeps nothing.
pub proof fn law_storage_keeps_until_upgraded<T, C>(
    storage: &mut Storage<T, C>,
    item: T,
    forward: Option<T>,
    upgraded: &mut Storage<T, C>,
    channel: C,
    kept: Vec<T>,
)
    requires
        Storage::<T, C>::send.ensures((storage, item), forward),
        Storage::<T, C>::upgrade.ensures((upgraded, channel), kept),
        *old(upgraded) == *final(storage),
    ensures
        *old(storage) matches Storage::Temporary(data) ==> forward is None && kept@ == data@.push(
            item,
        ) && *final(upgraded) == Storage::<T, C>::Channel(channel),
        *old(storage) is Channel ==> forward == Some(item) && *final(storage) == *old(storage),
{
}

/// The channel of an outlet is the one it holds.
pub proof fn law_outlet_leads_to_its_channel<'a, C>(outlet: Outlet<'a, C>, channel: &C)
    requires
        Outlet::<'a, C>::channel.ensures((&outlet,), channel),
    ensures
        outlet matches Outlet::Kept(kept) ==> *channel == *kept,
        outlet matches Outlet::Last(last) ==> *channel == last,
{
}

/// The slots after an arrival, one by one.
pub proof fn law_slots_after_arrival<C>(table: Table<C>, data: Seq<u8>, other: u32)
    ensures
        after_arrival(table, data).ended == table.ended,
        data.len() < 4 || table.ended ==> after_arrival(table, data) == table,
        data.len() >= 4 && other != data[0] * 0x100_0000 + data[1] * 0x1_0000 + data[2] * 0x100
            + data[3] ==> {
            &&& after_arrival(table, data).slots.contains_key(other) <==> table.slots.contains_key(
                other,
            )
            &&& table.slots.contains_key(other) ==> after_arrival(table, data).slots[other]
                == table.slots[other]
        },
        data.len() >= 4 && !table.ended && other == data[0] * 0x100_0000 + data[1] * 0x1_0000
            + data[2] * 0x100 + data[3] ==> {
            &&& after_arrival(table, data).slots.contains_key(other)
            &&& after_arrival(table, data).slots[other] == if table.slots.contains_key(other) {
                match table.slots[other] {
                    Slot::Waiting(kept) => Slot::Waiting(kept.push(data)),
                    Slot::Open(channel) => Slot::Open(channel),
                    Slot::Closed => Slot::Closed,
                }
            } else {
                Slot::Waiting(seq![data])
            }
        },
{
    law_frame_parts(data);
    assert(seq![data] =~= Seq::<Seq<u8>>::empty().push(data));
}

/// The slots after a registration, one by one.
pub proof fn law_slots_after_registration<C>(
    table: Table<C>,
    handle: u32,
    channel: C,
    other: u32,
)
    ensures
        after_registration(table, handle, channel).ended == table.ended,
        after_registration(table, handle, channel).slots.contains_key(handle),
        !table.ended ==> after_registration(table, handle, channel).slots[handle] == Slot::Open(
            channel,
        ),
        table.ended ==> after_registration(table, handle, channel).slots[handle] is Closed,
        other != handle ==> {
            &&& after_registration(table, handle, channel).slots.contains_key(other)
                <==> table.slots.contains_key(other)
            &&& table.slots.contains_key(other) ==> after_registration(
                table,
                handle,
                channel,
            ).slots[other] == table.slots[other]
        },
{
}

/// The slots after the end of the stream, one by one.
pub proof fn law_slots_after_end<C>(table: Table<C>, handle: u32)
    ensures
        after_end(table).ended,
        after_end(table).slots.contains_key(handle) <==> table.slots.contains_key(handle),
        table.slots.contains_key(handle) ==> match table.slots[handle] {
            Slot::Waiting(kept) => after_end(table).slots[handle] == Slot::<C>::Waiting(kept),
            _ => after_end(table).slots[handle] is Closed,
        },
{
}

/// What a slot says of its context.
pub proof fn law_slots_are_observed<C>(table: Table<C>, handle: u32)
    ensures
        !table.slots.contains_key(handle) ==> !is_registered(table, handle) && !is_open(
            table,
            handle,
        ) && waiting(table, handle).len() == 0,
        table.slots.contains_key(handle) ==> match table.slots[handle] {
            Slot::Waiting(kept) => !is_registered(table, handle) && !is_open(table, handle)
                && waiting(table, handle) == kept,
            Slot::Open(_) => is_registered(table, handle) && is_open(table, handle) && waiting(
                table,
                handle,
            ).len() == 0,
            Slot::Closed => is_registered(table, handle) && !is_open(table, handle) && waiting(
                table,
                handle,
            ).len() == 0,
        },
{
}

proof fn lemma_frames_wait<C>(
    tables: Seq<Table<C>>,
    came: Seq<(ContextHandle, Vec<u8>)>,
    wanted: spec_fn((ContextHandle, Vec<u8>)) -> bool,
    handle: ContextHandle,
    n: int,
)
    requires
        forall|item: (ContextHandle, Vec<u8>)| #[trigger] wanted(item) <==> item.0 == handle,
        tables.len() == came.len() + 1,
        0 <= n < tables.len(),
        forall|i: int|
            0 <= i < came.len() ==> tables[i + 1] == after_arrival(
                tables[i],
                (#[trigger] came[i]).1@,
            ) && frame_handle(came[i].1@) == Some(came[i].0.0),
        !tables[0].ended,
        waiting(tables[0], handle.0) == Seq::<Seq<u8>>::empty(),
    ensures
        !tables[n].ended,
        is_registered(tables[n], handle.0) <==> is_registered(tables[0], handle.0),
        !is_registered(tables[0], handle.0) ==> waiting(tables[n], handle.0).len() == came.take(
            n,
        ).filter(wanted).len(),
        !is_registered(tables[0], handle.0) ==> forall|i: int|
            0 <= i < came.take(n).filter(wanted).len() ==> #[trigger] waiting(
                tables[n],
                handle.0,
            )[i] == came.take(n).filter(wanted)[i].1@,
    decreases n,
{
    reveal(Seq::filter);
    if n > 0 {
        lemma_frames_wait(tables, came, wanted, handle, n - 1);
        let (to, data) = came[n - 1];
        assert(tables[n - 1 + 1] == after_arrival(tables[n - 1], data@));
        assert(came.take(n).drop_last() =~= came.take(n - 1));
        assert(came.take(n).last() == came[n - 1]);
        if !is_registered(tables[0], handle.0) {
            assert(waiting(tables[n], handle.0) =~= if to == handle {
                waiting(tables[n - 1], handle.0).push(data@)
            } else {
                waiting(tables[n - 1], handle.0)
            });
        }
    }
}

/// Frames that come before their context is registered are released when it is: all of them, in
/// the order in which they came, byte for byte, and none that came for another context.
pub proof fn law_early_frames_are_released<'a, C>(
    root: C,
    routers: Seq<Router<C>>,
    came: Seq<(ContextHandle, Vec<u8>)>,
    wanted: spec_fn((ContextHandle, Vec<u8>)) -> bool,
    router: &'a mut Router<C>,
    registration: Registration<C>,
    registered: Registered<'a, C>,
)
    requires
        routers.len() == came.len() + 1,
        Router::<C>::new.ensures((root,), routers[0]),
        forall|i: int|
            0 <= i < came.len() ==> (#[trigger] came[i]).1@.len() >= 4 && came[i].0.0
                == came[i].1@[0] * 0x100_0000 + came[i].1@[1] * 0x1_0000 + came[i].1@[2] * 0x100
                + came[i].1@[3],
        forall|i: int|
            0 <= i < came.len() ==> exists|step: &mut Router<C>, forward: Option<Vec<u8>>|
                Router::<C>::deliver.ensures(
                    (step, (#[trigger] came[i]).0, came[i].1),
                    forward,
                ) && *step == routers[i] && *final(step) == routers[i + 1],
        *old(router) == routers.last(),
        Router::<C>::register.ensures((router, registration), Some(registered)),
        forall|item: (ContextHandle, Vec<u8>)| #[trigger]
            wanted(item) <==> item.0 == registration.handle,
    ensures
        registered.frames@.len() == came.filter(wanted).len(),
        forall|i: int|
            0 <= i < registered.frames@.len() ==> (#[trigger] registered.frames@[i])@
                == came.filter(wanted)[i].1@,
{
    let tables = Seq::new(routers.len(), |i: int| routers[i].table());
    assert forall|i: int| 0 <= i < came.len() implies tables[i + 1] == after_arrival(
        tables[i],
        (#[trigger] came[i]).1@,
    ) && frame_handle(came[i].1@) == Some(came[i].0.0) by {
        law_frame_parts(came[i].1@);
    }
    let handle = registration.handle;
    lemma_frames_wait(tables, came, wanted, handle, came.len() as int);
    assert(came.take(came.len() as int) =~= came);
    law_frames_are_the_elements(registered.frames@);
    assert forall|i: int| 0 <= i < registered.frames@.len() implies (#[trigger]
    registered.frames@[i])@ == came.filter(wanted)[i].1@ by {
        assert(frames(registered.frames@)[i] == waiting(tables[came.len() as int], handle.0)[i]);
    }
}

/// A router can be made with any channel. Once made it stays fit for use, whatever it is asked:
/// every frame can be delivered under the handle that its first four bytes spell, every context
/// registered and looked up, and the stream ended, at any time.
pub proof fn law_router_is_always_fit<C>(root: C, made: Router<C>)
    ensures
        Router::<C>::new.requires((root,)),
        Router::<C>::new.ensures((root,), made) ==> made.wf(),
        forall|router: &mut Router<C>, handle: ContextHandle, data: Vec<u8>|
            router.wf() && data@.len() >= 4 && handle.0 == data@[0] * 0x100_0000 + data@[1]
                * 0x1_0000 + data@[2] * 0x100 + data@[3] ==> #[trigger]
                Router::<C>::deliver.requires((router, handle, data)),
        forall|router: &mut Router<C>, registration: Registration<C>|
            router.wf() ==> #[trigger] Router::<C>::register.requires((router, registration)),
        forall|router: &mut Router<C>|
            router.wf() ==> #[trigger] Router::<C>::end.requires((router,)),
        forall|router: Router<C>, handle: ContextHandle| #[trigger]
            Router::<C>::channel.requires((&router, handle)),
        forall|router: Router<C>, handle: ContextHandle| #[trigger]
            Router::<C>::is_registered.requires((&router, handle)),
        forall|
            router: &mut Router<C>,
            handle: ContextHandle,
            data: Vec<u8>,
            forward: Option<Vec<u8>>,
        | #[trigger]
            Router::<C>::deliver.ensures((router, handle, data), forward) ==> final(router).wf(),
        forall|router: &mut Router<C>| #[trigger]
            Router::<C>::end.ensures((router,), ()) ==> final(router).wf(),
{
    assert forall|router: &mut Router<C>, handle: ContextHandle, data: Vec<u8>|
        router.wf() && data@.len() >= 4 && handle.0 == data@[0] * 0x100_0000 + data@[1] * 0x1_0000
            + data@[2] * 0x100 + data@[3] implies #[trigger] Router::<C>::deliver.requires(
        (router, handle, data),
    ) by {
        law_frame_parts(data@);
    }
}

/// A router is as fit for use after a registration as before it.
pub proof fn law_router_stays_fit_after_registration<'a, C>(
    router: &'a mut Router<C>,
    registration: Registration<C>,
    registered: Option<Registered<'a, C>>,
)
    requires
        Router::<C>::register.ensures((router, registration), registered),
    ensures
        final(router).wf(),
{
}

/// Storage can be sent anything, and given a channel where it has none.
pub proof fn law_storage_takes_anything<T, C>(item: T, channel: C)
    ensures
        forall|storage: &mut Storage<T, C>| #[trigger]
            Storage::<T, C>::send.requires((storage, item)),
        forall|storage: &mut Storage<T, C>|
            *storage is Temporary ==> #[trigger] Storage::<T, C>::upgrade.requires(
                (storage, channel),
            ),
{
}

} // verus!
