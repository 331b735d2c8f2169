//! Further contexts over the connection of a transport, and items that travel in a notification.
use vstd::prelude::*;
use crate::handle::{ContextHandle, HandleAllocator};
use crate::router::Registration;
use crate::transport::Transport;

verus! {

/// The outcome of opening a context on this side: its transport, the handle that the other side
/// joins it by, and what has to be handed to the router.
pub struct Forked<S, R, L, C> {
    /// The transport of the new context.
    pub transport: Transport<S, R, L>,
    /// The handle that the other side joins the context by.
    pub handle: u32,
    /// What has to be handed to the router.
    pub registration: Registration<C>,
}

/// The outcome of joining a context that the other side opened.
pub struct Joined<S, R, L, C> {
    /// The transport of the context.
    pub transport: Transport<S, R, L>,
    /// What has to be handed to the router.
    pub registration: Registration<C>,
}

/// Whether `forked` is what `original` opens with the handle `handle` and the channel `channel`.
pub open spec fn is_fork<S: Clone, R, L: Clone, C>(
    original: Transport<S, R, L>,
    handle: u32,
    channel: (C, R),
    forked: Forked<S, R, L, C>,
) -> bool {
    &&& forked.handle == handle
    &&& forked.transport.id == ContextHandle(handle)
    &&& forked.transport.receiver == channel.1
    &&& crate::transport::shares_connection(original, forked.transport)
    &&& forked.registration == (Registration { handle: ContextHandle(handle), channel: channel.0 })
}

/// Whether `joined` is what `original` joins by the handle `handle` with the channel `channel`.
pub open spec fn is_join<S: Clone, R, L: Clone, C>(
    original: Transport<S, R, L>,
    handle: u32,
    channel: (C, R),
    joined: Joined<S, R, L, C>,
) -> bool {
    &&& joined.transport.id == ContextHandle(handle)
    &&& joined.transport.receiver == channel.1
    &&& crate::transport::shares_connection(original, joined.transport)
    &&& joined.registration == (Registration { handle: ContextHandle(handle), channel: channel.0 })
}

impl<S: Clone, R, L: Clone> Transport<S, R, L> {
    /// Opens a context of its own.
    pub fn fork_owned<C>(&self, indices: &mut HandleAllocator, channel: (C, R)) -> (forked: Forked<
        S,
        R,
        L,
        C,
    >)
        ensures
            is_fork(*self, old(indices).next_handle(), channel, forked),
            final(indices).next_handle() == crate::handle::nth_handle(
                old(indices).next_handle(),
                1,
            ),
    {
        let (transport, registration) = self.next_id(indices, channel);
        let handle: u32 = transport.id.0;
        Forked { transport, handle, registration }
    }

    /// Joins a context of its own that the other side opened.
    pub fn join_owned<C>(&self, id: u32, channel: (C, R)) -> (joined: Joined<S, R, L, C>)
        ensures
            is_join(*self, id, channel, joined),
    {
        let (transport, registration) = self.with_id(ContextHandle(id), channel);
        Joined { transport, registration }
    }

    /// Opens a context that is shared.
    pub fn fork_shared<C>(&self, indices: &mut HandleAllocator, channel: (C, R)) -> (forked: Forked<
        S,
        R,
        L,
        C,
    >)
        ensures
            is_fork(*self, old(indices).next_handle(), channel, forked),
            final(indices).next_handle() == crate::handle::nth_handle(
                old(indices).next_handle(),
                1,
            ),
    {
        let (transport, registration) = self.next_id(indices, channel);
        let handle: u32 = transport.id.0;
        Forked { transport, handle, registration }
    }

    /// Joins a shared context that the other side opened.
    pub fn join_shared<C>(&self, id: u32, channel: (C, R)) -> (joined: Joined<S, R, L, C>)
        ensures
            is_join(*self, id, channel, joined),
    {
        let (transport, registration) = self.with_id(ContextHandle(id), channel);
        Joined { transport, registration }
    }

    /// Opens a context that is lent.
    pub fn fork_ref<C>(&self, indices: &mut HandleAllocator, channel: (C, R)) -> (forked: Forked<
        S,
        R,
        L,
        C,
    >)
        ensures
            is_fork(*self, old(indices).next_handle(), channel, forked),
            final(indices).next_handle() == crate::handle::nth_handle(
                old(indices).next_handle(),
                1,
            ),
    {
        let (transport, registration) = self.next_id(indices, channel);
        let handle: u32 = transport.id.0;
        Forked { transport, handle, registration }
    }

    /// Joins a lent context that the other side opened.
    pub fn join_ref<C>(&self, id: u32, channel: (C, R)) -> (joined: Joined<S, R, L, C>)
        ensures
            is_join(*self, id, channel, joined),
    {
        let (transport, registration) = self.with_id(ContextHandle(id), channel);
        Joined { transport, registration }
    }
}

impl<S, R, L> Transport<S, R, L> {
    /// The context that a reference stands for. A transport is its own, whatever it was lent by.
    pub fn with<B>(&mut self, _lender: B) -> (target: &mut Self)
        ensures
            *target == *old(self),
            *final(self) == *final(target),
    {
        self
    }

    /// Wraps an item in a notification.
    pub fn wrap<P>(item: P) -> (notification: Notification<P>)
        ensures
            notification.item() == item,
    {
        Notification(item)
    }

    /// Takes the item out of a notification.
    pub fn unwrap<P>(notification: Notification<P>) -> (item: P)
        ensures
            item == notification.item(),
    {
        notification.0
    }
}

/// An item that travels in a notification.
#[derive(Debug)]
pub struct Notification<P>(P);

impl<P> Notification<P> {
    /// The item.
    pub closed spec fn item(self) -> P {
        self.0
    }
}

/// A notification is its item and nothing else, so wrapping an item and taking it out again
/// changes neither.
pub proof fn law_notification_is_its_item<P>(left: Notification<P>, right: Notification<P>)
    ensures
        left.item() == right.item() <==> left == right,
{
}

/// A context that one side opens and the other side joins by the handle it was told has the same
/// handle on both sides, in its transports and in what the two routers are handed.
pub proof fn law_fork_and_join_meet<S: Clone, R, L: Clone, C>(
    near: Transport<S, R, L>,
    far: Transport<S, R, L>,
    handle: u32,
    near_channel: (C, R),
    far_channel: (C, R),
    forked: Forked<S, R, L, C>,
    joined: Joined<S, R, L, C>,
)
    requires
        is_fork(near, handle, near_channel, forked),
        is_join(far, forked.handle, far_channel, joined),
    ensures
        forked.transport.id == joined.transport.id,
        forked.registration.handle == joined.registration.handle,
        forked.registration.handle == forked.transport.id,
{
}

/// What is wrapped in a notification is what comes out of it.
pub proof fn law_wrapped_item_comes_out<S, R, L, P>(
    item: P,
    notification: Notification<P>,
    out: P,
)
    requires
        Transport::<S, R, L>::wrap::<P>.ensures((item,), notification),
        Transport::<S, R, L>::unwrap::<P>.ensures((notification,), out),
    ensures
        out == item,
{
}

/// A context of its own is opened with the next handle of its side and joined by that handle: both
/// transports, the handle that is told and what the two routers are handed name the same context,
/// each transport has the receiving end of the channel whose sending end goes to its router, and
/// the next context that is opened is two further, modulo the handle space.
pub proof fn law_owned_context_is_joined_where_it_was_opened<S: Clone, R, L: Clone, C>(
    near: Transport<S, R, L>,
    far: Transport<S, R, L>,
    indices: &mut HandleAllocator,
    near_channel: (C, R),
    far_channel: (C, R),
    forked: Forked<S, R, L, C>,
    joined: Joined<S, R, L, C>,
)
    requires
        Transport::<S, R, L>::fork_owned::<C>.ensures((&near, indices, near_channel), forked),
        Transport::<S, R, L>::join_owned::<C>.ensures((&far, forked.handle, far_channel), joined),
    ensures
        forked.handle == old(indices).next_handle(),
        final(indices).next_handle() == (forked.handle + 2) % 0x1_0000_0000,
        forked.transport.id.0 == forked.handle && forked.registration.handle.0 == forked.handle,
        joined.transport.id.0 == forked.handle && joined.registration.handle.0 == forked.handle,
        forked.transport.receiver == near_channel.1,
        forked.registration.channel == near_channel.0,
        joined.transport.receiver == far_channel.1,
        joined.registration.channel == far_channel.0,
        cloned(near.spawner, forked.transport.spawner) && cloned(near.link, forked.transport.link),
        cloned(far.spawner, joined.transport.spawner) && cloned(far.link, joined.transport.link),
{
}

/// A context that is shared is opened with the next handle of its side and joined by that handle:
/// both transports, the handle that is told and what the two routers are handed name the same
/// context, each transport has the receiving end of the channel whose sending end goes to its
/// router, and the next context that is opened is two further, modulo the handle space.
pub proof fn law_shared_context_is_joined_where_it_was_opened<S: Clone, R, L: Clone, C>(
    near: Transport<S, R, L>,
    far: Transport<S, R, L>,
    indices: &mut HandleAllocator,
    near_channel: (C, R),
    far_channel: (C, R),
    forked: Forked<S, R, L, C>,
    joined: Joined<S, R, L, C>,
)
    requires
        Transport::<S, R, L>::fork_shared::<C>.ensures((&near, indices, near_channel), forked),
        Transport::<S, R, L>::join_shared::<C>.ensures((&far, forked.handle, far_channel), joined),
    ensures
        forked.handle == old(indices).next_handle(),
        final(indices).next_handle() == (forked.handle + 2) % 0x1_0000_0000,
        forked.transport.id.0 == forked.handle && forked.registration.handle.0 == forked.handle,
        joined.transport.id.0 == forked.handle && joined.registration.handle.0 == forked.handle,
        forked.transport.receiver == near_channel.1,
        forked.registration.channel == near_channel.0,
        joined.transport.receiver == far_channel.1,
        joined.registration.channel == far_channel.0,
        cloned(near.spawner, forked.transport.spawner) && cloned(near.link, forked.transport.link),
        cloned(far.spawner, joined.transport.spawner) && cloned(far.link, joined.transport.link),
{
}

/// A context that is lent is opened with the next handle of its side and joined by that handle:
/// both transports, the handle that is told and what the two routers are handed name the same
/// context, each transport has the receiving end of the channel whose sending end goes to its
/// router, and the next context that is opened is two further, modulo the handle space.
pub proof fn law_ref_context_is_joined_where_it_was_opened<S: Clone, R, L: Clone, C>(
    near: Transport<S, R, L>,
    far: Transport<S, R, L>,
    indices: &mut HandleAllocator,
    near_channel: (C, R),
    far_channel: (C, R),
    forked: Forked<S, R, L, C>,
    joined: Joined<S, R, L, C>,
)
    requires
        Transport::<S, R, L>::fork_ref::<C>.ensures((&near, indices, near_channel), forked),
        Transport::<S, R, L>::join_ref::<C>.ensures((&far, forked.handle, far_channel), joined),
    ensures
        forked.handle == old(indices).next_handle(),
        final(indices).next_handle() == (forked.handle + 2) % 0x1_0000_0000,
        forked.transport.id.0 == forked.handle && forked.registration.handle.0 == forked.handle,
        joined.transport.id.0 == forked.handle && joined.registration.handle.0 == forked.handle,
        forked.transport.receiver == near_channel.1,
        forked.registration.channel == near_channel.0,
        joined.transport.receiver == far_channel.1,
        joined.registration.channel == far_channel.0,
        cloned(near.spawner, forked.transport.spawner) && cloned(near.link, forked.transport.link),
        cloned(far.spawner, joined.transport.spawner) && cloned(far.link, joined.transport.link),
{
}

/// A transport is its own context, whatever it was lent by: what is done to the context is done to
/// the transport.
pub proof fn law_transport_is_its_own_context<S, R, L, B>(lender: B)
    ensures
        forall|transport: &mut Transport<S, R, L>, target: &mut Transport<S, R, L>| #[trigger]
            Transport::<S, R, L>::with::<B>.ensures((transport, lender), target) ==> *target
                == *transport && *final(transport) == *final(target),
{
}

} // verus!
