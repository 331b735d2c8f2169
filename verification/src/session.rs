//! The two ends of a connection: the one that receives a value and the one that sends it.
use vstd::pervasive::unreached;
use vstd::prelude::*;
use crate::error::{SerdeWriteError, WithSpawnError};
use crate::handle::HandleAllocator;
use crate::poll::Polled;
use crate::router::{Router, Slot};
use crate::transport::Transport;
use futures::task::SpawnError;

verus! {

/// What the tasks and the transports of one end share from the start.
pub struct Shared<C> {
    /// Where arriving frames go.
    pub router: Router<C>,
    /// The handles that this end gives out.
    pub indices: HandleAllocator,
}

/// Starts the three tasks of a connection, in this order: the one that sends frames out, the one
/// that registers contexts and the one that takes frames in. Where one cannot be started the
/// rest are left out.
pub fn start_tasks<X, A, B, C>(forward: A, register: B, receive: C) -> (started: Result<
    (),
    X,
>) where
    A: FnOnce() -> Result<(), X>,
    B: FnOnce() -> Result<(), X>,
    C: FnOnce() -> Result<(), X>,

    requires
        forward.requires(()),
        (exists|first: Result<(), X>| #[trigger] forward.ensures((), first) && first is Ok)
            ==> register.requires(()),
        (exists|first: Result<(), X>| #[trigger] forward.ensures((), first) && first is Ok) && (
        exists|second: Result<(), X>| #[trigger] register.ensures((), second) && second is Ok)
            ==> receive.requires(()),
    ensures
        exists|first: Result<(), X>| #[trigger]
            forward.ensures((), first) && match first {
                Err(_) => started == first,
                Ok(()) => exists|second: Result<(), X>| #[trigger]
                    register.ensures((), second) && match second {
                        Err(_) => started == second,
                        Ok(()) => receive.ensures((), started),
                    },
            },
{
    match forward() {
        Err(cause) => Err(cause),
        Ok(()) => match register() {
            Err(cause) => Err(cause),
            Ok(()) => receive(),
        },
    }
}

/// What there is to tell of how sending frames out went: nothing, or that the sink failed.
pub open spec fn sink_failure<U>(outcome: Result<(), U>) -> Option<SerdeWriteError<U>> {
    match outcome {
        Ok(()) => None,
        Err(cause) => Some(SerdeWriteError::Sink(cause)),
    }
}

/// What the transports of a connection are told when the task that sends frames out is done:
/// nothing, or that the sink failed.
pub fn forwarded<U>(outcome: Result<(), U>) -> (error: Option<SerdeWriteError<U>>)
    ensures
        error == sink_failure(outcome),
{
    match outcome {
        Ok(()) => None,
        Err(cause) => Some(SerdeWriteError::Sink(cause)),
    }
}

/// What a poll answers when the protocol did.
pub open spec fn protocol_answer<V, E>(polled: Polled<Result<V, E>>) -> Polled<
    Result<V, WithSpawnError<E>>,
> {
    match polled {
        Polled::Pending => Polled::Pending,
        Polled::Ready(Ok(value)) => Polled::Ready(Ok(value)),
        Polled::Ready(Err(cause)) => Polled::Ready(Err(WithSpawnError::Protocol(cause))),
    }
}

fn answer_with_protocol<V, E>(polled: Polled<Result<V, E>>) -> (answer: Polled<
    Result<V, WithSpawnError<E>>,
>)
    ensures
        answer == protocol_answer(polled),
{
    match polled {
        Polled::Pending => Polled::Pending,
        Polled::Ready(Ok(value)) => Polled::Ready(Ok(value)),
        Polled::Ready(Err(cause)) => Polled::Ready(Err(WithSpawnError::Protocol(cause))),
    }
}

/// Whether the tasks are started, when `initialize` starts those that are still due.
pub open spec fn is_started<I, A: FnOnce(I) -> Result<(), SpawnError>>(
    due: Option<I>,
    initialize: A,
) -> bool {
    match due {
        Some(initializer) => exists|started: Result<(), SpawnError>| #[trigger]
            initialize.ensures((initializer,), started) && started is Ok,
        None => true,
    }
}

/// The end of a connection that receives a value: the future that puts the value together, the
/// transport it runs over, and what starts the tasks of the connection.
pub struct Coalesce<F, W, I> {
    /// Puts the value together.
    pub fut: F,
    /// What it runs over.
    pub transport: W,
    /// Starts the tasks of the connection, until it has been used.
    pub initializer: Option<I>,
}

impl<F, S, R, L, I> Coalesce<F, Transport<S, R, L>, I> {
    /// What this end shares among its tasks and transports. Frames of the root context go to
    /// `root`.
    pub fn shared<C>(root: C) -> (shared: Shared<C>)
        ensures
            shared.router.wf(),
            shared.router.table() == crate::router::initial_table(root),
            shared.indices.next_handle() == crate::handle::FIRST_COALESCE_HANDLE,
    {
        Shared { router: Router::new(root), indices: HandleAllocator::coalescing() }
    }

    /// An end whose tasks are not started yet.
    pub fn new(fut: F, spawner: S, receiver: R, link: L, initializer: I) -> (end: Self)
        ensures
            end.fut == fut,
            end.transport == (Transport {
                id: crate::handle::ContextHandle(crate::handle::ROOT_HANDLE),
                spawner,
                receiver,
                link,
            }),
            end.initializer == Some(initializer),
    {
        Coalesce {
            fut,
            transport: Transport::root(spawner, receiver, link),
            initializer: Some(initializer),
        }
    }
}

impl<F, W, I> Coalesce<F, W, I> {
    /// Polls this end. The first poll starts the tasks; where that fails the poll fails with it.
    /// Else the future is polled over the transport, and its answer is the answer.
    pub fn poll<V, E, A, B>(&mut self, initialize: A, poll: B) -> (answer: Polled<
        Result<V, WithSpawnError<E>>,
    >) where
        A: FnOnce(I) -> Result<(), SpawnError>,
        B: FnOnce(&mut F, &mut W) -> Polled<Result<V, E>>,

        requires
            old(self).initializer matches Some(initializer) ==> initialize.requires((initializer,)),
            is_started(old(self).initializer, initialize) ==> forall|
                fut: &mut F,
                transport: &mut W,
            |
                *fut == old(self).fut && *transport == old(self).transport ==> #[trigger]
                    poll.requires((fut, transport)),
        ensures
            final(self).initializer is None,
            ({
                &&& old(self).initializer matches Some(initializer)
                &&& final(self).fut == old(self).fut
                &&& final(self).transport == old(self).transport
                &&& exists|cause: SpawnError| #[trigger]
                    initialize.ensures((initializer,), Err(cause)) && answer
                        == Polled::Ready(Err::<V, _>(WithSpawnError::<E>::Spawn(cause)))
            }) || ({
                &&& is_started(old(self).initializer, initialize)
                &&& exists|
                    fut: &mut F,
                    transport: &mut W,
                    polled: Polled<Result<V, E>>,
                | #[trigger]
                    poll.ensures((fut, transport), polled) && *fut == old(self).fut
                        && *final(fut) == final(self).fut && *transport == old(self).transport
                        && *final(transport) == final(self).transport && answer
                        == protocol_answer(polled)
            }),
    {
        if let Some(initializer) = self.initializer.take() {
            if let Err(cause) = initialize(initializer) {
                return Polled::Ready(Err(WithSpawnError::Spawn(cause)));
            }
        }
        answer_with_protocol(poll(&mut self.fut, &mut self.transport))
    }
}

/// How far the sending end is: taking the value apart, or waiting for what that leaves to do.
pub enum UnravelState<T, U> {
    /// The value is being taken apart.
    Target(T),
    /// What that leaves is being done.
    Finalize(U),
}

/// The end of a connection that sends a value: the future that takes the value apart, the
/// transport it runs over, and what starts the tasks of the connection.
pub struct Unravel<T, U, W, I> {
    /// Takes the value apart.
    pub fut: UnravelState<T, U>,
    /// What it runs over.
    pub transport: W,
    /// Starts the tasks of the connection, until it has been used.
    pub initializer: Option<I>,
}

impl<T, U, S, R, L, I> Unravel<T, U, Transport<S, R, L>, I> {
    /// What this end shares among its tasks and transports. Frames of the root context go to
    /// `root`.
    pub fn shared<C>(root: C) -> (shared: Shared<C>)
        ensures
            shared.router.wf(),
            shared.router.table() == crate::router::initial_table(root),
            shared.indices.next_handle() == crate::handle::FIRST_UNRAVEL_HANDLE,
    {
        Shared { router: Router::new(root), indices: HandleAllocator::unraveling() }
    }

    /// An end whose tasks are not started yet.
    pub fn new(target: T, spawner: S, receiver: R, link: L, initializer: I) -> (end: Self)
        ensures
            end.fut == UnravelState::<T, U>::Target(target),
            end.transport == (Transport {
                id: crate::handle::ContextHandle(crate::handle::ROOT_HANDLE),
                spawner,
                receiver,
                link,
            }),
            end.initializer == Some(initializer),
    {
        Unravel {
            fut: UnravelState::Target(target),
            transport: Transport::root(spawner, receiver, link),
            initializer: Some(initializer),
        }
    }
}

impl<T, U, W, I> Unravel<T, U, W, I> {
    /// Polls this end. The first poll starts the tasks; where that fails the poll fails with it.
    /// Else the value is taken apart over the transport, and once that is done, in the same poll
    /// or a later one, what it leaves is done too.
    pub fn poll<E, A, B, C>(
        &mut self,
        initialize: A,
        poll_target: B,
        poll_finalize: C,
    ) -> (answer: Polled<Result<(), WithSpawnError<E>>>) where
        A: FnOnce(I) -> Result<(), SpawnError>,
        B: FnOnce(&mut T, &mut W) -> Polled<Result<U, E>>,
        C: FnOnce(&mut U, &mut W) -> Polled<Result<(), E>>,

        requires
            old(self).initializer matches Some(initializer) ==> initialize.requires((initializer,)),
            is_started(old(self).initializer, initialize) ==> match old(self).fut {
                UnravelState::Target(state) => {
                    &&& forall|target: &mut T, transport: &mut W|
                        *target == state && *transport == old(self).transport ==> #[trigger]
                            poll_target.requires((target, transport))
                    &&& forall|
                        target: &mut T,
                        transport: &mut W,
                        left: U,
                        finalize: &mut U,
                        onward: &mut W,
                    |
                        *target == state && *transport == old(self).transport && #[trigger]
                            poll_target.ensures((target, transport), Polled::Ready(Ok(left)))
                            && *finalize == left && *onward == *final(transport) ==> #[trigger]
                            poll_finalize.requires((finalize, onward))
                },
                UnravelState::Finalize(left) => forall|
                    finalize: &mut U,
                    onward: &mut W,
                |
                    *finalize == left && *onward == old(self).transport ==> #[trigger]
                        poll_finalize.requires((finalize, onward)),
            },
        ensures
            final(self).initializer is None,
            ({
                &&& old(self).initializer matches Some(initializer)
                &&& final(self).fut == old(self).fut
                &&& final(self).transport == old(self).transport
                &&& exists|cause: SpawnError| #[trigger]
                    initialize.ensures((initializer,), Err(cause)) && answer == Polled::Ready(
                        Err::<(), _>(WithSpawnError::<E>::Spawn(cause)),
                    )
            }) || ({
                &&& is_started(old(self).initializer, initialize)
                &&& match old(self).fut {
                    UnravelState::Target(state) => exists|
                        target: &mut T,
                        transport: &mut W,
                        polled: Polled<Result<U, E>>,
                    | #[trigger]
                        poll_target.ensures((target, transport), polled) && *target == state
                            && *transport == old(self).transport && match polled {
                            Polled::Ready(Ok(left)) => exists|
                                finalize: &mut U,
                                onward: &mut W,
                                done: Polled<Result<(), E>>,
                            | #[trigger]
                                poll_finalize.ensures((finalize, onward), done) && *finalize
                                    == left && *onward == *final(transport) && final(self).fut
                                    == UnravelState::<T, U>::Finalize(*final(finalize))
                                    && *final(onward) == final(self).transport && answer
                                    == protocol_answer(done),
                            Polled::Ready(Err(cause)) => final(self).fut == UnravelState::<
                                T,
                                U,
                            >::Target(*final(target)) && *final(transport) == final(self).transport
                                && answer == Polled::Ready(
                                Err::<(), _>(WithSpawnError::Protocol(cause)),
                            ),
                            Polled::Pending => final(self).fut == UnravelState::<T, U>::Target(
                                *final(target),
                            ) && *final(transport) == final(self).transport && answer is Pending,
                        },
                    UnravelState::Finalize(left) => exists|
                        finalize: &mut U,
                        onward: &mut W,
                        done: Polled<Result<(), E>>,
                    | #[trigger]
                        poll_finalize.ensures((finalize, onward), done) && *finalize == left
                            && *onward == old(self).transport && final(self).fut == UnravelState::<
                            T,
                            U,
                        >::Finalize(*final(finalize)) && *final(onward) == final(self).transport
                            && answer == protocol_answer(done),
                }
            }),
    {
        if let Some(initializer) = self.initializer.take() {
            if let Err(cause) = initialize(initializer) {
                return Polled::Ready(Err(WithSpawnError::Spawn(cause)));
            }
        }
        if let UnravelState::Target(target) = &mut self.fut {
            match poll_target(target, &mut self.transport) {
                Polled::Pending => {
                    return Polled::Pending;
                },
                Polled::Ready(Err(cause)) => {
                    return Polled::Ready(Err(WithSpawnError::Protocol(cause)));
                },
                Polled::Ready(Ok(left)) => {
                    self.fut = UnravelState::Finalize(left);
                },
            }
        }
        match &mut self.fut {
            UnravelState::Finalize(finalize) => answer_with_protocol(
                poll_finalize(finalize, &mut self.transport),
            ),
            UnravelState::Target(_) => unreached(),
        }
    }
}

/// Makes the two ends of a connection over framed streams.
#[derive(Debug)]
pub struct ProtocolMveTransport;

impl ProtocolMveTransport {
    /// The end that receives a value.
    pub fn coalesce<F, S, R, L, I>(
        fut: F,
        spawner: S,
        receiver: R,
        link: L,
        initializer: I,
    ) -> (end: Coalesce<F, Transport<S, R, L>, I>)
        ensures
            end.fut == fut,
            end.transport == (Transport {
                id: crate::handle::ContextHandle(crate::handle::ROOT_HANDLE),
                spawner,
                receiver,
                link,
            }),
            end.initializer == Some(initializer),
    {
        Coalesce::new(fut, spawner, receiver, link, initializer)
    }

    /// The end that sends a value.
    pub fn unravel<T, U, S, R, L, I>(
        target: T,
        spawner: S,
        receiver: R,
        link: L,
        initializer: I,
    ) -> (end: Unravel<T, U, Transport<S, R, L>, I>)
        ensures
            end.fut == UnravelState::<T, U>::Target(target),
            end.transport == (Transport {
                id: crate::handle::ContextHandle(crate::handle::ROOT_HANDLE),
                spawner,
                receiver,
                link,
            }),
            end.initializer == Some(initializer),
    {
        Unravel::new(target, spawner, receiver, link, initializer)
    }
}

/// A failed sink is told with its own cause, and a sink that did not fail is not told of.
pub proof fn law_sink_failure_is_told<U>(
    outcome: Result<(), U>,
    error: Option<SerdeWriteError<U>>,
)
    requires
        forwarded::<U>.ensures((outcome,), error),
    ensures
        outcome is Ok ==> error is None,
        outcome matches Err(cause) ==> error == Some(SerdeWriteError::Sink(cause)),
        error == sink_failure(outcome),
{
}

/// Each end starts with the root context alone, whose frames go to the given channel. The end that
/// receives gives out even handles from 2 on, the end that sends odd ones from 1 on.
pub proof fn law_ends_start_with_root<F, T, U, S, R, L, I, C>(
    root: C,
    receiving: Shared<C>,
    sending: Shared<C>,
    handle: u32,
)
    requires
        Coalesce::<F, Transport<S, R, L>, I>::shared::<C>.ensures((root,), receiving),
        Unravel::<T, U, Transport<S, R, L>, I>::shared::<C>.ensures((root,), sending),
    ensures
        receiving.indices.next_handle() == 2,
        sending.indices.next_handle() == 1,
        receiving.router.table().slots.contains_key(handle) <==> handle == 0,
        sending.router.table().slots.contains_key(handle) <==> handle == 0,
        receiving.router.table().slots[0] == Slot::Open(root),
        sending.router.table().slots[0] == Slot::Open(root),
        !receiving.router.table().ended && !sending.router.table().ended,
{
}

/// The tasks are started one after the other, and what the first that does not start answers is
/// the answer; where all start it is that they did.
pub proof fn law_tasks_start_in_order<X, A, B, C>(
    forward: A,
    register: B,
    receive: C,
    started: Result<(), X>,
    first: Result<(), X>,
    second: Result<(), X>,
    third: Result<(), X>,
) where
    A: FnOnce() -> Result<(), X>,
    B: FnOnce() -> Result<(), X>,
    C: FnOnce() -> Result<(), X>,

    requires
        start_tasks::<X, A, B, C>.ensures((forward, register, receive), started),
        forall|outcome: Result<(), X>| #[trigger] forward.ensures((), outcome) ==> outcome == first,
        forall|outcome: Result<(), X>| #[trigger]
            register.ensures((), outcome) ==> outcome == second,
        forall|outcome: Result<(), X>| #[trigger] receive.ensures((), outcome) ==> outcome == third,
    ensures
        forward.ensures((), first),
        first is Err ==> started == first,
        first is Ok ==> register.ensures((), second),
        first is Ok && second is Err ==> started == second,
        first is Ok && second is Ok ==> receive.ensures((), third) && started == third,
{
}

/// Where the tasks do not start, a poll of the receiving end fails with just that, and nothing is
/// polled.
pub proof fn law_coalesce_fails_where_tasks_do_not_start<F, W, I, V, E, A, B>(
    end: &mut Coalesce<F, W, I>,
    initialize: A,
    poll: B,
    answer: Polled<Result<V, WithSpawnError<E>>>,
    initializer: I,
    cause: SpawnError,
) where
    A: FnOnce(I) -> Result<(), SpawnError>,
    B: FnOnce(&mut F, &mut W) -> Polled<Result<V, E>>,

    requires
        Coalesce::<F, W, I>::poll::<V, E, A, B>.ensures((end, initialize, poll), answer),
        old(end).initializer == Some(initializer),
        forall|started: Result<(), SpawnError>| #[trigger]
            initialize.ensures((initializer,), started) ==> started == Err::<(), SpawnError>(cause),
    ensures
        answer == Polled::Ready(Err::<V, _>(WithSpawnError::<E>::Spawn(cause))),
        final(end).initializer is None,
        final(end).fut == old(end).fut && final(end).transport == old(end).transport,
{
}

/// Where the tasks start or have been started, a poll of the receiving end polls its future over
/// its transport, and the answer is the future's own, a failure marked as one of the protocol. The
/// tasks are started where they were not, and only then.
pub proof fn law_coalesce_answers_as_its_future<F, W, I, V, E, A, B>(
    end: &mut Coalesce<F, W, I>,
    initialize: A,
    poll: B,
    answer: Polled<Result<V, WithSpawnError<E>>>,
    outcome: Polled<Result<V, E>>,
) where
    A: FnOnce(I) -> Result<(), SpawnError>,
    B: FnOnce(&mut F, &mut W) -> Polled<Result<V, E>>,

    requires
        Coalesce::<F, W, I>::poll::<V, E, A, B>.ensures((end, initialize, poll), answer),
        forall|initializer: I, started: Result<(), SpawnError>| #[trigger]
            initialize.ensures((initializer,), started) && old(end).initializer == Some(initializer)
                ==> started is Ok,
        forall|fut: &mut F, transport: &mut W, polled: Polled<Result<V, E>>| #[trigger]
            poll.ensures((fut, transport), polled) && *fut == old(end).fut && *transport
                == old(end).transport ==> polled == outcome,
    ensures
        match outcome {
            Polled::Pending => answer is Pending,
            Polled::Ready(Ok(value)) => answer == Polled::Ready(
                Ok::<V, WithSpawnError<E>>(value),
            ),
            Polled::Ready(Err(cause)) => answer == Polled::Ready(
                Err::<V, _>(WithSpawnError::<E>::Protocol(cause)),
            ),
        },
        final(end).initializer is None,
        old(end).initializer matches Some(initializer) ==> exists|
            started: Result<(), SpawnError>,
        | #[trigger]
            initialize.ensures((initializer,), started) && started is Ok,
        exists|fut: &mut F, transport: &mut W| #[trigger]
            poll.ensures((fut, transport), outcome) && *fut == old(end).fut && *transport
                == old(end).transport && *final(fut) == final(end).fut && *final(transport)
                == final(end).transport,
{
    assert(forall|cause: SpawnError| !(Err::<(), SpawnError>(cause) is Ok));
}

/// Where the tasks do not start, a poll of the sending end fails with just that, and nothing is
/// polled.
pub proof fn law_unravel_fails_where_tasks_do_not_start<T, U, W, I, E, A, B, C>(
    end: &mut Unravel<T, U, W, I>,
    initialize: A,
    poll_target: B,
    poll_finalize: C,
    answer: Polled<Result<(), WithSpawnError<E>>>,
    initializer: I,
    cause: SpawnError,
) where
    A: FnOnce(I) -> Result<(), SpawnError>,
    B: FnOnce(&mut T, &mut W) -> Polled<Result<U, E>>,
    C: FnOnce(&mut U, &mut W) -> Polled<Result<(), E>>,

    requires
        Unravel::<T, U, W, I>::poll::<E, A, B, C>.ensures(
            (end, initialize, poll_target, poll_finalize),
            answer,
        ),
        old(end).initializer == Some(initializer),
        forall|started: Result<(), SpawnError>| #[trigger]
            initialize.ensures((initializer,), started) ==> started == Err::<(), SpawnError>(cause),
    ensures
        answer == Polled::Ready(Err::<(), _>(WithSpawnError::<E>::Spawn(cause))),
        final(end).initializer is None,
        final(end).fut == old(end).fut && final(end).transport == old(end).transport,
{
}

/// Where the tasks start or have been started, a poll of the sending end that is still taking its
/// value apart goes on with that. It waits where that waits and fails where that fails, marked as
/// a failure of the protocol. Once the value is taken apart, in the same poll, it goes on with what
/// that left, and the answer is the answer of that.
pub proof fn law_unravel_takes_apart_and_goes_on<T, U, W, I, E, A, B, C>(
    end: &mut Unravel<T, U, W, I>,
    initialize: A,
    poll_target: B,
    poll_finalize: C,
    answer: Polled<Result<(), WithSpawnError<E>>>,
    target: T,
    outcome: Polled<Result<U, E>>,
    done: Polled<Result<(), E>>,
) where
    A: FnOnce(I) -> Result<(), SpawnError>,
    B: FnOnce(&mut T, &mut W) -> Polled<Result<U, E>>,
    C: FnOnce(&mut U, &mut W) -> Polled<Result<(), E>>,

    requires
        Unravel::<T, U, W, I>::poll::<E, A, B, C>.ensures(
            (end, initialize, poll_target, poll_finalize),
            answer,
        ),
        forall|initializer: I, started: Result<(), SpawnError>| #[trigger]
            initialize.ensures((initializer,), started) && old(end).initializer == Some(initializer)
                ==> started is Ok,
        old(end).fut == UnravelState::<T, U>::Target(target),
        forall|state: &mut T, transport: &mut W, polled: Polled<Result<U, E>>| #[trigger]
            poll_target.ensures((state, transport), polled) && *state == target && *transport
                == old(end).transport ==> polled == outcome,
        forall|left: &mut U, transport: &mut W, polled: Polled<Result<(), E>>| #[trigger]
            poll_finalize.ensures((left, transport), polled) ==> polled == done,
    ensures
        final(end).initializer is None,
        match outcome {
            Polled::Pending => answer is Pending && final(end).fut is Target,
            Polled::Ready(Err(cause)) => answer == Polled::Ready(
                Err::<(), _>(WithSpawnError::<E>::Protocol(cause)),
            ) && final(end).fut is Target,
            Polled::Ready(Ok(left)) => final(end).fut is Finalize && (exists|
                state: &mut U,
                transport: &mut W,
            | #[trigger]
                poll_finalize.ensures((state, transport), done) && *state == left
                    && final(end).fut == UnravelState::<T, U>::Finalize(*final(state))
                        && *final(transport) == final(end).transport) && match done {
                Polled::Pending => answer is Pending,
                Polled::Ready(Ok(_)) => answer matches Polled::Ready(Ok(_)),
                Polled::Ready(Err(cause)) => answer == Polled::Ready(
                    Err::<(), _>(WithSpawnError::<E>::Protocol(cause)),
                ),
            },
        },
{
    assert(forall|cause: SpawnError| !(Err::<(), SpawnError>(cause) is Ok));
}

/// Where the tasks start or have been started, a poll of the sending end that has taken its value
/// apart goes on with what that left, and the answer is the answer of that, a failure marked as
/// one of the protocol.
pub proof fn law_unravel_answers_as_what_is_left<T, U, W, I, E, A, B, C>(
    end: &mut Unravel<T, U, W, I>,
    initialize: A,
    poll_target: B,
    poll_finalize: C,
    answer: Polled<Result<(), WithSpawnError<E>>>,
    left: U,
    done: Polled<Result<(), E>>,
) where
    A: FnOnce(I) -> Result<(), SpawnError>,
    B: FnOnce(&mut T, &mut W) -> Polled<Result<U, E>>,
    C: FnOnce(&mut U, &mut W) -> Polled<Result<(), E>>,

    requires
        Unravel::<T, U, W, I>::poll::<E, A, B, C>.ensures(
            (end, initialize, poll_target, poll_finalize),
            answer,
        ),
        forall|initializer: I, started: Result<(), SpawnError>| #[trigger]
            initialize.ensures((initializer,), started) && old(end).initializer == Some(initializer)
                ==> started is Ok,
        old(end).fut == UnravelState::<T, U>::Finalize(left),
        forall|state: &mut U, transport: &mut W, polled: Polled<Result<(), E>>| #[trigger]
            poll_finalize.ensures((state, transport), polled) && *state == left && *transport
                == old(end).transport ==> polled == done,
    ensures
        final(end).initializer is None,
        exists|state: &mut U, transport: &mut W| #[trigger]
            poll_finalize.ensures((state, transport), done) && *state == left && *transport
                == old(end).transport && final(end).fut == UnravelState::<T, U>::Finalize(
                *final(state),
            ) && *final(transport) == final(end).transport,
        match done {
            Polled::Pending => answer is Pending,
            Polled::Ready(Ok(_)) => answer matches Polled::Ready(Ok(_)),
            Polled::Ready(Err(cause)) => answer == Polled::Ready(
                Err::<(), _>(WithSpawnError::<E>::Protocol(cause)),
            ),
        },
{
    assert(forall|cause: SpawnError| !(Err::<(), SpawnError>(cause) is Ok));
}

/// A new end holds what it was made of, over the transport of the root context, and its tasks are
/// still to be started. Both ways to make it make the same.
pub proof fn law_new_ends_are_not_started<F, T, U, S, R, L, I>(
    fut: F,
    target: T,
    spawner: S,
    receiver: R,
    link: L,
    initializer: I,
    receiving: Coalesce<F, Transport<S, R, L>, I>,
    also_receiving: Coalesce<F, Transport<S, R, L>, I>,
    sending: Unravel<T, U, Transport<S, R, L>, I>,
    also_sending: Unravel<T, U, Transport<S, R, L>, I>,
)
    requires
        Coalesce::<F, Transport<S, R, L>, I>::new.ensures(
            (fut, spawner, receiver, link, initializer),
            receiving,
        ),
        ProtocolMveTransport::coalesce::<F, S, R, L, I>.ensures(
            (fut, spawner, receiver, link, initializer),
            also_receiving,
        ),
        Unravel::<T, U, Transport<S, R, L>, I>::new.ensures(
            (target, spawner, receiver, link, initializer),
            sending,
        ),
        ProtocolMveTransport::unravel::<T, U, S, R, L, I>.ensures(
            (target, spawner, receiver, link, initializer),
            also_sending,
        ),
    ensures
        receiving.fut == fut && receiving.initializer == Some(initializer),
        receiving.transport.id.0 == 0 && receiving.transport.spawner == spawner,
        receiving.transport.receiver == receiver && receiving.transport.link == link,
        also_receiving == receiving,
        sending.fut == UnravelState::<T, U>::Target(target),
        sending.initializer == Some(initializer),
        sending.transport == receiving.transport,
        also_sending == sending,
{
}

/// Both ends can be polled wherever their tasks can be started and their futures polled, and the
/// tasks can be started wherever each of them can.
pub proof fn law_ends_can_be_polled<F, T, U, W, I, V, E, X, A, B, M, N, O, P, Q>(
    receiving: &mut Coalesce<F, W, I>,
    sending: &mut Unravel<T, U, W, I>,
    initialize: A,
    poll: B,
    poll_target: M,
    poll_finalize: N,
    forward: O,
    register: P,
    receive: Q,
) where
    A: FnOnce(I) -> Result<(), SpawnError>,
    B: FnOnce(&mut F, &mut W) -> Polled<Result<V, E>>,
    M: FnOnce(&mut T, &mut W) -> Polled<Result<U, E>>,
    N: FnOnce(&mut U, &mut W) -> Polled<Result<(), E>>,
    O: FnOnce() -> Result<(), X>,
    P: FnOnce() -> Result<(), X>,
    Q: FnOnce() -> Result<(), X>,

    requires
        forall|initializer: I| #[trigger] initialize.requires((initializer,)),
        forall|fut: &mut F, transport: &mut W| #[trigger] poll.requires((fut, transport)),
        forall|target: &mut T, transport: &mut W| #[trigger]
            poll_target.requires((target, transport)),
        forall|left: &mut U, transport: &mut W| #[trigger]
            poll_finalize.requires((left, transport)),
        forward.requires(()) && register.requires(()) && receive.requires(()),
    ensures
        Coalesce::<F, W, I>::poll::<V, E, A, B>.requires((receiving, initialize, poll)),
        Unravel::<T, U, W, I>::poll::<E, A, M, N>.requires(
            (sending, initialize, poll_target, poll_finalize),
        ),
        start_tasks::<X, O, P, Q>.requires((forward, register, receive)),
{
}

/// Where the tasks cannot be started, an end can be polled whatever its future does.
pub proof fn law_ends_that_do_not_start_can_be_polled<F, T, U, W, I, V, E, A, B, M, N>(
    receiving: &mut Coalesce<F, W, I>,
    sending: &mut Unravel<T, U, W, I>,
    initialize: A,
    poll: B,
    poll_target: M,
    poll_finalize: N,
) where
    A: FnOnce(I) -> Result<(), SpawnError>,
    B: FnOnce(&mut F, &mut W) -> Polled<Result<V, E>>,
    M: FnOnce(&mut T, &mut W) -> Polled<Result<U, E>>,
    N: FnOnce(&mut U, &mut W) -> Polled<Result<(), E>>,

    requires
        old(receiving).initializer is Some && old(sending).initializer is Some,
        forall|initializer: I| #[trigger] initialize.requires((initializer,)),
        forall|initializer: I, started: Result<(), SpawnError>| #[trigger]
            initialize.ensures((initializer,), started) ==> started is Err,
    ensures
        Coalesce::<F, W, I>::poll::<V, E, A, B>.requires((receiving, initialize, poll)),
        Unravel::<T, U, W, I>::poll::<E, A, M, N>.requires(
            (sending, initialize, poll_target, poll_finalize),
        ),
{
}

} // verus!
