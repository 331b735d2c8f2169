//! The transport of one context: what it writes, what its reads answer, and how it makes
//! transports for further contexts.
use vstd::prelude::*;
use crate::codec::{deserialize_number, serialize_number};
use crate::error::{SerdeReadError, SerdeWriteError};
use crate::frame::{encode_frame, law_frame_layout, law_frame_parts, payload, HEADER_LEN};
use crate::handle::{ContextHandle, HandleAllocator, ROOT_HANDLE};
use crate::poll::Polled;
use crate::router::Registration;

verus! {

/// How many frames a channel holds before its sender has to wait.
pub const CHANNEL_CAPACITY: usize = 1;

/// One end of a context. `S` spawns tasks, `R` is where the frames of the context come out, and
/// `L` is what all transports of a connection share: the way out, the two error slots, the
/// counter behind the handles and the way to the router.
#[derive(Debug)]
pub struct Transport<S, R, L> {
    /// The context.
    pub id: ContextHandle,
    /// Spawns tasks.
    pub spawner: S,
    /// Where the frames of the context come out.
    pub receiver: R,
    /// What all transports of the connection share.
    pub link: L,
}

/// Whether `copy` is `original` with another context and another receiver: it spawns with the
/// same spawner and shares the same connection.
pub open spec fn shares_connection<S: Clone, R, L: Clone>(
    original: Transport<S, R, L>,
    copy: Transport<S, R, L>,
) -> bool {
    cloned(original.spawner, copy.spawner) && cloned(original.link, copy.link)
}

/// Whether an error slot of the connection holds an error.
pub open spec fn has_failed<E, X>(slot: Polled<Result<E, X>>) -> bool {
    slot matches Polled::Ready(Ok(_))
}

/// Whether asking the connection for its error, by `failure`, can find that there is none.
pub open spec fn may_go_on<L, E, X, G: FnOnce(&mut L) -> Polled<Result<E, X>>>(
    link: L,
    failure: G,
) -> bool {
    exists|asked: &mut L, slot: Polled<Result<E, X>>| #[trigger]
        failure.ensures((asked,), slot) && *asked == link && !has_failed(slot)
}

/// Whether every frame that `next` can take from `receiver` is long enough to be taken apart. The
/// router lets no other frames through.
pub open spec fn gives_whole_frames<R, N: FnOnce(&mut R) -> Polled<Option<Vec<u8>>>>(
    receiver: R,
    next: N,
) -> bool {
    forall|polled: &mut R, data: Vec<u8>| #[trigger]
        next.ensures((polled,), Polled::Ready(Some(data))) && *polled == receiver ==> data@.len()
            >= HEADER_LEN
}

/// What a read makes of what the payload decoded to.
pub open spec fn read_item<T, I, D>(decoded: Result<I, D>) -> Result<I, SerdeReadError<T>> {
    match decoded {
        Ok(item) => Ok(item),
        Err(_) => Err(SerdeReadError::Serde),
    }
}

/// What a read answers to what its receiver gave, where `decode` turns a payload into an item.
pub open spec fn is_item_answer<T, I, D, F: FnOnce(&[u8]) -> Result<I, D>>(
    frame: Polled<Option<Vec<u8>>>,
    decode: F,
    answer: Polled<Result<I, SerdeReadError<T>>>,
) -> bool {
    match frame {
        Polled::Pending => answer is Pending,
        Polled::Ready(None) => answer == Polled::Ready(
            Err::<I, _>(SerdeReadError::<T>::Terminated),
        ),
        Polled::Ready(Some(data)) => exists|bytes: &[u8], decoded: Result<I, D>| #[trigger]
            decode.ensures((bytes,), decoded) && bytes@ == crate::frame::frame_payload(data@)
                && answer == Polled::Ready(read_item::<T, I, D>(decoded)),
    }
}

/// Whether a read of `transport` can answer `answer`. The connection is asked for its error by
/// `failure`, and where there is one it is the answer. Else the answer is what comes of the frame
/// that `next` takes from the receiver.
pub open spec fn is_read_answer<S, R, L, T, X, I, D, G, N, F>(
    transport: Transport<S, R, L>,
    failure: G,
    next: N,
    decode: F,
    answer: Polled<Result<I, SerdeReadError<T>>>,
) -> bool where
    G: FnOnce(&mut L) -> Polled<Result<SerdeReadError<T>, X>>,
    N: FnOnce(&mut R) -> Polled<Option<Vec<u8>>>,
    F: FnOnce(&[u8]) -> Result<I, D>,
 {
    exists|link: &mut L, slot: Polled<Result<SerdeReadError<T>, X>>| #[trigger]
        failure.ensures((link,), slot) && *link == transport.link && match slot {
            Polled::Ready(Ok(error)) => answer == Polled::Ready(Err::<I, _>(error)),
            _ => exists|receiver: &mut R, frame: Polled<Option<Vec<u8>>>| #[trigger]
                next.ensures((receiver,), frame) && *receiver == transport.receiver
                    && is_item_answer(frame, decode, answer),
        }
}

/// What a read of a handle answers to what its receiver gave.
pub open spec fn handle_answer<T>(frame: Polled<Option<Vec<u8>>>) -> Polled<
    Result<u32, SerdeReadError<T>>,
> {
    match frame {
        Polled::Pending => Polled::Pending,
        Polled::Ready(None) => Polled::Ready(Err(SerdeReadError::Terminated)),
        Polled::Ready(Some(data)) => Polled::Ready(
            match crate::codec::decoded_number(crate::frame::frame_payload(data@)) {
                Some(item) => Ok(item),
                None => Err(SerdeReadError::Serde),
            },
        ),
    }
}

/// What a poll of the way out answers where the connection has not failed.
pub open spec fn sink_answer<U>(outcome: Polled<()>) -> Polled<Result<(), SerdeWriteError<U>>> {
    match outcome {
        Polled::Ready(()) => Polled::Ready(Ok(())),
        Polled::Pending => Polled::Pending,
    }
}

/// Whether the frame of `payload` for the context of `before` can be put on the way out.
pub open spec fn can_send<S, R, L, N: FnOnce(&mut L, Vec<u8>)>(
    before: Transport<S, R, L>,
    payload: Seq<u8>,
    send: N,
) -> bool {
    forall|link: &mut L, data: Vec<u8>|
        *link == before.link && data@ == crate::frame::frame(before.id.0, payload) ==> #[trigger]
            send.requires((link, data))
}

impl<S: Clone, R: Clone, L: Clone> Clone for Transport<S, R, L> {
    fn clone(&self) -> (copy: Self)
        ensures
            copy.id == self.id,
            cloned(self.receiver, copy.receiver),
            shares_connection(*self, copy),
    {
        Transport {
            id: self.id,
            spawner: self.spawner.clone(),
            receiver: self.receiver.clone(),
            link: self.link.clone(),
        }
    }
}

impl<S: Clone, R, L: Clone> Transport<S, R, L> {
    /// A transport for a context that this side opens, with a handle of its own, and what has to
    /// be handed to the router for it. The channel leads from the router to the new transport.
    pub fn next_id<C>(&self, indices: &mut HandleAllocator, channel: (C, R)) -> (made: (
        Self,
        Registration<C>,
    ))
        ensures
            made.0.id.0 == old(indices).next_handle(),
            final(indices).next_handle() == crate::handle::nth_handle(
                old(indices).next_handle(),
                1,
            ),
            made.0.receiver == channel.1,
            shares_connection(*self, made.0),
            made.1 == (Registration { handle: made.0.id, channel: channel.0 }),
    {
        let id = indices.allocate();
        self.with_id(id, channel)
    }

    /// A transport for the context `id`, and what has to be handed to the router for it. The
    /// channel leads from the router to the new transport.
    pub fn with_id<C>(&self, id: ContextHandle, channel: (C, R)) -> (made: (
        Self,
        Registration<C>,
    ))
        ensures
            made.0.id == id,
            made.0.receiver == channel.1,
            shares_connection(*self, made.0),
            made.1 == (Registration { handle: id, channel: channel.0 }),
    {
        let (sender, receiver) = channel;
        let transport = Transport {
            id,
            spawner: self.spawner.clone(),
            receiver,
            link: self.link.clone(),
        };
        (transport, Registration { handle: id, channel: sender })
    }
}

impl<S, R, L> Transport<S, R, L> {
    /// Reads an item. `failure` polls the connection for its error, which comes first; then no
    /// frame is taken. Else `next` polls the receiver, and `decode` turns the payload of the frame
    /// into the item.
    pub fn read<T, X, I, D, G, N, F>(&mut self, failure: G, next: N, decode: F) -> (answer: Polled<
        Result<I, SerdeReadError<T>>,
    >) where
        G: FnOnce(&mut L) -> Polled<Result<SerdeReadError<T>, X>>,
        N: FnOnce(&mut R) -> Polled<Option<Vec<u8>>>,
        F: FnOnce(&[u8]) -> Result<I, D>,

        requires
            forall|link: &mut L| *link == old(self).link ==> #[trigger] failure.requires((link,)),
            may_go_on(old(self).link, failure) ==> {
                &&& forall|receiver: &mut R|
                    *receiver == old(self).receiver ==> #[trigger] next.requires((receiver,))
                &&& gives_whole_frames(old(self).receiver, next)
                &&& forall|receiver: &mut R, data: Vec<u8>, bytes: &[u8]| #[trigger]
                    next.ensures((receiver,), Polled::Ready(Some(data))) && *receiver
                        == old(self).receiver && bytes@
                            == crate::frame::frame_payload(data@) ==> #[trigger]
                        decode.requires((bytes,))
            },
        ensures
            is_read_answer(*old(self), failure, next, decode, answer),
            final(self).id == old(self).id,
            final(self).spawner == old(self).spawner,
            exists|link: &mut L, slot: Polled<Result<SerdeReadError<T>, X>>| #[trigger]
                failure.ensures((link,), slot) && *link == old(self).link && *final(link)
                    == final(self).link && match slot {
                    Polled::Ready(Ok(error)) => final(self).receiver == old(self).receiver && answer
                        == Polled::Ready(Err::<I, _>(error)),
                    _ => exists|receiver: &mut R, frame: Polled<Option<Vec<u8>>>| #[trigger]
                        next.ensures((receiver,), frame) && *receiver == old(self).receiver
                            && *final(receiver) == final(self).receiver && is_item_answer(
                            frame,
                            decode,
                            answer,
                        ),
                },
    {
        if let Polled::Ready(Ok(error)) = failure(&mut self.link) {
            return Polled::Ready(Err(error));
        }
        match next(&mut self.receiver) {
            Polled::Pending => Polled::Pending,
            Polled::Ready(None) => Polled::Ready(Err(SerdeReadError::Terminated)),
            Polled::Ready(Some(data)) => {
                let decoded = decode(payload(data.as_slice()));
                Polled::Ready(Self::finish_read(decoded))
            },
        }
    }

    /// What a read makes of what the payload of its frame decoded to.
    pub fn finish_read<T, I, D>(decoded: Result<I, D>) -> (item: Result<I, SerdeReadError<T>>)
        ensures
            item == read_item::<T, I, D>(decoded),
    {
        match decoded {
            Ok(item) => Ok(item),
            Err(_) => Err(SerdeReadError::Serde),
        }
    }

    /// Writes an item, given what it encoded to. `send` puts the frame on the way out.
    pub fn write<U, D, N>(&mut self, encoded: Result<Vec<u8>, D>, send: N) -> (written: Result<
        (),
        SerdeWriteError<U>,
    >) where N: FnOnce(&mut L, Vec<u8>)
        requires
            encoded matches Ok(bytes) ==> can_send(*old(self), bytes@, send),
        ensures
            final(self).id == old(self).id,
            final(self).spawner == old(self).spawner,
            final(self).receiver == old(self).receiver,
            match encoded {
                Ok(bytes) => written is Ok && exists|link: &mut L, data: Vec<u8>| #[trigger]
                    send.ensures((link, data), ()) && *link == old(self).link && *final(link)
                        == final(self).link && data@ == crate::frame::frame(
                        old(self).id.0,
                        bytes@,
                    ),
                Err(_) => written == Err::<(), _>(SerdeWriteError::<U>::Serde) && final(self).link
                    == old(self).link,
            },
    {
        match encoded {
            Ok(bytes) => {
                let data = encode_frame(self.id, bytes);
                send(&mut self.link, data);
                Ok(())
            },
            Err(_) => Err(SerdeWriteError::Serde),
        }
    }
}

impl<S, R, L> Transport<S, R, L> {
    /// The transport of the root context.
    pub fn root(spawner: S, receiver: R, link: L) -> (transport: Self)
        ensures
            transport == (Transport { id: ContextHandle(ROOT_HANDLE), spawner, receiver, link }),
    {
        Transport { id: ContextHandle(ROOT_HANDLE), spawner, receiver, link }
    }

    /// Whether a frame can be put on the way out. `failure` polls the connection for its error,
    /// which comes first; else `ready` polls the way out.
    pub fn poll_ready<U, X, G, N>(&mut self, failure: G, ready: N) -> (answer: Polled<
        Result<(), SerdeWriteError<U>>,
    >) where
        G: FnOnce(&mut L) -> Polled<Result<SerdeWriteError<U>, X>>,
        N: FnOnce(&mut L) -> Polled<()>,

        requires
            forall|link: &mut L| *link == old(self).link ==> #[trigger] failure.requires((link,)),
            forall|link: &mut L, slot: Polled<Result<SerdeWriteError<U>, X>>, onward: &mut L|
                *link == old(self).link && #[trigger] failure.ensures((link,), slot) && !has_failed(
                    slot,
                ) && *onward == *final(link) ==> #[trigger] ready.requires((onward,)),
        ensures
            final(self).id == old(self).id,
            final(self).spawner == old(self).spawner,
            final(self).receiver == old(self).receiver,
            exists|link: &mut L, slot: Polled<Result<SerdeWriteError<U>, X>>| #[trigger]
                failure.ensures((link,), slot) && *link == old(self).link && match slot {
                    Polled::Ready(Ok(error)) => *final(link) == final(self).link && answer
                        == Polled::Ready(Err::<(), _>(error)),
                    _ => exists|onward: &mut L, outcome: Polled<()>| #[trigger]
                        ready.ensures((onward,), outcome) && *onward == *final(link)
                            && *final(onward) == final(self).link && answer == sink_answer::<U>(
                            outcome,
                        ),
                },
    {
        if let Polled::Ready(Ok(error)) = failure(&mut self.link) {
            return Polled::Ready(Err(error));
        }
        match ready(&mut self.link) {
            Polled::Ready(()) => Polled::Ready(Ok(())),
            Polled::Pending => Polled::Pending,
        }
    }

    /// Whether every frame has gone out. `failure` polls the connection for its error, which comes
    /// first; else `flush` polls the way out.
    pub fn poll_flush<U, X, G, N>(&mut self, failure: G, flush: N) -> (answer: Polled<
        Result<(), SerdeWriteError<U>>,
    >) where
        G: FnOnce(&mut L) -> Polled<Result<SerdeWriteError<U>, X>>,
        N: FnOnce(&mut L) -> Polled<()>,

        requires
            forall|link: &mut L| *link == old(self).link ==> #[trigger] failure.requires((link,)),
            forall|link: &mut L, slot: Polled<Result<SerdeWriteError<U>, X>>, onward: &mut L|
                *link == old(self).link && #[trigger] failure.ensures((link,), slot) && !has_failed(
                    slot,
                ) && *onward == *final(link) ==> #[trigger] flush.requires((onward,)),
        ensures
            final(self).id == old(self).id,
            final(self).spawner == old(self).spawner,
            final(self).receiver == old(self).receiver,
            exists|link: &mut L, slot: Polled<Result<SerdeWriteError<U>, X>>| #[trigger]
                failure.ensures((link,), slot) && *link == old(self).link && match slot {
                    Polled::Ready(Ok(error)) => *final(link) == final(self).link && answer
                        == Polled::Ready(Err::<(), _>(error)),
                    _ => exists|onward: &mut L, outcome: Polled<()>| #[trigger]
                        flush.ensures((onward,), outcome) && *onward == *final(link)
                            && *final(onward) == final(self).link && answer == sink_answer::<U>(
                            outcome,
                        ),
                },
    {
        if let Polled::Ready(Ok(error)) = failure(&mut self.link) {
            return Polled::Ready(Err(error));
        }
        match flush(&mut self.link) {
            Polled::Ready(()) => Polled::Ready(Ok(())),
            Polled::Pending => Polled::Pending,
        }
    }

    /// Writes a handle as an item. `send` puts the frame on the way out.
    pub fn write_handle<U, N>(&mut self, item: u32, send: N) -> (written: Result<
        (),
        SerdeWriteError<U>,
    >) where N: FnOnce(&mut L, Vec<u8>)
        requires
            can_send(*old(self), crate::codec::little_endian(item), send),
        ensures
            written is Ok,
            final(self).id == old(self).id,
            final(self).spawner == old(self).spawner,
            final(self).receiver == old(self).receiver,
            exists|link: &mut L, data: Vec<u8>| #[trigger]
                send.ensures((link, data), ()) && *link == old(self).link && *final(link)
                    == final(self).link && data@ == crate::frame::frame(
                    old(self).id.0,
                    crate::codec::little_endian(item),
                ),
    {
        self.write(serialize_number(item), send)
    }

    /// Reads a handle. `failure` polls the connection for its error, and `next` the receiver.
    pub fn read_handle<T, X, G, N>(&mut self, failure: G, next: N) -> (answer: Polled<
        Result<u32, SerdeReadError<T>>,
    >) where
        G: FnOnce(&mut L) -> Polled<Result<SerdeReadError<T>, X>>,
        N: FnOnce(&mut R) -> Polled<Option<Vec<u8>>>,

        requires
            forall|link: &mut L| *link == old(self).link ==> #[trigger] failure.requires((link,)),
            may_go_on(old(self).link, failure) ==> {
                &&& forall|receiver: &mut R|
                    *receiver == old(self).receiver ==> #[trigger] next.requires((receiver,))
                &&& gives_whole_frames(old(self).receiver, next)
            },
        ensures
            final(self).id == old(self).id,
            final(self).spawner == old(self).spawner,
            exists|link: &mut L, slot: Polled<Result<SerdeReadError<T>, X>>| #[trigger]
                failure.ensures((link,), slot) && *link == old(self).link && *final(link)
                    == final(self).link && match slot {
                    Polled::Ready(Ok(error)) => final(self).receiver == old(self).receiver && answer
                        == Polled::Ready(Err::<u32, _>(error)),
                    _ => exists|receiver: &mut R, frame: Polled<Option<Vec<u8>>>| #[trigger]
                        next.ensures((receiver,), frame) && *receiver == old(self).receiver
                            && *final(receiver) == final(self).receiver && answer
                            == handle_answer::<T>(frame),
                },
    {
        self.read(failure, next, deserialize_number)
    }
}

/// A future that runs over a transport of its own.
#[derive(Debug)]
pub struct Contextualized<F, W> {
    /// The future.
    pub fut: F,
    /// What it runs over.
    pub transport: W,
}

impl<F, W> Contextualized<F, W> {
    /// Polls the future, over its transport, and hands its answer on.
    pub fn poll<A, N>(&mut self, poll: N) -> (answer: A) where
        N: FnOnce(&mut F, &mut W) -> A,

        requires
            forall|fut: &mut F, transport: &mut W|
                *fut == old(self).fut && *transport == old(self).transport ==> #[trigger]
                    poll.requires((fut, transport)),
        ensures
            exists|fut: &mut F, transport: &mut W| #[trigger]
                poll.ensures((fut, transport), answer) && *fut == old(self).fut && *transport
                    == old(self).transport && *final(fut) == final(self).fut && *final(transport)
                    == final(self).transport,
    {
        poll(&mut self.fut, &mut self.transport)
    }
}

/// Whether `task` runs `fut` over a copy of `transport`.
pub open spec fn is_task<F, S: Clone, R: Clone, L: Clone>(
    transport: Transport<S, R, L>,
    fut: F,
    task: Contextualized<F, Transport<S, R, L>>,
) -> bool {
    &&& task.fut == fut
    &&& task.transport.id == transport.id
    &&& cloned(transport.receiver, task.transport.receiver)
    &&& shares_connection(transport, task.transport)
}

impl<S: Clone, R: Clone, L: Clone> Transport<S, R, L> {
    /// Spawns a future that goes on by itself, over a copy of this transport, and hands on what
    /// the spawner answers. `spawn` asks the spawner.
    pub fn finalize<F, A, N>(&self, fut: F, spawn: N) -> (answer: A) where
        N: FnOnce(&S, Contextualized<F, Transport<S, R, L>>) -> A,

        requires
            forall|task: Contextualized<F, Transport<S, R, L>>|
                is_task(*self, fut, task) ==> #[trigger] spawn.requires((&self.spawner, task)),
        ensures
            exists|task: Contextualized<F, Transport<S, R, L>>| #[trigger]
                spawn.ensures((&self.spawner, task), answer) && is_task(*self, fut, task),
    {
        self.finalize_immediate(fut, spawn)
    }

    /// Spawns a future that goes on by itself, over a copy of this transport, and hands on what
    /// the spawner answers. `spawn` asks the spawner.
    pub fn finalize_immediate<F, A, N>(&self, fut: F, spawn: N) -> (answer: A) where
        N: FnOnce(&S, Contextualized<F, Transport<S, R, L>>) -> A,

        requires
            forall|task: Contextualized<F, Transport<S, R, L>>|
                is_task(*self, fut, task) ==> #[trigger] spawn.requires((&self.spawner, task)),
        ensures
            exists|task: Contextualized<F, Transport<S, R, L>>| #[trigger]
                spawn.ensures((&self.spawner, task), answer) && is_task(*self, fut, task),
    {
        let task = Contextualized { fut, transport: self.clone() };
        spawn(&self.spawner, task)
    }
}

/// An item goes out as it encoded: in one frame, behind the four bytes of the transport's own
/// handle in big-endian place value. An item that does not encode is answered with an error, and
/// nothing goes out.
pub proof fn law_item_goes_out_as_encoded<S, R, L, U, D, N: FnOnce(&mut L, Vec<u8>)>(
    transport: &mut Transport<S, R, L>,
    encoded: Result<Vec<u8>, D>,
    send: N,
    written: Result<(), SerdeWriteError<U>>,
)
    requires
        Transport::<S, R, L>::write::<U, D, N>.ensures((transport, encoded, send), written),
    ensures
        final(transport).id == old(transport).id,
        final(transport).spawner == old(transport).spawner,
        final(transport).receiver == old(transport).receiver,
        match encoded {
            Ok(bytes) => {
                &&& written is Ok
                &&& exists|link: &mut L, data: Vec<u8>| #[trigger]
                    send.ensures((link, data), ()) && *link == old(transport).link && *final(link)
                        == final(transport).link && data@.len() == 4 + bytes@.len() && data@[0]
                        * 0x100_0000 + data@[1] * 0x1_0000 + data@[2] * 0x100 + data@[3]
                        == old(transport).id.0 && data@.subrange(4, data@.len() as int) == bytes@
            },
            Err(_) => {
                &&& written == Err::<(), _>(SerdeWriteError::<U>::Serde)
                &&& final(transport).link == old(transport).link
            },
        },
{
    if let Ok(bytes) = encoded {
        let (link, data) = choose|link: &mut L, data: Vec<u8>| #[trigger]
            send.ensures((link, data), ()) && *link == old(transport).link && *final(link)
                == final(transport).link && data@ == crate::frame::frame(
                old(transport).id.0,
                bytes@,
            );
        law_frame_layout(old(transport).id.0, bytes@);
        assert(data@.subrange(4, data@.len() as int) =~= bytes@);
    }
}

/// A handle goes out as an item of four bytes in little-endian place value, behind the four bytes
/// of the transport's own handle in big-endian place value.
pub proof fn law_handle_goes_out_in_eight_bytes<S, R, L, U, N: FnOnce(&mut L, Vec<u8>)>(
    transport: &mut Transport<S, R, L>,
    item: u32,
    send: N,
    written: Result<(), SerdeWriteError<U>>,
)
    requires
        Transport::<S, R, L>::write_handle::<U, N>.ensures((transport, item, send), written),
    ensures
        written is Ok,
        exists|link: &mut L, data: Vec<u8>| #[trigger]
            send.ensures((link, data), ()) && *link == old(transport).link && *final(link)
                == final(transport).link && data@.len() == 8 && data@[0] * 0x100_0000 + data@[1]
                * 0x1_0000 + data@[2] * 0x100 + data@[3] == old(transport).id.0 && data@[4]
                + data@[5] * 0x100 + data@[6] * 0x1_0000 + data@[7] * 0x100_0000 == item,
{
    let (link, data) = choose|link: &mut L, data: Vec<u8>| #[trigger]
        send.ensures((link, data), ()) && *link == old(transport).link && *final(link)
            == final(transport).link && data@ == crate::frame::frame(
            old(transport).id.0,
            crate::codec::little_endian(item),
        );
    law_frame_layout(old(transport).id.0, crate::codec::little_endian(item));
    crate::codec::law_number_is_little_endian(item);
    let bytes = crate::codec::little_endian(item);
    assert(data@.subrange(4, 8) =~= bytes);
    assert(data@.subrange(4, 8)[0] == data@[4] && data@.subrange(4, 8)[1] == data@[5]
        && data@.subrange(4, 8)[2] == data@[6] && data@.subrange(4, 8)[3] == data@[7]);
}

/// A read answers with what the payload of its frame decodes to: all of the frame but its first
/// four bytes is decoded, the item is handed on as it is, and what does not decode is an error.
/// Where the channel is at its end the stream completed early, and where it holds nothing the read
/// waits.
pub proof fn law_read_answers_with_its_item<S, R, L, T, X, I, D, G, N, F>(
    transport: &mut Transport<S, R, L>,
    failure: G,
    next: N,
    decode: F,
    answer: Polled<Result<I, SerdeReadError<T>>>,
    given: Polled<Option<Vec<u8>>>,
    decoded: Result<I, D>,
) where
    G: FnOnce(&mut L) -> Polled<Result<SerdeReadError<T>, X>>,
    N: FnOnce(&mut R) -> Polled<Option<Vec<u8>>>,
    F: FnOnce(&[u8]) -> Result<I, D>,

    requires
        Transport::<S, R, L>::read::<T, X, I, D, G, N, F>.ensures(
            (transport, failure, next, decode),
            answer,
        ),
        forall|link: &mut L, slot: Polled<Result<SerdeReadError<T>, X>>| #[trigger]
            failure.ensures((link,), slot) && *link == old(transport).link ==> !(
            slot matches Polled::Ready(Ok(_))),
        forall|receiver: &mut R, polled: Polled<Option<Vec<u8>>>| #[trigger]
            next.ensures((receiver,), polled) && *receiver == old(transport).receiver ==> polled
                == given,
        given matches Polled::Ready(Some(data)) ==> data@.len() >= 4 && forall|
            bytes: &[u8],
            outcome: Result<I, D>,
        | #[trigger]
            decode.ensures((bytes,), outcome) && bytes@ == data@.subrange(4, data@.len() as int)
                ==> outcome == decoded,
    ensures
        match given {
            Polled::Pending => answer is Pending,
            Polled::Ready(None) => answer == Polled::Ready(
                Err::<I, _>(SerdeReadError::<T>::Terminated),
            ),
            Polled::Ready(Some(_)) => answer == Polled::Ready(
                match decoded {
                    Ok(item) => Ok::<I, SerdeReadError<T>>(item),
                    Err(_) => Err(SerdeReadError::<T>::Serde),
                },
            ),
        },
        final(transport).id == old(transport).id,
        final(transport).spawner == old(transport).spawner,
        exists|link: &mut L, slot: Polled<Result<SerdeReadError<T>, X>>| #[trigger]
            failure.ensures((link,), slot) && *link == old(transport).link && *final(link)
                == final(transport).link,
        exists|receiver: &mut R, polled: Polled<Option<Vec<u8>>>| #[trigger]
            next.ensures((receiver,), polled) && *receiver == old(transport).receiver
                && *final(receiver) == final(transport).receiver,
{
    if let Polled::Ready(Some(data)) = given {
        law_frame_parts(data@);
    }
}

/// A read of a handle answers with the number that the four bytes behind the handle of the frame
/// spell in little-endian place value, whatever follows them. Fewer bytes are an error.
pub proof fn law_handle_is_read_from_its_bytes<S, R, L, T, X, G, N>(
    transport: &mut Transport<S, R, L>,
    failure: G,
    next: N,
    answer: Polled<Result<u32, SerdeReadError<T>>>,
    given: Polled<Option<Vec<u8>>>,
) where
    G: FnOnce(&mut L) -> Polled<Result<SerdeReadError<T>, X>>,
    N: FnOnce(&mut R) -> Polled<Option<Vec<u8>>>,

    requires
        Transport::<S, R, L>::read_handle::<T, X, G, N>.ensures(
            (transport, failure, next),
            answer,
        ),
        forall|link: &mut L, slot: Polled<Result<SerdeReadError<T>, X>>| #[trigger]
            failure.ensures((link,), slot) && *link == old(transport).link ==> !(
            slot matches Polled::Ready(Ok(_))),
        forall|receiver: &mut R, polled: Polled<Option<Vec<u8>>>| #[trigger]
            next.ensures((receiver,), polled) && *receiver == old(transport).receiver ==> polled
                == given,
        given matches Polled::Ready(Some(data)) ==> data@.len() >= 4,
    ensures
        match given {
            Polled::Pending => answer is Pending,
            Polled::Ready(None) => answer == Polled::Ready(
                Err::<u32, _>(SerdeReadError::<T>::Terminated),
            ),
            Polled::Ready(Some(data)) => if data@.len() >= 8 {
                &&& answer matches Polled::Ready(Ok(item))
                &&& item == data@[4] + data@[5] * 0x100 + data@[6] * 0x1_0000 + data@[7]
                    * 0x100_0000
            } else {
                answer == Polled::Ready(Err::<u32, _>(SerdeReadError::<T>::Serde))
            },
        },
{
    if let Polled::Ready(Some(data)) = given {
        law_frame_parts(data@);
        let bytes = data@.subrange(4, data@.len() as int);
        crate::codec::law_item_is_little_endian(bytes);
        if data@.len() >= 8 {
            assert(bytes[0] == data@[4] && bytes[1] == data@[5] && bytes[2] == data@[6] && bytes[3]
                == data@[7]);
        }
    }
}

/// The handle that is written to a context is the handle that is read there.
pub proof fn law_written_handle_is_read_back<S, R, L, T, X, G, N>(
    context: u32,
    item: u32,
    data: Vec<u8>,
    transport: &mut Transport<S, R, L>,
    failure: G,
    next: N,
    answer: Polled<Result<u32, SerdeReadError<T>>>,
) where
    G: FnOnce(&mut L) -> Polled<Result<SerdeReadError<T>, X>>,
    N: FnOnce(&mut R) -> Polled<Option<Vec<u8>>>,

    requires
        data@ == crate::frame::frame(context, crate::codec::little_endian(item)),
        Transport::<S, R, L>::read_handle::<T, X, G, N>.ensures(
            (transport, failure, next),
            answer,
        ),
        forall|link: &mut L, slot: Polled<Result<SerdeReadError<T>, X>>| #[trigger]
            failure.ensures((link,), slot) && *link == old(transport).link ==> !(
            slot matches Polled::Ready(Ok(_))),
        forall|receiver: &mut R, polled: Polled<Option<Vec<u8>>>| #[trigger]
            next.ensures((receiver,), polled) && *receiver == old(transport).receiver ==> polled
                == Polled::Ready(Some(data)),
    ensures
        answer == Polled::Ready(Ok::<u32, SerdeReadError<T>>(item)),
        handle_answer::<T>(Polled::Ready(Some(data))) == Polled::Ready(
            Ok::<u32, SerdeReadError<T>>(item),
        ),
{
    law_frame_layout(context, crate::codec::little_endian(item));
    crate::codec::law_number_is_little_endian(item);
    crate::codec::law_handle_item_roundtrip(context, item);
}

/// An error of the connection is the answer of every read and of every poll of the way out, and
/// then nothing is taken from the receiver.
pub proof fn law_connection_error_comes_first<S, R, L, T, U, X, I, D, G, N, F, H, W>(
    reading: &mut Transport<S, R, L>,
    read_failure: G,
    next: N,
    decode: F,
    read_error: SerdeReadError<T>,
    read_answer: Polled<Result<I, SerdeReadError<T>>>,
    polling: &mut Transport<S, R, L>,
    flushing: &mut Transport<S, R, L>,
    sink_failure: H,
    poll: W,
    sink_error: SerdeWriteError<U>,
    ready_answer: Polled<Result<(), SerdeWriteError<U>>>,
    flush_answer: Polled<Result<(), SerdeWriteError<U>>>,
) where
    G: FnOnce(&mut L) -> Polled<Result<SerdeReadError<T>, X>>,
    N: FnOnce(&mut R) -> Polled<Option<Vec<u8>>>,
    F: FnOnce(&[u8]) -> Result<I, D>,
    H: FnOnce(&mut L) -> Polled<Result<SerdeWriteError<U>, X>>,
    W: FnOnce(&mut L) -> Polled<()>,

    requires
        Transport::<S, R, L>::read::<T, X, I, D, G, N, F>.ensures(
            (reading, read_failure, next, decode),
            read_answer,
        ),
        forall|link: &mut L, slot: Polled<Result<SerdeReadError<T>, X>>| #[trigger]
            read_failure.ensures((link,), slot) ==> slot == Polled::Ready(
                Ok::<SerdeReadError<T>, X>(read_error),
            ),
        Transport::<S, R, L>::poll_ready::<U, X, H, W>.ensures(
            (polling, sink_failure, poll),
            ready_answer,
        ),
        Transport::<S, R, L>::poll_flush::<U, X, H, W>.ensures(
            (flushing, sink_failure, poll),
            flush_answer,
        ),
        forall|link: &mut L, slot: Polled<Result<SerdeWriteError<U>, X>>| #[trigger]
            sink_failure.ensures((link,), slot) ==> slot == Polled::Ready(
                Ok::<SerdeWriteError<U>, X>(sink_error),
            ),
    ensures
        read_answer == Polled::Ready(Err::<I, _>(read_error)),
        final(reading).receiver == old(reading).receiver,
        final(reading).id == old(reading).id,
        ready_answer == Polled::Ready(Err::<(), _>(sink_error)),
        flush_answer == Polled::Ready(Err::<(), _>(sink_error)),
        final(polling).receiver == old(polling).receiver,
        final(flushing).receiver == old(flushing).receiver,
{
}

/// The same of reading a handle.
pub proof fn law_connection_error_comes_before_a_handle<S, R, L, T, X, G, N>(
    transport: &mut Transport<S, R, L>,
    failure: G,
    next: N,
    error: SerdeReadError<T>,
    answer: Polled<Result<u32, SerdeReadError<T>>>,
) where
    G: FnOnce(&mut L) -> Polled<Result<SerdeReadError<T>, X>>,
    N: FnOnce(&mut R) -> Polled<Option<Vec<u8>>>,

    requires
        Transport::<S, R, L>::read_handle::<T, X, G, N>.ensures(
            (transport, failure, next),
            answer,
        ),
        forall|link: &mut L, slot: Polled<Result<SerdeReadError<T>, X>>| #[trigger]
            failure.ensures((link,), slot) ==> slot == Polled::Ready(
                Ok::<SerdeReadError<T>, X>(error),
            ),
    ensures
        answer == Polled::Ready(Err::<u32, _>(error)),
        final(transport).receiver == old(transport).receiver,
{
}

/// Where the connection has not failed, the way out is ready or flushed just where it says so, and
/// asking changes nothing but what the connection shares.
pub proof fn law_way_out_answers_for_itself<S, R, L, U, X, H, W>(
    polling: &mut Transport<S, R, L>,
    flushing: &mut Transport<S, R, L>,
    failure: H,
    poll: W,
    outcome: Polled<()>,
    ready_answer: Polled<Result<(), SerdeWriteError<U>>>,
    flush_answer: Polled<Result<(), SerdeWriteError<U>>>,
) where
    H: FnOnce(&mut L) -> Polled<Result<SerdeWriteError<U>, X>>,
    W: FnOnce(&mut L) -> Polled<()>,

    requires
        Transport::<S, R, L>::poll_ready::<U, X, H, W>.ensures(
            (polling, failure, poll),
            ready_answer,
        ),
        Transport::<S, R, L>::poll_flush::<U, X, H, W>.ensures(
            (flushing, failure, poll),
            flush_answer,
        ),
        forall|link: &mut L, slot: Polled<Result<SerdeWriteError<U>, X>>| #[trigger]
            failure.ensures((link,), slot) ==> !(slot matches Polled::Ready(Ok(_))),
        forall|link: &mut L, polled: Polled<()>| #[trigger]
            poll.ensures((link,), polled) ==> polled == outcome,
    ensures
        outcome is Pending <==> ready_answer is Pending,
        outcome is Ready <==> (ready_answer matches Polled::Ready(Ok(_))),
        outcome is Pending <==> flush_answer is Pending,
        outcome is Ready <==> (flush_answer matches Polled::Ready(Ok(_))),
        final(polling).id == old(polling).id && final(flushing).id == old(flushing).id,
        final(polling).spawner == old(polling).spawner,
        final(flushing).spawner == old(flushing).spawner,
        final(polling).receiver == old(polling).receiver,
        final(flushing).receiver == old(flushing).receiver,
        exists|link: &mut L, slot: Polled<Result<SerdeWriteError<U>, X>>, onward: &mut L|
            #[trigger] failure.ensures((link,), slot) && *link == old(polling).link && *onward
                == *final(link) && #[trigger] poll.ensures((onward,), outcome) && *final(onward)
                == final(polling).link,
        exists|link: &mut L, slot: Polled<Result<SerdeWriteError<U>, X>>, onward: &mut L|
            #[trigger] failure.ensures((link,), slot) && *link == old(flushing).link && *onward
                == *final(link) && #[trigger] poll.ensures((onward,), outcome) && *final(onward)
                == final(flushing).link,
{
}

/// What a decoded payload is to a read.
pub proof fn law_decoded_item_is_handed_on<S, R, L, T, I, D>(
    decoded: Result<I, D>,
    item: Result<I, SerdeReadError<T>>,
)
    requires
        Transport::<S, R, L>::finish_read::<T, I, D>.ensures((decoded,), item),
    ensures
        decoded matches Ok(value) ==> item == Ok::<I, SerdeReadError<T>>(value),
        decoded is Err ==> item == Err::<I, _>(SerdeReadError::<T>::Serde),
{
}

/// The contexts that one side opens one after the other have handles two apart, modulo the handle
/// space. Each transport and what is handed to the router for it name the same context and hold
/// the two ends of the same channel. All share the connection.
pub proof fn law_opened_contexts_are_two_apart<S: Clone, R, L: Clone, C>(
    transport: Transport<S, R, L>,
    indices: &mut HandleAllocator,
    later: &mut HandleAllocator,
    first_channel: (C, R),
    second_channel: (C, R),
    first: (Transport<S, R, L>, Registration<C>),
    second: (Transport<S, R, L>, Registration<C>),
)
    requires
        Transport::<S, R, L>::next_id::<C>.ensures((&transport, indices, first_channel), first),
        *old(later) == *final(indices),
        Transport::<S, R, L>::next_id::<C>.ensures((&transport, later, second_channel), second),
    ensures
        first.0.id.0 == old(indices).next_handle(),
        second.0.id.0 == (first.0.id.0 + 2) % 0x1_0000_0000,
        first.1.handle == first.0.id && second.1.handle == second.0.id,
        first.1.channel == first_channel.0 && first.0.receiver == first_channel.1,
        second.1.channel == second_channel.0 && second.0.receiver == second_channel.1,
        cloned(transport.spawner, first.0.spawner) && cloned(transport.link, first.0.link),
{
}

/// A transport that is made for a context names it, and so does what is handed to the router; a
/// copy names the context of its original.
pub proof fn law_transports_name_their_contexts<S: Clone, R: Clone, L: Clone, C>(
    transport: Transport<S, R, L>,
    id: ContextHandle,
    channel: (C, R),
    made: (Transport<S, R, L>, Registration<C>),
    copy: Transport<S, R, L>,
    spawner: S,
    receiver: R,
    link: L,
    root: Transport<S, R, L>,
)
    requires
        Transport::<S, R, L>::with_id::<C>.ensures((&transport, id, channel), made),
        call_ensures(Transport::<S, R, L>::clone, (&transport,), copy),
        Transport::<S, R, L>::root.ensures((spawner, receiver, link), root),
    ensures
        made.0.id == id && made.1.handle == id,
        made.0.receiver == channel.1 && made.1.channel == channel.0,
        cloned(transport.spawner, made.0.spawner) && cloned(transport.link, made.0.link),
        copy.id == transport.id,
        cloned(transport.receiver, copy.receiver),
        cloned(transport.spawner, copy.spawner) && cloned(transport.link, copy.link),
        root.id.0 == 0,
        root.spawner == spawner && root.receiver == receiver && root.link == link,
{
}

/// What is spawned runs the given future over a copy of the transport, in the same context, and
/// the answer is the spawner's own.
pub proof fn law_spawned_task_runs_over_a_copy<S: Clone, R: Clone, L: Clone, F, A, N>(
    transport: Transport<S, R, L>,
    fut: F,
    spawn: N,
    finalized: A,
    immediate: A,
) where N: FnOnce(&S, Contextualized<F, Transport<S, R, L>>) -> A
    requires
        Transport::<S, R, L>::finalize::<F, A, N>.ensures((&transport, fut, spawn), finalized),
        Transport::<S, R, L>::finalize_immediate::<F, A, N>.ensures(
            (&transport, fut, spawn),
            immediate,
        ),
    ensures
        exists|task: Contextualized<F, Transport<S, R, L>>| #[trigger]
            spawn.ensures((&transport.spawner, task), finalized) && task.fut == fut
                && task.transport.id == transport.id && cloned(
                transport.receiver,
                task.transport.receiver,
            ) && cloned(transport.spawner, task.transport.spawner) && cloned(
                transport.link,
                task.transport.link,
            ),
        exists|task: Contextualized<F, Transport<S, R, L>>| #[trigger]
            spawn.ensures((&transport.spawner, task), immediate) && task.fut == fut
                && task.transport.id == transport.id && cloned(
                transport.receiver,
                task.transport.receiver,
            ) && cloned(transport.spawner, task.transport.spawner) && cloned(
                transport.link,
                task.transport.link,
            ),
{
}

/// A future that runs over a transport of its own is polled over just that transport, and its
/// answer is the answer.
pub proof fn law_contextualized_is_polled_over_its_transport<F, W, A, N>(
    task: &mut Contextualized<F, W>,
    poll: N,
    answer: A,
) where N: FnOnce(&mut F, &mut W) -> A
    requires
        Contextualized::<F, W>::poll::<A, N>.ensures((task, poll), answer),
    ensures
        exists|fut: &mut F, transport: &mut W| #[trigger]
            poll.ensures((fut, transport), answer) && *fut == old(task).fut && *transport
                == old(task).transport && *final(fut) == final(task).fut && *final(transport)
                == final(task).transport,
{
}

/// A transport can be read wherever its error slot and its receiver can be polled and the frames
/// that come out have four bytes or more, however many, and their payloads can be decoded.
pub proof fn law_reads_take_every_whole_frame<S, R, L, T, X, I, D, G, N, F>(
    transport: &mut Transport<S, R, L>,
    failure: G,
    next: N,
    decode: F,
) where
    G: FnOnce(&mut L) -> Polled<Result<SerdeReadError<T>, X>>,
    N: FnOnce(&mut R) -> Polled<Option<Vec<u8>>>,
    F: FnOnce(&[u8]) -> Result<I, D>,

    requires
        forall|link: &mut L| *link == old(transport).link ==> #[trigger] failure.requires((link,)),
        forall|receiver: &mut R|
            *receiver == old(transport).receiver ==> #[trigger] next.requires((receiver,)),
        forall|receiver: &mut R, data: Vec<u8>| #[trigger]
            next.ensures((receiver,), Polled::Ready(Some(data))) && *receiver
                == old(transport).receiver ==> data@.len() >= 4,
        forall|receiver: &mut R, data: Vec<u8>, bytes: &[u8]| #[trigger]
            next.ensures((receiver,), Polled::Ready(Some(data))) && *receiver
                == old(transport).receiver && bytes@
                    == data@.subrange(4, data@.len() as int) ==> #[trigger]
                decode.requires((bytes,)),
    ensures
        Transport::<S, R, L>::read::<T, X, I, D, G, N, F>.requires(
            (transport, failure, next, decode),
        ),
        Transport::<S, R, L>::read_handle::<T, X, G, N>.requires((transport, failure, next)),
{
    assert forall|receiver: &mut R, data: Vec<u8>, bytes: &[u8]| #[trigger]
        next.ensures((receiver,), Polled::Ready(Some(data))) && *receiver == old(transport).receiver
            && bytes@ == crate::frame::frame_payload(data@) implies #[trigger] decode.requires(
        (bytes,),
    ) by {
        law_frame_parts(data@);
    }
}

/// Where the connection has failed for sure, a transport can be read whatever its receiver does.
pub proof fn law_failed_connection_can_be_read<S, R, L, T, X, I, D, G, N, F>(
    transport: &mut Transport<S, R, L>,
    failure: G,
    next: N,
    decode: F,
) where
    G: FnOnce(&mut L) -> Polled<Result<SerdeReadError<T>, X>>,
    N: FnOnce(&mut R) -> Polled<Option<Vec<u8>>>,
    F: FnOnce(&[u8]) -> Result<I, D>,

    requires
        forall|link: &mut L| *link == old(transport).link ==> #[trigger] failure.requires((link,)),
        forall|link: &mut L, slot: Polled<Result<SerdeReadError<T>, X>>| #[trigger]
            failure.ensures((link,), slot) && *link == old(transport).link ==> (
            slot matches Polled::Ready(Ok(_))),
    ensures
        Transport::<S, R, L>::read::<T, X, I, D, G, N, F>.requires(
            (transport, failure, next, decode),
        ),
        Transport::<S, R, L>::read_handle::<T, X, G, N>.requires((transport, failure, next)),
{
}

/// Every item can be written, whatever it encoded to, wherever frames can be put on the way out,
/// and the way out can be asked wherever it can be polled.
pub proof fn law_every_item_can_be_written<S, R, L, U, D, X, N, H, W>(
    transport: &mut Transport<S, R, L>,
    encoded: Result<Vec<u8>, D>,
    item: u32,
    send: N,
    failure: H,
    poll: W,
) where
    N: FnOnce(&mut L, Vec<u8>),
    H: FnOnce(&mut L) -> Polled<Result<SerdeWriteError<U>, X>>,
    W: FnOnce(&mut L) -> Polled<()>,

    requires
        forall|link: &mut L, data: Vec<u8>|
            *link == old(transport).link ==> #[trigger] send.requires((link, data)),
        forall|link: &mut L| #[trigger] failure.requires((link,)),
        forall|link: &mut L| #[trigger] poll.requires((link,)),
    ensures
        Transport::<S, R, L>::write::<U, D, N>.requires((transport, encoded, send)),
        Transport::<S, R, L>::write_handle::<U, N>.requires((transport, item, send)),
        Transport::<S, R, L>::poll_ready::<U, X, H, W>.requires((transport, failure, poll)),
        Transport::<S, R, L>::poll_flush::<U, X, H, W>.requires((transport, failure, poll)),
{
}

/// Where an item did not encode it can be written whatever the way out does: it is not used.
pub proof fn law_unencoded_item_can_be_written<S, R, L, U, D, N: FnOnce(&mut L, Vec<u8>)>(
    transport: &mut Transport<S, R, L>,
    cause: D,
    send: N,
)
    ensures
        Transport::<S, R, L>::write::<U, D, N>.requires(
            (transport, Err::<Vec<u8>, D>(cause), send),
        ),
{
}

} // verus!
