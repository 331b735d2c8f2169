use futures::task::SpawnError;
use mve_transport::error::{SerdeReadError, SerdeWriteError, WithSpawnError};
use mve_transport::handle::ContextHandle;
use mve_transport::poll::Polled;
use mve_transport::session::{
    forwarded, start_tasks, Coalesce, ProtocolMveTransport, Unravel, UnravelState,
};
use mve_transport::transport::Transport;

type Local = Transport<(), u8, ()>;
type Receiving = Coalesce<u32, Local, &'static str>;
type Sending = Unravel<u32, char, Local, &'static str>;

fn receiving() -> Receiving {
    Coalesce::new(5, (), 1, (), "start")
}

fn sending() -> Sending {
    Unravel::new(5, (), 1, (), "start")
}

#[test]
fn coalescing_end_starts_with_the_root_context_and_even_handles() {
    let mut shared = Receiving::shared('r');
    assert_eq!(shared.router.channel(ContextHandle(0)), Some(&'r'));
    assert_eq!(shared.indices.allocate(), ContextHandle(2));
    assert_eq!(shared.router.deliver(ContextHandle(1), vec![0, 0, 0, 1]), None);
}

#[test]
fn unraveling_end_starts_with_the_root_context_and_odd_handles() {
    let mut shared = Sending::shared('r');
    assert_eq!(shared.router.channel(ContextHandle(0)), Some(&'r'));
    assert_eq!(shared.indices.allocate(), ContextHandle(1));
}

#[test]
fn new_ends_are_not_started() {
    let end = receiving();
    assert_eq!((end.fut, end.transport.id.0, end.transport.receiver), (5, 0, 1));
    assert_eq!(end.initializer, Some("start"));
    let end = sending();
    assert!(matches!(end.fut, UnravelState::Target(5)));
    assert_eq!((end.transport.id.0, end.transport.receiver), (0, 1));
    assert_eq!(end.initializer, Some("start"));
}

#[test]
fn transport_makes_both_ends() {
    let end = ProtocolMveTransport::coalesce(6u8, (), 2u8, (), "go");
    assert_eq!((end.fut, end.transport.id.0, end.initializer), (6, 0, Some("go")));
    let end: Unravel<u8, u8, Local, &str> = ProtocolMveTransport::unravel(7, (), 2, (), "go");
    assert!(matches!(end.fut, UnravelState::Target(7)));
}

#[test]
fn coalesce_starts_the_tasks_once() {
    let mut end = receiving();
    let answer: Polled<Result<u8, WithSpawnError<()>>> = end.poll(
        |name| {
            assert_eq!(name, "start");
            Ok(())
        },
        |fut, transport| {
            assert_eq!(*fut, 5);
            *fut = 6;
            transport.receiver = 9;
            Polled::Pending
        },
    );
    assert!(matches!(answer, Polled::Pending));
    assert_eq!((end.fut, end.transport.receiver, end.initializer), (6, 9, None));
    let answer: Polled<Result<u8, WithSpawnError<()>>> = end.poll(
        |_| panic!("the tasks are started"),
        |fut, _| {
            assert_eq!(*fut, 6);
            Polled::Ready(Ok(33))
        },
    );
    assert!(matches!(answer, Polled::Ready(Ok(33))));
}

#[test]
fn coalesce_fails_where_the_tasks_do_not_start() {
    let mut end = receiving();
    let answer: Polled<Result<u8, WithSpawnError<()>>> =
        end.poll(|_| Err(SpawnError::shutdown()), |_, _| panic!("nothing is polled"));
    assert!(matches!(answer, Polled::Ready(Err(WithSpawnError::Spawn(_)))));
    assert_eq!(end.initializer, None);
    assert_eq!(end.fut, 5);
}

#[test]
fn coalesce_fails_with_the_protocol() {
    let mut end = receiving();
    let answer: Polled<Result<u8, WithSpawnError<&str>>> =
        end.poll(|_| Ok(()), |_, _| Polled::Ready(Err("bad")));
    assert!(matches!(answer, Polled::Ready(Err(WithSpawnError::Protocol("bad")))));
}

#[test]
fn unravel_goes_on_to_finalize_in_the_same_poll() {
    let mut end = sending();
    let answer: Polled<Result<(), WithSpawnError<()>>> = end.poll(
        |_| Ok(()),
        |target, transport| {
            assert_eq!(*target, 5);
            transport.receiver += 1;
            Polled::Ready(Ok('f'))
        },
        |finalize, transport| {
            assert_eq!((*finalize, transport.receiver), ('f', 2));
            transport.receiver += 1;
            Polled::Ready(Ok(()))
        },
    );
    assert!(matches!(answer, Polled::Ready(Ok(()))));
    assert!(matches!(end.fut, UnravelState::Finalize('f')));
    assert_eq!((end.transport.receiver, end.initializer), (3, None));
}

#[test]
fn unravel_waits_for_either_future() {
    let mut end = sending();
    let answer: Polled<Result<(), WithSpawnError<()>>> = end.poll(
        |_| Ok(()),
        |target, _| {
            *target = 8;
            Polled::Pending
        },
        |_, _| panic!("the value is still being taken apart"),
    );
    assert!(matches!(answer, Polled::Pending));
    assert!(matches!(end.fut, UnravelState::Target(8)));
    let answer: Polled<Result<(), WithSpawnError<()>>> = end.poll(
        |_| panic!("the tasks are started"),
        |_, _| Polled::Ready(Ok('a')),
        |finalize, _| {
            *finalize = 'b';
            Polled::Pending
        },
    );
    assert!(matches!(answer, Polled::Pending));
    assert!(matches!(end.fut, UnravelState::Finalize('b')));
    let answer: Polled<Result<(), WithSpawnError<()>>> = end.poll(
        |_| panic!("the tasks are started"),
        |_, _| panic!("the value is taken apart"),
        |finalize, _| {
            assert_eq!(*finalize, 'b');
            Polled::Ready(Ok(()))
        },
    );
    assert!(matches!(answer, Polled::Ready(Ok(()))));
}

#[test]
fn unravel_fails_with_either_future() {
    let mut end = sending();
    let answer: Polled<Result<(), WithSpawnError<&str>>> = end.poll(
        |_| Ok(()),
        |_, _| Polled::Ready(Err("target")),
        |_, _| panic!("the value is not taken apart"),
    );
    assert!(matches!(answer, Polled::Ready(Err(WithSpawnError::Protocol("target")))));
    assert!(matches!(end.fut, UnravelState::Target(5)));
    let mut end = sending();
    let answer: Polled<Result<(), WithSpawnError<&str>>> = end.poll(
        |_| Ok(()),
        |_, _| Polled::Ready(Ok('f')),
        |_, _| Polled::Ready(Err("finalize")),
    );
    assert!(matches!(answer, Polled::Ready(Err(WithSpawnError::Protocol("finalize")))));
}

#[test]
fn unravel_fails_where_the_tasks_do_not_start() {
    let mut end = sending();
    let answer: Polled<Result<(), WithSpawnError<()>>> = end.poll(
        |_| Err(SpawnError::shutdown()),
        |_, _| panic!("nothing is polled"),
        |_, _| panic!("nothing is polled"),
    );
    assert!(matches!(answer, Polled::Ready(Err(WithSpawnError::Spawn(_)))));
    assert_eq!(end.initializer, None);
}

#[test]
fn tasks_start_in_order_until_one_does_not() {
    assert_eq!(start_tasks(|| Ok::<(), u8>(()), || Ok(()), || Ok(())), Ok(()));
    assert_eq!(start_tasks(|| Ok(()), || Ok(()), || Err(3)), Err(3));
    assert_eq!(start_tasks(|| Ok(()), || Err(2), || panic!("left out")), Err(2));
    assert_eq!(start_tasks(|| Err(1), || panic!("left out"), || panic!("left out")), Err(1));
}

#[test]
fn failed_sink_is_told() {
    assert!(forwarded::<u8>(Ok(())).is_none());
    assert!(matches!(forwarded(Err(6)), Some(SerdeWriteError::Sink(6))));
}

#[test]
fn errors_in_words() {
    let read: SerdeReadError<&str> = SerdeReadError::Stream("cut");
    assert_eq!(read.message(), "error in underlying stream: cut");
    assert_eq!(SerdeReadError::<u8>::Serde.message(), "serde error");
    assert_eq!(SerdeReadError::<u8>::Insufficient.message(), "received insufficient buffer");
    assert_eq!(SerdeReadError::<u8>::Terminated.message(), "stream completed early");
    assert_eq!(SerdeWriteError::Sink(5).message(), "error in underlying sink: 5");
    assert_eq!(SerdeWriteError::<u8>::Serde.message(), "serde error");
    let failed = WithSpawnError::Protocol("odd");
    assert_eq!(failed.message(), "error in underlying protocol: odd");
    let failed: WithSpawnError<u8> = WithSpawnError::Spawn(SpawnError::shutdown());
    assert_eq!(failed.message(), format!("spawn error: {}", SpawnError::shutdown()));
}

#[test]
fn clones_of_errors_say_the_same() {
    assert!(matches!(SerdeReadError::Stream(4).clone(), SerdeReadError::Stream(4)));
    assert!(matches!(SerdeReadError::<u8>::Serde.clone(), SerdeReadError::Serde));
    assert!(matches!(SerdeReadError::<u8>::Insufficient.clone(), SerdeReadError::Insufficient));
    assert!(matches!(SerdeReadError::<u8>::Terminated.clone(), SerdeReadError::Terminated));
    assert!(matches!(SerdeWriteError::Sink(4).clone(), SerdeWriteError::Sink(4)));
    assert!(matches!(SerdeWriteError::<u8>::Serde.clone(), SerdeWriteError::Serde));
}

#[test]
fn sink_error_has_a_source() {
    assert_eq!(SerdeWriteError::Sink(4).source(), Some(&4));
    assert_eq!(SerdeWriteError::<u8>::Serde.source(), None);
}
