use mve_transport::display::DisplayAsDisplay;
use mve_transport::error::{SerdeReadError, SerdeWriteError};
use mve_transport::handle::{ContextHandle, HandleAllocator};
use mve_transport::poll::Polled;
use mve_transport::router::Router;
use mve_transport::stream::{receive, Todo};
use mve_transport::transport::{Contextualized, Transport, CHANNEL_CAPACITY};
use std::cell::RefCell;

type Local = Transport<&'static str, u8, String>;
type Slot<E> = Polled<Result<E, ()>>;

fn root() -> Local {
    Transport::root("spawner", 10, "link".to_string())
}

fn at(id: u32) -> Local {
    root().join_owned(id, ('c', 20)).transport
}

#[test]
fn root_transport_has_the_root_handle() {
    let transport = root();
    assert_eq!(transport.id, ContextHandle(0));
    assert_eq!(transport.spawner, "spawner");
    assert_eq!(transport.receiver, 10);
    assert_eq!(transport.link, "link");
    assert_eq!(CHANNEL_CAPACITY, 1);
}

#[test]
fn clone_is_the_same_end_of_the_same_context() {
    let copy = at(9).clone();
    assert_eq!(copy.id, ContextHandle(9));
    assert_eq!(copy.receiver, 20);
    assert_eq!(copy.spawner, "spawner");
    assert_eq!(copy.link, "link");
}

#[test]
fn next_id_takes_the_next_handle() {
    let mut indices = HandleAllocator::coalescing();
    let (first, registration) = root().next_id(&mut indices, ('a', 1));
    assert_eq!(first.id, ContextHandle(2));
    assert_eq!(first.receiver, 1);
    assert_eq!(first.link, "link");
    assert_eq!(registration.handle, ContextHandle(2));
    assert_eq!(registration.channel, 'a');
    let (second, registration) = first.next_id(&mut indices, ('b', 2));
    assert_eq!(second.id, ContextHandle(4));
    assert_eq!(second.receiver, 2);
    assert_eq!(registration.handle, ContextHandle(4));
    assert_eq!(registration.channel, 'b');
}

#[test]
fn with_id_takes_the_given_handle() {
    let (made, registration) = root().with_id(ContextHandle(77), ('z', 3));
    assert_eq!(made.id, ContextHandle(77));
    assert_eq!(made.receiver, 3);
    assert_eq!(made.spawner, "spawner");
    assert_eq!(registration.handle, ContextHandle(77));
    assert_eq!(registration.channel, 'z');
}

#[test]
fn forks_and_joins_meet_at_the_same_handle() {
    let mut indices = HandleAllocator::unraveling();
    let owned = root().fork_owned(&mut indices, ('a', 1));
    let shared = root().fork_shared(&mut indices, ('b', 2));
    let lent = root().fork_ref(&mut indices, ('c', 3));
    assert_eq!((owned.handle, shared.handle, lent.handle), (1, 3, 5));
    assert_eq!(owned.transport.id, ContextHandle(1));
    assert_eq!(shared.registration.handle, ContextHandle(3));
    assert_eq!(lent.registration.channel, 'c');
    assert_eq!(root().join_owned(owned.handle, ('d', 4)).transport.id, owned.transport.id);
    assert_eq!(root().join_shared(shared.handle, ('e', 5)).transport.id, shared.transport.id);
    let joined = root().join_ref(lent.handle, ('f', 6));
    assert_eq!(joined.transport.id, lent.transport.id);
    assert_eq!(joined.registration.handle, ContextHandle(5));
    assert_eq!(joined.registration.channel, 'f');
    assert_eq!(joined.transport.receiver, 6);
}

#[test]
fn a_transport_is_the_context_that_a_reference_to_it_stands_for() {
    let mut transport = at(3);
    transport.with(root()).receiver = 99;
    assert_eq!(transport.id, ContextHandle(3));
    assert_eq!(transport.receiver, 99);
}

#[test]
fn notification_gives_its_item_back() {
    let notification = Local::wrap("news".to_string());
    assert_eq!(Local::unwrap(notification), "news");
}

fn written<A>(
    transport: &mut Local,
    write: impl FnOnce(&mut Local, &dyn Fn(&mut String, Vec<u8>)) -> A,
) -> (A, Vec<Vec<u8>>) {
    let out: RefCell<Vec<Vec<u8>>> = RefCell::new(vec![]);
    let answer = write(transport, &|link: &mut String, data: Vec<u8>| {
        link.push('!');
        out.borrow_mut().push(data);
    });
    (answer, out.into_inner())
}

fn write_handle(transport: &mut Local, item: u32) -> Vec<u8> {
    let (answer, mut out) = written(transport, |transport, send| {
        transport.write_handle::<(), _>(item, |link: &mut String, data| send(link, data))
    });
    assert!(answer.is_ok());
    assert_eq!(out.len(), 1);
    out.remove(0)
}

fn write<D>(
    transport: &mut Local,
    encoded: Result<Vec<u8>, D>,
) -> (Result<(), SerdeWriteError<()>>, Vec<Vec<u8>>) {
    written(transport, |transport, send| {
        transport.write(encoded, |link: &mut String, data| send(link, data))
    })
}

#[test]
fn write_frames_what_the_item_encoded_to() {
    let mut transport = at(258);
    let (answer, out) = write(&mut transport, Ok::<_, ()>(vec![5, 6]));
    assert!(answer.is_ok());
    assert_eq!(out, vec![vec![0, 0, 1, 2, 5, 6]]);
    assert_eq!(transport.link, "link!");
    assert_eq!((transport.id, transport.receiver), (ContextHandle(258), 20));
}

#[test]
fn write_of_what_does_not_encode_is_a_serde_error() {
    let mut transport = root();
    let (answer, out) = write(&mut transport, Err("no"));
    assert!(matches!(answer, Err(SerdeWriteError::Serde)));
    assert!(out.is_empty());
    assert_eq!(transport.link, "link");
}

#[test]
fn handle_is_written_in_little_endian() {
    assert_eq!(write_handle(&mut at(1), 0x0102_0304), vec![0, 0, 0, 1, 4, 3, 2, 1]);
}

#[test]
fn handle_is_written_as_bincode_writes_numbers() {
    for item in [0u32, 1, 250, 251, 65_536, u32::MAX] {
        let (_, general) = write(&mut root(), bincode::serialize(&item));
        assert_eq!(general, vec![write_handle(&mut root(), item)]);
    }
}

fn read_handle(
    error: Slot<SerdeReadError<u8>>,
    frame: Polled<Option<Vec<u8>>>,
) -> Polled<Result<u32, SerdeReadError<u8>>> {
    let mut transport = root();
    let answer = transport.read_handle(
        |link: &mut String| {
            assert_eq!(link, "link");
            link.push('?');
            error
        },
        |receiver: &mut u8| {
            assert_eq!(*receiver, 10);
            *receiver += 1;
            frame
        },
    );
    assert_eq!((transport.link.as_str(), transport.receiver), ("link?", 11));
    answer
}

#[test]
fn handle_is_read_back() {
    let data = write_handle(&mut at(6), 1_000_000);
    let answer = read_handle(Polled::Pending, Polled::Ready(Some(data)));
    assert!(matches!(answer, Polled::Ready(Ok(1_000_000))));
}

#[test]
fn bytes_behind_a_handle_do_not_matter() {
    let answer = read_handle(Polled::Pending, Polled::Ready(Some(vec![0, 0, 0, 6, 7, 0, 0, 0, 1])));
    assert!(matches!(answer, Polled::Ready(Ok(7))));
}

#[test]
fn too_few_bytes_for_a_handle_are_a_serde_error() {
    let answer = read_handle(Polled::Pending, Polled::Ready(Some(vec![0, 0, 0, 6, 7, 0, 0])));
    assert!(matches!(answer, Polled::Ready(Err(SerdeReadError::Serde))));
}

#[test]
fn read_waits_for_a_frame() {
    assert!(matches!(read_handle(Polled::Pending, Polled::Pending), Polled::Pending));
    assert!(matches!(read_handle(Polled::Ready(Err(())), Polled::Pending), Polled::Pending));
}

#[test]
fn read_of_a_closed_channel_is_terminated() {
    let answer = read_handle(Polled::Pending, Polled::Ready(None));
    assert!(matches!(answer, Polled::Ready(Err(SerdeReadError::Terminated))));
}

#[test]
fn error_of_the_connection_comes_before_any_frame() {
    let mut transport = root();
    let answer: Polled<Result<u32, SerdeReadError<u8>>> = transport.read_handle(
        |link: &mut String| {
            link.push('?');
            Polled::Ready(Ok::<_, ()>(SerdeReadError::Stream(13)))
        },
        |_: &mut u8| panic!("no frame is taken"),
    );
    assert!(matches!(answer, Polled::Ready(Err(SerdeReadError::Stream(13)))));
    assert_eq!((transport.link.as_str(), transport.receiver), ("link?", 10));
}

#[test]
fn read_decodes_the_payload_of_any_item() {
    let item = ("text".to_string(), vec![1u16, 2, 3], Some(true));
    let (_, mut out) = write(&mut at(12), bincode::serialize(&item));
    let data = out.remove(0);
    let mut transport = at(12);
    let answer: Polled<Result<(String, Vec<u16>, Option<bool>), SerdeReadError<u8>>> = transport
        .read(
            |_: &mut String| Polled::<Result<_, ()>>::Pending,
            |receiver: &mut u8| {
                *receiver += 1;
                Polled::Ready(Some(data))
            },
            |bytes: &[u8]| bincode::deserialize(bytes),
        );
    match answer {
        Polled::Ready(Ok(read)) => assert_eq!(read, item),
        _ => panic!("the item is there"),
    }
    assert_eq!((transport.id, transport.receiver), (ContextHandle(12), 21));
}

#[test]
fn read_of_what_does_not_decode_is_a_serde_error() {
    let answer: Polled<Result<String, SerdeReadError<u8>>> = root().read(
        |_: &mut String| Polled::<Result<_, ()>>::Pending,
        |_: &mut u8| Polled::Ready(Some(vec![0, 0, 0, 0, 1])),
        |bytes: &[u8]| bincode::deserialize(bytes),
    );
    assert!(matches!(answer, Polled::Ready(Err(SerdeReadError::Serde))));
}

#[test]
fn decoded_items_are_what_a_read_gives() {
    let item: Result<u8, SerdeReadError<()>> = Local::finish_read(Ok::<_, ()>(4));
    assert!(matches!(item, Ok(4)));
    let item: Result<u8, SerdeReadError<()>> = Local::finish_read(Err("bad"));
    assert!(matches!(item, Err(SerdeReadError::Serde)));
}

type SinkAnswer = Polled<Result<(), SerdeWriteError<u8>>>;

fn poll_sink(
    failed: impl Fn() -> Slot<SerdeWriteError<u8>>,
    way: impl Fn() -> Polled<()>,
) -> [SinkAnswer; 2] {
    let ask = |link: &mut String| {
        link.push('?');
        failed()
    };
    let poll = |link: &mut String| {
        assert_eq!(link, "link?");
        link.push('!');
        way()
    };
    let mut first = root();
    let ready = first.poll_ready(&ask, &poll);
    let mut second = root();
    let flush = second.poll_flush(&ask, &poll);
    for transport in [first, second] {
        let polled = transport.link == "link?!";
        assert_eq!(polled, !matches!(failed(), Polled::Ready(Ok(_))));
        assert_eq!(transport.receiver, 10);
    }
    [ready, flush]
}

#[test]
fn way_out_is_ready_when_it_says_so() {
    for answer in poll_sink(|| Polled::Pending, || Polled::Ready(())) {
        assert!(matches!(answer, Polled::Ready(Ok(()))));
    }
    for answer in poll_sink(|| Polled::Ready(Err(())), || Polled::Pending) {
        assert!(matches!(answer, Polled::Pending));
    }
}

#[test]
fn sink_error_comes_before_the_way_out_is_asked() {
    let failed = || Polled::Ready(Ok(SerdeWriteError::Sink(3)));
    for answer in poll_sink(failed, || panic!("the way out is not asked")) {
        assert!(matches!(answer, Polled::Ready(Err(SerdeWriteError::Sink(3)))));
    }
}

#[test]
fn finalize_spawns_the_future_over_a_copy_of_the_transport() {
    let answer = at(8).finalize("work", |spawner, task| {
        assert_eq!(*spawner, "spawner");
        assert_eq!(task.fut, "work");
        assert_eq!(task.transport.id, ContextHandle(8));
        assert_eq!(task.transport.receiver, 20);
        17
    });
    assert_eq!(answer, 17);
    let answer: Result<(), &str> = at(8).finalize_immediate("work", |_, task| {
        assert_eq!(task.transport.link, "link");
        Err("full")
    });
    assert_eq!(answer, Err("full"));
}

#[test]
fn contextualized_future_runs_over_its_transport() {
    let mut task = Contextualized { fut: 1u8, transport: at(8) };
    let answer = task.poll(|fut, transport| {
        *fut += 1;
        transport.receiver = 30;
        transport.id.0
    });
    assert_eq!(answer, 8);
    assert_eq!(task.fut, 2);
    assert_eq!(task.transport.receiver, 30);
}

#[test]
fn value_is_its_own_display() {
    let text = "as it is".to_string();
    assert_eq!((&text).as_display(), "as it is");
    assert_eq!((&7u8).as_display().to_string(), "7");
}

#[test]
fn forked_context_carries_handles_to_where_it_is_joined() {
    let mut indices = HandleAllocator::coalescing();
    let mut forked = root().fork_owned(&mut indices, ('n', 1));
    let joined = root().join_owned(forked.handle, ('f', 2));
    let mut registration = Some(joined.registration);
    let mut far: Router<char> = Router::new('r');
    let mut got: Vec<Vec<u8>> = vec![];
    for item in [40u32, 41, 42, 43] {
        if item == 42 {
            got.append(&mut far.register(registration.take().unwrap()).unwrap().frames);
        }
        let sent = write_handle(&mut forked.transport, item);
        if let Todo::Send(handle, data) = receive::<_, ()>(&mut far, Some(Ok(sent))) {
            assert_eq!(far.channel(handle), Some(&'f'));
            got.push(data);
        }
    }
    let read: Vec<u32> = got
        .into_iter()
        .map(|data| match read_handle(Polled::Pending, Polled::Ready(Some(data))) {
            Polled::Ready(Ok(item)) => item,
            _ => panic!("the handle is there"),
        })
        .collect();
    assert_eq!(read, vec![40, 41, 42, 43]);
}
