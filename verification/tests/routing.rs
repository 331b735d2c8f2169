use futures::executor::block_on;
use futures::future::{ready, FutureExt};
use futures::sink::unfold;
use futures::stream::{iter, StreamExt};
use mve_transport::error::{SerdeReadError, SerdeWriteError};
use mve_transport::frame::{encode_frame, payload};
use mve_transport::handle::{ContextHandle, HandleAllocator};
use mve_transport::poll::Polled;
use mve_transport::router::{Outlet, Registered, Registration, Router, Storage};
use mve_transport::session::forwarded;
use mve_transport::stream::{inspect, receive, sift, Inbound, Todo};
use mve_transport::transport::Transport;
use piper::{chan, Receiver};
use std::cell::RefCell;
use std::rc::Rc;

fn frame(id: u32, byte: u8) -> Vec<u8> {
    encode_frame(ContextHandle(id), vec![byte])
}

fn look(item: Option<Result<Vec<u8>, String>>) -> Inbound<String> {
    inspect(item)
}

fn arrive<C>(router: &mut Router<C>, data: Vec<u8>) -> Option<Vec<u8>> {
    match look(Some(Ok(data))) {
        Inbound::Frame(handle, data) => router.deliver(handle, data),
        _ => panic!("the frame names a context"),
    }
}

fn register<C>(router: &mut Router<C>, id: u32, channel: C) -> (Vec<Vec<u8>>, Option<C>) {
    let handle = ContextHandle(id);
    assert!(!router.is_registered(handle));
    let answer = match router.register(Registration { handle, channel }) {
        Some(Registered { frames, outlet: Outlet::Kept(_) }) => (frames, None),
        Some(Registered { frames, outlet: Outlet::Last(channel) }) => (frames, Some(channel)),
        None => panic!("the context is not registered yet"),
    };
    assert!(router.is_registered(handle));
    answer
}

#[test]
fn storage_keeps_items_until_it_has_a_channel() {
    let mut storage: Storage<u8, char> = Storage::Temporary(vec![]);
    assert_eq!(storage.send(1), None);
    assert_eq!(storage.send(2), None);
    assert_eq!(storage.upgrade('c'), vec![1, 2]);
    assert!(matches!(storage, Storage::Channel('c')));
    assert_eq!(storage.send(3), Some(3));
    assert!(matches!(storage, Storage::Channel('c')));
}

#[test]
fn storage_without_items_releases_nothing() {
    let mut storage: Storage<u8, char> = Storage::Temporary(vec![]);
    assert!(storage.upgrade('d').is_empty());
}

#[test]
fn root_context_is_open_from_the_start() {
    let mut router = Router::new("root");
    assert_eq!(router.channel(ContextHandle(0)), Some(&"root"));
    assert_eq!(router.channel(ContextHandle(1)), None);
    assert!(router.is_registered(ContextHandle(0)));
    assert!(!router.is_registered(ContextHandle(1)));
    assert_eq!(arrive(&mut router, frame(0, 9)), Some(vec![0, 0, 0, 0, 9]));
}

#[test]
fn frames_wait_for_their_context_in_order() {
    let mut router = Router::new("root");
    assert_eq!(arrive(&mut router, frame(5, 1)), None);
    assert_eq!(arrive(&mut router, frame(7, 2)), None);
    assert_eq!(arrive(&mut router, frame(5, 3)), None);
    assert_eq!(router.channel(ContextHandle(5)), None);
    assert_eq!(register(&mut router, 5, "five"), (vec![frame(5, 1), frame(5, 3)], None));
    assert_eq!(router.channel(ContextHandle(5)), Some(&"five"));
    assert_eq!(router.channel(ContextHandle(7)), None);
    assert_eq!(arrive(&mut router, frame(5, 4)), Some(frame(5, 4)));
    assert_eq!(register(&mut router, 7, "seven"), (vec![frame(7, 2)], None));
}

#[test]
fn registration_before_any_frame_releases_nothing() {
    let mut router = Router::new("root");
    assert_eq!(register(&mut router, 3, "three"), (vec![], None));
    assert_eq!(arrive(&mut router, frame(3, 1)), Some(frame(3, 1)));
}

#[test]
fn frames_name_their_context() {
    assert!(matches!(
        look(Some(Ok(vec![0, 0, 1, 2, 7]))),
        Inbound::Frame(ContextHandle(258), data) if data == vec![0, 0, 1, 2, 7]
    ));
    assert!(matches!(
        look(Some(Ok(vec![0, 0, 0, 9]))),
        Inbound::Frame(ContextHandle(9), data) if data == vec![0, 0, 0, 9]
    ));
}

#[test]
fn stream_error_is_told_and_ends_reading() {
    let seen = look(Some(Err("gone".to_string())));
    assert!(matches!(seen, Inbound::Failed(SerdeReadError::Stream(cause)) if cause == "gone"));
}

#[test]
fn short_frame_is_insufficient() {
    assert!(matches!(
        look(Some(Ok(vec![0, 0, 0]))),
        Inbound::Failed(SerdeReadError::Insufficient)
    ));
    assert!(matches!(look(Some(Ok(vec![]))), Inbound::Failed(SerdeReadError::Insufficient)));
}

#[test]
fn end_of_the_stream_ends_reading_without_an_error() {
    assert!(matches!(look(None), Inbound::Ended));
}

#[test]
fn end_of_the_stream_lets_every_channel_go() {
    let root = Rc::new(());
    let three = Rc::new(());
    let mut router = Router::new(root.clone());
    register(&mut router, 3, three.clone());
    assert_eq!((Rc::strong_count(&root), Rc::strong_count(&three)), (2, 2));
    router.end();
    assert_eq!((Rc::strong_count(&root), Rc::strong_count(&three)), (1, 1));
    for id in [0, 3] {
        assert_eq!(router.channel(ContextHandle(id)), None);
        assert!(router.is_registered(ContextHandle(id)));
    }
}

#[test]
fn registration_after_the_end_is_given_its_frames_and_not_kept() {
    let mut router = Router::new("root");
    assert_eq!(arrive(&mut router, frame(5, 1)), None);
    assert_eq!(arrive(&mut router, frame(5, 2)), None);
    router.end();
    assert!(!router.is_registered(ContextHandle(5)));
    let released = register(&mut router, 5, "five");
    assert_eq!(released, (vec![frame(5, 1), frame(5, 2)], Some("five")));
    assert_eq!(router.channel(ContextHandle(5)), None);
    assert_eq!(register(&mut router, 7, "seven"), (vec![], Some("seven")));
    assert_eq!(router.channel(ContextHandle(7)), None);
}

#[test]
fn frames_after_the_end_are_dropped() {
    let mut router = Router::new("root");
    router.end();
    assert_eq!(arrive(&mut router, frame(0, 1)), None);
    assert_eq!(arrive(&mut router, frame(5, 1)), None);
    assert_eq!(register(&mut router, 5, "five"), (vec![], Some("five")));
    router.end();
    assert!(router.is_registered(ContextHandle(0)));
}

fn read(receiver: &mut Receiver<Vec<u8>>) -> Polled<Result<u8, SerdeReadError<String>>> {
    let mut transport = Transport::root((), receiver.clone(), ());
    transport.read(
        |_: &mut ()| Polled::<Result<SerdeReadError<String>, ()>>::Pending,
        |receiver: &mut Receiver<Vec<u8>>| match receiver.next().now_or_never() {
            Some(frame) => Polled::Ready(frame),
            None => Polled::Pending,
        },
        |bytes: &[u8]| bytes.first().copied().ok_or(()),
    )
}

#[test]
fn read_behind_the_end_of_the_stream_is_terminated() {
    let (sender, mut receiver) = chan(1);
    let mut router = Router::new(sender);
    assert!(matches!(read(&mut receiver), Polled::Pending));
    let data = arrive(&mut router, frame(0, 8)).unwrap();
    block_on(router.channel(ContextHandle(0)).unwrap().send(data));
    assert!(matches!(look(None), Inbound::Ended));
    router.end();
    assert!(matches!(read(&mut receiver), Polled::Ready(Ok(8))));
    assert!(matches!(read(&mut receiver), Polled::Ready(Err(SerdeReadError::Terminated))));
    assert!(matches!(read(&mut receiver), Polled::Ready(Err(SerdeReadError::Terminated))));
}

#[test]
fn read_of_a_stream_that_completes_at_once_is_terminated() {
    let (sender, mut receiver) = chan(1);
    let mut router = Router::new(sender);
    assert!(matches!(look(None), Inbound::Ended));
    router.end();
    assert!(matches!(read(&mut receiver), Polled::Ready(Err(SerdeReadError::Terminated))));
}

#[test]
fn read_of_a_context_registered_after_the_end_is_terminated_behind_its_frames() {
    let (sender, _receiver) = chan(1);
    let mut router = Router::new(sender);
    assert_eq!(arrive(&mut router, frame(5, 6)), None);
    router.end();
    let (sender, mut receiver) = chan(1);
    let registration = Registration { handle: ContextHandle(5), channel: sender };
    let registered = router.register(registration).unwrap();
    for data in registered.frames {
        block_on(registered.outlet.channel().send(data));
    }
    drop(registered.outlet);
    assert!(matches!(read(&mut receiver), Polled::Ready(Ok(6))));
    assert!(matches!(read(&mut receiver), Polled::Ready(Err(SerdeReadError::Terminated))));
}

#[test]
fn frames_go_out_in_order_up_to_the_first_failure() {
    let written: Vec<Vec<u8>> = vec![frame(0, 1), frame(2, 2), frame(0, 3), frame(2, 4)];
    for room in [2usize, 4] {
        let given: Rc<RefCell<Vec<Vec<u8>>>> = Rc::default();
        let taken = given.clone();
        let sink = unfold((), move |(), data: Vec<u8>| {
            let full = taken.borrow().len() == room;
            if !full {
                taken.borrow_mut().push(data);
            }
            ready(if full { Err("full") } else { Ok(()) })
        });
        let told = forwarded(block_on(iter(written.clone()).map(Ok).forward(sink)));
        assert_eq!(*given.borrow(), written[..room].to_vec());
        match told {
            Some(SerdeWriteError::Sink(cause)) => assert_eq!((room, cause), (2, "full")),
            Some(SerdeWriteError::Serde) => panic!("nothing is encoded here"),
            None => assert_eq!(room, 4),
        }
    }
}

#[test]
fn reading_stops_at_the_first_item_that_is_no_frame() {
    let mut router = Router::new("root");
    let mut out: Vec<Vec<u8>> = vec![];
    let mut errors: Vec<String> = vec![];
    let items = [
        Ok(frame(0, 1)),
        Ok(frame(3, 2)),
        Ok(frame(0, 3)),
        Ok(vec![0, 0]),
        Ok(frame(0, 4)),
        Err("cut".to_string()),
    ];
    for item in items {
        match receive(&mut router, Some(item)) {
            Todo::Send(ContextHandle(0), data) => out.push(data),
            Todo::Send(_, _) => panic!("no other context is registered"),
            Todo::Proceed => {}
            Todo::Tell(error) => {
                errors.push(error.message());
                break;
            }
            Todo::Over => panic!("the stream goes on"),
        }
    }
    assert_eq!(out, vec![frame(0, 1), frame(0, 3)]);
    assert_eq!(errors, vec!["received insufficient buffer"]);
    assert_eq!(register(&mut router, 3, "three"), (vec![frame(3, 2)], None));
}

#[test]
fn items_are_taken_in_one_by_one() {
    let mut router = Router::new("root");
    let todo: Todo<String> = receive(&mut router, Some(Ok(frame(0, 1))));
    assert!(matches!(todo, Todo::Send(ContextHandle(0), data) if data == frame(0, 1)));
    let todo: Todo<String> = receive(&mut router, Some(Ok(frame(5, 2))));
    assert!(matches!(todo, Todo::Proceed));
    let todo: Todo<String> = receive(&mut router, Some(Err("cut".to_string())));
    assert!(matches!(todo, Todo::Tell(SerdeReadError::Stream(cause)) if cause == "cut"));
    let todo: Todo<String> = receive(&mut router, Some(Ok(vec![5])));
    assert!(matches!(todo, Todo::Tell(SerdeReadError::Insufficient)));
    assert_eq!(router.channel(ContextHandle(0)), Some(&"root"));
    let todo: Todo<String> = receive(&mut router, None);
    assert!(matches!(todo, Todo::Over));
    assert_eq!(router.channel(ContextHandle(0)), None);
    assert_eq!(register(&mut router, 5, "five"), (vec![frame(5, 2)], Some("five")));
}

#[test]
fn failures_are_kept_back_from_the_router() {
    assert!(matches!(sift::<String>(None), Ok(None)));
    assert!(matches!(
        sift::<String>(Some(Ok(frame(3, 1)))),
        Ok(Some(Ok(data))) if data == frame(3, 1)
    ));
    assert!(matches!(sift::<u8>(Some(Err(4))), Err(SerdeReadError::Stream(4))));
    assert!(matches!(sift::<u8>(Some(Ok(vec![0; 3]))), Err(SerdeReadError::Insufficient)));
}

#[test]
fn context_is_registered_once_only() {
    let mut router = Router::new("root");
    let again = Registration { handle: ContextHandle(0), channel: "other" };
    assert!(router.register(again).is_none());
    assert_eq!(router.channel(ContextHandle(0)), Some(&"root"));
    register(&mut router, 3, "three");
    router.end();
    let again = Registration { handle: ContextHandle(3), channel: "other" };
    assert!(router.register(again).is_none());
}

#[test]
fn registration_gives_the_channel_that_frames_go_to() {
    let mut router = Router::new("root");
    arrive(&mut router, frame(3, 1));
    let registration = Registration { handle: ContextHandle(3), channel: "three" };
    let registered = router.register(registration).unwrap();
    assert_eq!(registered.frames, vec![frame(3, 1)]);
    assert_eq!(*registered.outlet.channel(), "three");
    router.end();
    let registration = Registration { handle: ContextHandle(5), channel: "five" };
    assert_eq!(*router.register(registration).unwrap().outlet.channel(), "five");
}

#[test]
fn contexts_share_a_link_and_do_not_meet_on_it() {
    let written: Vec<(u32, u8)> = vec![(0, 1), (4, 2), (2, 3), (4, 4), (0, 5), (2, 6), (4, 7)];
    let mut router = Router::new("root");
    let mut got: Vec<Vec<u8>> = vec![vec![]; 5];
    for (at, (id, byte)) in written.iter().enumerate() {
        if at == 3 {
            for data in register(&mut router, 4, "four").0 {
                got[4].push(payload(&data)[0]);
            }
        }
        if let Some(data) = arrive(&mut router, frame(*id, *byte)) {
            got[*id as usize].push(payload(&data)[0]);
        }
    }
    for data in register(&mut router, 2, "two").0 {
        got[2].push(payload(&data)[0]);
    }
    assert_eq!((&got[0], &got[2], &got[4]), (&vec![1, 5], &vec![3, 6], &vec![2, 4, 7]));
}

#[test]
fn every_frame_comes_through_once_and_in_order() {
    let mut router = Router::new("root");
    let mut out: Vec<u8> = vec![];
    for byte in 0..20u8 {
        if byte == 11 {
            for data in register(&mut router, 2, "two").0 {
                out.push(payload(&data)[0]);
            }
        }
        if let Some(data) = arrive(&mut router, frame(2, byte)) {
            out.push(payload(&data)[0]);
        }
        assert_eq!(arrive(&mut router, frame(4, byte)), None);
    }
    assert_eq!(out, (0..20u8).collect::<Vec<u8>>());
}

#[test]
fn opened_and_joined_contexts_are_registered_once() {
    let mut router = Router::new("root");
    let mut own = HandleAllocator::coalescing();
    let mut other = HandleAllocator::unraveling();
    for _ in 0..100 {
        for handle in [own.allocate(), other.allocate()] {
            assert_eq!(router.channel(handle), None);
            assert_eq!(register(&mut router, handle.0, "context"), (vec![], None));
            assert_eq!(router.channel(handle), Some(&"context"));
        }
    }
    assert_eq!(router.channel(ContextHandle(0)), Some(&"root"));
}

#[test]
fn a_context_that_is_open_stays_open_until_the_end() {
    let mut router = Router::new("root");
    register(&mut router, 1, "one");
    for id in 0..5 {
        arrive(&mut router, frame(id, 1));
    }
    register(&mut router, 3, "three");
    assert_eq!(router.channel(ContextHandle(1)), Some(&"one"));
    router.end();
    assert_eq!(router.channel(ContextHandle(1)), None);
    assert_eq!(router.channel(ContextHandle(3)), None);
}
