use oxideux_rs::error::{Error, ProtocolError, ProtocolRejection};
use oxideux_rs::parity::{DirItem, Entry, ItemKind};
use oxideux_rs::request::{Request, RequestResult};
use oxideux_rs::dispatcher::{Action, Dispatcher, Event, Stage};
use oxideux_rs::server::{Facts, Lookup, Resolution};

fn file(name: &str, size: u64) -> DirItem {
    DirItem {
        name: name.to_string(),
        path: format!("/data/{}", name),
        kind: ItemKind::File,
        size,
    }
}

fn dir(name: &str) -> DirItem {
    DirItem {
        name: name.to_string(),
        path: format!("/data/{}", name),
        kind: ItemKind::Directory,
        size: 4096,
    }
}

fn entry(name: &str, length: u32) -> Entry {
    Entry { name: name.to_string(), path: format!("/data/{}", name), length }
}

/// A dispatcher that has read `request` and asks for its lookup.
fn asked(request: &Request) -> (Dispatcher, Action) {
    let mut dispatcher = Dispatcher::new();
    assert_eq!(dispatcher.stage(), Stage::Idle);
    assert_eq!(dispatcher.step(Event::Begin), Action::Read(4));
    let framed = request.to_frame().unwrap();
    let length = framed.len() - 4;
    assert_eq!(dispatcher.step(Event::Bytes(framed[..4].to_vec())), Action::Read(length));
    assert_eq!(dispatcher.stage(), Stage::RequestBody(length as u32));
    let action = dispatcher.step(Event::Bytes(framed[4..].to_vec()));
    (dispatcher, action)
}

#[test]
fn dispatcher_reads_the_request_and_asks_for_its_lookup() {
    let (dispatcher, action) = asked(&Request::GetFileCount);
    assert_eq!(action, Action::Gather(Lookup::Scan));
    assert_eq!(dispatcher.stage(), Stage::Dispatch);
    let (_, action) = asked(&Request::DownloadFileByName("a.txt".to_string()));
    assert_eq!(action, Action::Gather(Lookup::Resolve("a.txt".to_string())));
    let (_, action) = asked(&Request::Disconnect);
    assert_eq!(action, Action::Gather(Lookup::Nothing));
}

#[test]
fn dispatcher_shuts_down_on_disconnect() {
    let (mut dispatcher, _) = asked(&Request::Disconnect);
    assert_eq!(dispatcher.step(Event::Found(Facts::Nothing)), Action::Shutdown);
    assert_eq!(dispatcher.step(Event::Done), Action::Finish(Ok(())));
    assert!(dispatcher.is_closed());
}

#[test]
fn dispatcher_answers_the_file_count() {
    let (mut dispatcher, _) = asked(&Request::GetFileCount);
    let listing = vec![file("a", 3), dir("x"), file("b", 5), dir("y")];
    assert_eq!(
        dispatcher.step(Event::Found(Facts::Listing(listing))),
        Action::Send(vec![4, 0, 0, 0, 0, 0, 0, 0, 2, 0, 0, 0])
    );
    assert_eq!(dispatcher.stage(), Stage::Replying);
    assert_eq!(dispatcher.step(Event::Done), Action::Finish(Ok(())));
    assert!(dispatcher.is_closed());
}

#[test]
fn dispatcher_refuses_an_index_past_the_end_and_stops() {
    let (mut dispatcher, _) = asked(&Request::DownloadFileByIndex(2));
    let listing = vec![file("a", 3), file("b", 5)];
    assert_eq!(
        dispatcher.step(Event::Found(Facts::Listing(listing))),
        Action::Send(RequestResult::ErrIndexOutOfBounds.to_frame())
    );
    assert_eq!(
        dispatcher.step(Event::Done),
        Action::Finish(Err(Error::Rejected(ProtocolRejection::IndexOutOfBounds)))
    );
}

#[test]
fn dispatcher_refuses_a_name_outside_the_root() {
    let (mut dispatcher, _) = asked(&Request::DownloadFileByName("../secret".to_string()));
    let found = Resolution {
        root: vec!["/".to_string(), "data".to_string()],
        target: vec!["/".to_string(), "secret".to_string()],
        item: file("secret", 1),
    };
    assert_eq!(
        dispatcher.step(Event::Found(Facts::Resolved(found))),
        Action::Send(RequestResult::ErrUnauthorizedAccess.to_frame())
    );
    assert_eq!(
        dispatcher.step(Event::Done),
        Action::Finish(Err(Error::Rejected(ProtocolRejection::UnauthorizedAccess)))
    );
}

#[test]
fn dispatcher_waits_for_the_acknowledgment_of_each_file() {
    let (mut dispatcher, _) = asked(&Request::DownloadAllFiles);
    let listing = vec![file("a", 3), dir("x"), file("b", 5)];
    assert_eq!(
        dispatcher.step(Event::Found(Facts::Listing(listing))),
        Action::Send(vec![4, 0, 0, 0, 0, 0, 0, 0, 2, 0, 0, 0])
    );
    assert_eq!(
        dispatcher.step(Event::Done),
        Action::Send(vec![1, 0, 0, 0, b'a', 3, 0, 0, 0])
    );
    assert_eq!(dispatcher.step(Event::Done), Action::Stream(entry("a", 3)));
    assert_eq!(dispatcher.step(Event::Done), Action::Read(4));
    assert_eq!(dispatcher.stage(), Stage::AckHeader);
    assert_eq!(dispatcher.step(Event::Bytes(vec![4, 0, 0, 0])), Action::Read(4));
    assert_eq!(dispatcher.stage(), Stage::AckBody(4));
    assert_eq!(
        dispatcher.step(Event::Bytes(RequestResult::Okay.to_payload())),
        Action::Send(vec![1, 0, 0, 0, b'b', 5, 0, 0, 0])
    );
    assert_eq!(dispatcher.step(Event::Done), Action::Stream(entry("b", 5)));
    assert_eq!(dispatcher.step(Event::Done), Action::Read(4));
    assert_eq!(dispatcher.step(Event::Bytes(vec![4, 0, 0, 0])), Action::Read(4));
    assert_eq!(
        dispatcher.step(Event::Bytes(RequestResult::ErrIndexOutOfBounds.to_payload())),
        Action::Finish(Ok(()))
    );
    assert!(dispatcher.is_closed());
}

#[test]
fn dispatcher_sends_nothing_while_the_acknowledgment_is_missing() {
    let (mut dispatcher, _) = asked(&Request::DownloadAllFiles);
    dispatcher.step(Event::Found(Facts::Listing(vec![file("a", 3), file("b", 5)])));
    dispatcher.step(Event::Done);
    assert_eq!(dispatcher.step(Event::Done), Action::Stream(entry("a", 3)));
    assert_eq!(dispatcher.step(Event::Done), Action::Read(4));
    assert_eq!(dispatcher.step(Event::Done), Action::Finish(Err(Error::Io)));
    assert!(dispatcher.is_closed());
    assert_eq!(dispatcher.step(Event::Done), Action::Finish(Err(Error::Io)));
}

#[test]
fn dispatcher_fails_on_a_malformed_acknowledgment() {
    let (mut dispatcher, _) = asked(&Request::DownloadAllFiles);
    dispatcher.step(Event::Found(Facts::Listing(vec![file("a", 3)])));
    dispatcher.step(Event::Done);
    dispatcher.step(Event::Done);
    assert_eq!(dispatcher.step(Event::Done), Action::Read(4));
    assert_eq!(dispatcher.step(Event::Bytes(vec![4, 0, 0, 0])), Action::Read(4));
    assert_eq!(
        dispatcher.step(Event::Bytes(vec![7, 0, 0, 0])),
        Action::Finish(Err(Error::Protocol(ProtocolError::UnknownTag)))
    );
}

#[test]
fn dispatcher_fails_on_a_malformed_request() {
    let mut dispatcher = Dispatcher::new();
    dispatcher.step(Event::Begin);
    assert_eq!(
        dispatcher.step(Event::Bytes(vec![1, 0])),
        Action::Finish(Err(Error::Protocol(ProtocolError::Truncated)))
    );

    let mut dispatcher = Dispatcher::new();
    dispatcher.step(Event::Begin);
    assert_eq!(dispatcher.step(Event::Bytes(vec![4, 0, 0, 0])), Action::Read(4));
    assert_eq!(
        dispatcher.step(Event::Bytes(vec![9, 0, 0, 0])),
        Action::Finish(Err(Error::Protocol(ProtocolError::UnknownTag)))
    );

    let mut dispatcher = Dispatcher::new();
    dispatcher.step(Event::Begin);
    assert_eq!(dispatcher.step(Event::Bytes(vec![5, 0, 0, 0])), Action::Read(5));
    assert_eq!(
        dispatcher.step(Event::Bytes(vec![1, 0, 0, 0])),
        Action::Finish(Err(Error::Protocol(ProtocolError::Truncated)))
    );

    let mut dispatcher = Dispatcher::new();
    dispatcher.step(Event::Begin);
    assert_eq!(dispatcher.step(Event::Bytes(vec![13, 0, 0, 0])), Action::Read(13));
    assert_eq!(
        dispatcher.step(Event::Bytes(vec![3, 0, 0, 0, 1, 0, 0, 0, 0, 0, 0, 0, 0xff])),
        Action::Finish(Err(Error::Protocol(ProtocolError::InvalidUtf8)))
    );
}

#[test]
fn dispatcher_ends_on_failure() {
    let (mut dispatcher, _) = asked(&Request::GetFileCount);
    assert_eq!(dispatcher.step(Event::Failed), Action::Finish(Err(Error::Io)));
    assert!(dispatcher.is_closed());
    let (mut dispatcher, _) = asked(&Request::GetFileCount);
    assert_eq!(
        dispatcher.step(Event::Found(Facts::Unavailable)),
        Action::Finish(Err(Error::Io))
    );
    let mut dispatcher = Dispatcher::new();
    assert_eq!(dispatcher.step(Event::Done), Action::Finish(Err(Error::Io)));
}
