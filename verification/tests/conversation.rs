use oxideux_rs::client::{Action, Event, Outcome, Session};
use oxideux_rs::error::{Error, ProtocolRejection};
use oxideux_rs::parity::{DirItem, ItemKind};
use oxideux_rs::request::{Request, RequestResult};
use oxideux_rs::server::{lookup_for, respond, Facts, Lookup, Resolution, Response, Step};
use oxideux_rs::transfer::Transfer;
use oxideux_rs::wire::{missing_for_frame, split_frame};

/// Both peers over two queues in memory, with the server's files and the client's disk.
struct Wire {
    to_server: Vec<u8>,
    to_client: Vec<u8>,
    source: Vec<(String, Vec<u8>)>,
    written: Vec<(String, Vec<u8>)>,
    acks_seen: usize,
}

fn wire(source: &[(&str, &[u8])]) -> Wire {
    Wire {
        to_server: Vec::new(),
        to_client: Vec::new(),
        source: source.iter().map(|(n, b)| (n.to_string(), b.to_vec())).collect(),
        written: Vec::new(),
        acks_seen: 0,
    }
}

fn listing(w: &Wire) -> Vec<DirItem> {
    let mut items = vec![DirItem {
        name: "sub".to_string(),
        path: "/data/sub".to_string(),
        kind: ItemKind::Directory,
        size: 4096,
    }];
    for (name, bytes) in &w.source {
        items.push(DirItem {
            name: name.clone(),
            path: format!("/data/{}", name),
            kind: ItemKind::File,
            size: bytes.len() as u64,
        });
    }
    items
}

/// Carries out the server's steps from `at` on, as far as they go without waiting. Returns the
/// next step to carry out; a step that waits for an acknowledgment that has not come stays.
fn serve(w: &mut Wire, response: &Response, mut at: usize) -> usize {
    while at < response.steps.len() {
        match &response.steps[at] {
            Step::Send(bytes) => w.to_client.extend_from_slice(bytes),
            Step::Stream(entry) => {
                let content = w
                    .source
                    .iter()
                    .find(|(n, _)| *n == entry.name)
                    .map(|(_, b)| b.clone())
                    .unwrap();
                let mut transfer = Transfer::new(entry.length);
                let mut sent = 0usize;
                loop {
                    let size = transfer.next_chunk();
                    if size == 0 {
                        break;
                    }
                    w.to_client.extend_from_slice(&content[sent..sent + size]);
                    sent += size;
                    transfer.advance(size).unwrap();
                }
            }
            Step::AwaitAck => {
                if missing_for_frame(&w.to_server) > 0 {
                    return at;
                }
                let (payload, taken) = split_frame(&w.to_server).unwrap();
                RequestResult::from_payload(&payload).unwrap();
                w.to_server.drain(..taken);
                w.acks_seen += 1;
            }
            Step::Shutdown => {}
        }
        at += 1;
    }
    at
}

/// Feeds the client as long as it can go on without the server. Returns the result once the
/// session has ended, and the action that waits otherwise.
fn consume(w: &mut Wire, session: &mut Session, mut action: Action) -> Result<Result<Outcome, Error>, Action> {
    loop {
        let event = match action {
            Action::Send(bytes) => {
                w.to_server.extend_from_slice(&bytes);
                Event::Done
            }
            Action::Read(count) => {
                if w.to_client.len() < count {
                    return Err(Action::Read(count));
                }
                Event::Bytes(w.to_client.drain(..count).collect())
            }
            Action::Create(name) => {
                w.written.push((name, Vec::new()));
                Event::Done
            }
            Action::Receive(limit) => {
                if w.to_client.is_empty() {
                    return Err(Action::Receive(limit));
                }
                let count = limit.min(w.to_client.len());
                let chunk: Vec<u8> = w.to_client.drain(..count).collect();
                w.written.last_mut().unwrap().1.extend_from_slice(&chunk);
                Event::Moved(count)
            }
            Action::Finish(result) => return Ok(result),
        };
        action = session.step(event);
    }
}

/// Runs one request to its end and returns what the client made of it.
fn converse(w: &mut Wire, request: Request, facts_for: &dyn Fn(&Wire, &Lookup) -> Facts) -> Result<Outcome, Error> {
    let mut session = Session::new(request);
    let first = session.step(Event::Begin);
    let mut waiting = match consume(w, &mut session, first) {
        Ok(result) => return result,
        Err(action) => action,
    };
    let (payload, taken) = split_frame(&w.to_server).unwrap();
    w.to_server.drain(..taken);
    let received = Request::from_payload(&payload).unwrap();
    let facts = facts_for(w, &lookup_for(&received));
    let response = respond(&received, &facts);
    let mut at = 0;
    for _ in 0..100 {
        at = serve(w, &response, at);
        match consume(w, &mut session, waiting) {
            Ok(result) => {
                assert_eq!(serve(w, &response, at), response.steps.len());
                return result;
            }
            Err(action) => {
                if at == response.steps.len() && w.to_client.is_empty() {
                    return session_end(&mut session);
                }
                waiting = action;
            }
        }
    }
    panic!("the peers did not come to an end");
}

/// The server has closed: the client learns that its read failed.
fn session_end(session: &mut Session) -> Result<Outcome, Error> {
    match session.step(Event::Failed) {
        Action::Finish(result) => result,
        _ => unreachable!(),
    }
}

fn scan(w: &Wire, lookup: &Lookup) -> Facts {
    match lookup {
        Lookup::Nothing => Facts::Nothing,
        Lookup::Scan => Facts::Listing(listing(w)),
        Lookup::Resolve(name) => {
            let root = vec!["/".to_string(), "data".to_string()];
            let mut target = root.clone();
            for part in name.split('/') {
                if part == ".." {
                    if target.len() > 1 {
                        target.pop();
                    }
                } else if !part.is_empty() && part != "." {
                    target.push(part.to_string());
                }
            }
            let last = target.last().unwrap().clone();
            match w.source.iter().find(|(n, _)| *n == last && target.len() == 3) {
                Some((n, bytes)) => Facts::Resolved(Resolution {
                    root,
                    target,
                    item: DirItem {
                        name: n.clone(),
                        path: format!("/data/{}", n),
                        kind: ItemKind::File,
                        size: bytes.len() as u64,
                    },
                }),
                None => Facts::Resolved(Resolution {
                    root,
                    target: target.clone(),
                    item: DirItem {
                        name: last,
                        path: target.join("/"),
                        kind: ItemKind::File,
                        size: 6,
                    },
                }),
            }
        }
    }
}

#[test]
fn the_client_learns_the_number_of_files() {
    let mut w = wire(&[("a", b"abc"), ("b", b"12345"), ("c", b"")]);
    assert_eq!(converse(&mut w, Request::GetFileCount, &scan), Ok(Outcome::FileCount(3)));
    let mut again = wire(&[("a", b"abc"), ("b", b"12345"), ("c", b"")]);
    assert_eq!(converse(&mut again, Request::GetFileCount, &scan), Ok(Outcome::FileCount(3)));
}

#[test]
fn a_file_asked_for_by_name_arrives_byte_for_byte() {
    let content: Vec<u8> = (0..10_000u32).map(|i| (i % 251) as u8).collect();
    let mut w = wire(&[("a.txt", &content), ("b", b"12345")]);
    assert_eq!(
        converse(&mut w, Request::DownloadFileByName("a.txt".to_string()), &scan),
        Ok(Outcome::Downloaded(1))
    );
    assert_eq!(w.written, vec![("a.txt".to_string(), content)]);
    assert!(w.to_client.is_empty());
}

#[test]
fn a_name_that_leads_out_of_the_root_is_rejected() {
    let mut w = wire(&[("a.txt", b"inside")]);
    assert_eq!(
        converse(&mut w, Request::DownloadFileByName("../secret".to_string()), &scan),
        Err(Error::Rejected(ProtocolRejection::UnauthorizedAccess))
    );
    assert!(w.written.is_empty());
}

#[test]
fn a_file_asked_for_by_index_arrives_under_its_name() {
    let mut w = wire(&[("a", b"abc"), ("b", b"12345")]);
    assert_eq!(
        converse(&mut w, Request::DownloadFileByIndex(1), &scan),
        Ok(Outcome::Downloaded(1))
    );
    assert_eq!(w.written, vec![("b".to_string(), b"12345".to_vec())]);
}

#[test]
fn an_index_equal_to_the_count_sends_no_file() {
    let mut w = wire(&[("a", b"abc"), ("b", b"12345")]);
    assert_eq!(
        converse(&mut w, Request::DownloadFileByIndex(2), &scan),
        Err(Error::Rejected(ProtocolRejection::IndexOutOfBounds))
    );
    assert!(w.written.is_empty());
    assert!(w.to_client.is_empty());
}

#[test]
fn all_files_arrive_in_scan_order() {
    let mut w = wire(&[("a", b"abc"), ("b", b"12345")]);
    assert_eq!(converse(&mut w, Request::DownloadAllFiles, &scan), Ok(Outcome::Downloaded(2)));
    assert_eq!(
        w.written,
        vec![("a".to_string(), b"abc".to_vec()), ("b".to_string(), b"12345".to_vec())]
    );
    let total: usize = w.written.iter().map(|(_, bytes)| bytes.len()).sum();
    assert_eq!(total, 8);
    assert_eq!(w.acks_seen, 2);
}

#[test]
fn the_server_waits_for_each_acknowledgment() {
    let mut w = wire(&[("a", b"abc"), ("b", b"12345")]);
    let request = Request::DownloadAllFiles;
    let response = respond(&request, &Facts::Listing(listing(&w)));
    let at = serve(&mut w, &response, 0);
    assert_eq!(response.steps[at], Step::AwaitAck);
    assert_eq!(at, 3);
    let sent_before_ack = w.to_client.clone();
    assert_eq!(serve(&mut w, &response, at), at);
    assert_eq!(w.to_client, sent_before_ack);
    assert!(!w.to_client.ends_with(b"12345"));

    w.to_server.extend_from_slice(&RequestResult::Okay.to_frame()[..5]);
    assert_eq!(serve(&mut w, &response, at), at);
    assert_eq!(w.to_client, sent_before_ack);

    let rest = RequestResult::Okay.to_frame()[5..].to_vec();
    w.to_server.extend_from_slice(&rest);
    let at = serve(&mut w, &response, at);
    assert_eq!(at, 6);
    assert_eq!(response.steps[at], Step::AwaitAck);
    assert!(w.to_client.ends_with(b"12345"));
    assert_eq!(w.acks_seen, 1);

    w.to_server.extend_from_slice(&RequestResult::Okay.to_frame());
    assert_eq!(serve(&mut w, &response, at), response.steps.len());
    assert_eq!(w.acks_seen, 2);
}

#[test]
fn disconnect_needs_no_reply() {
    let mut w = wire(&[("a", b"abc")]);
    assert_eq!(converse(&mut w, Request::Disconnect, &scan), Ok(Outcome::Disconnected));
}
