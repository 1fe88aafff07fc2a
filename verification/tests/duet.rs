use oxideux_rs::client::{Action as Ask, Event as Told, Outcome, Phase, Session};
use oxideux_rs::error::{Error, ProtocolRejection};
use oxideux_rs::parity::{DirItem, ItemKind};
use oxideux_rs::request::{Request, RequestResult};
use oxideux_rs::dispatcher::{Action, Dispatcher, Event};
use oxideux_rs::server::{Facts, Lookup, Resolution};
use oxideux_rs::transfer::Transfer;

/// A transport in memory: one queue in each direction, the server's files, the client's disk,
/// and a record of what happened in which order.
struct Stage {
    to_server: Vec<u8>,
    to_client: Vec<u8>,
    source: Vec<(String, Vec<u8>)>,
    disk: Vec<(String, Vec<u8>)>,
    record: Vec<String>,
}

fn gather(stage: &Stage, lookup: &Lookup) -> Facts {
    match lookup {
        Lookup::Nothing => Facts::Nothing,
        Lookup::Scan => {
            let mut listing = vec![DirItem {
                name: "nested".to_string(),
                path: "/data/nested".to_string(),
                kind: ItemKind::Directory,
                size: 4096,
            }];
            for (name, bytes) in &stage.source {
                listing.push(DirItem {
                    name: name.clone(),
                    path: format!("/data/{}", name),
                    kind: ItemKind::File,
                    size: bytes.len() as u64,
                });
            }
            Facts::Listing(listing)
        }
        Lookup::Resolve(name) => {
            let root = vec!["/".to_string(), "data".to_string()];
            match stage.source.iter().find(|(n, _)| n == name) {
                Some((n, bytes)) => Facts::Resolved(Resolution {
                    root: root.clone(),
                    target: vec!["/".to_string(), "data".to_string(), n.clone()],
                    item: DirItem {
                        name: n.clone(),
                        path: format!("/data/{}", n),
                        kind: ItemKind::File,
                        size: bytes.len() as u64,
                    },
                }),
                None if name.starts_with("../") => Facts::Resolved(Resolution {
                    root,
                    target: vec!["/".to_string(), name[3..].to_string()],
                    item: DirItem {
                        name: name[3..].to_string(),
                        path: format!("/{}", &name[3..]),
                        kind: ItemKind::File,
                        size: 6,
                    },
                }),
                None => Facts::Unavailable,
            }
        }
    }
}

/// Lets the server go on as far as it can. Returns its result once it has ended.
fn serve(
    stage: &mut Stage,
    dispatcher: &mut Dispatcher,
    waiting: &mut Option<Action>,
) -> Option<Result<(), Error>> {
    loop {
        let event = match waiting.take().unwrap() {
            Action::Read(count) => {
                if stage.to_server.len() < count {
                    *waiting = Some(Action::Read(count));
                    return None;
                }
                Event::Bytes(stage.to_server.drain(..count).collect())
            }
            Action::Gather(lookup) => Event::Found(gather(stage, &lookup)),
            Action::Send(bytes) => {
                stage.to_client.extend_from_slice(&bytes);
                Event::Done
            }
            Action::Stream(entry) => {
                stage.record.push(format!("server streams {}", entry.name));
                let content =
                    stage.source.iter().find(|(n, _)| *n == entry.name).unwrap().1.clone();
                let mut transfer = Transfer::new(entry.length);
                let mut sent = 0;
                while transfer.next_chunk() > 0 {
                    let size = transfer.next_chunk();
                    stage.to_client.extend_from_slice(&content[sent..sent + size]);
                    sent += size;
                    transfer.advance(size).unwrap();
                }
                Event::Done
            }
            Action::Shutdown => {
                stage.record.push("server shuts down".to_string());
                Event::Done
            }
            Action::Finish(result) => return Some(result),
        };
        *waiting = Some(dispatcher.step(event));
    }
}

/// Lets the client go on as far as it can. Returns its result once it has ended.
fn fetch(
    stage: &mut Stage,
    session: &mut Session,
    waiting: &mut Option<Ask>,
    server_gone: bool,
) -> Option<Result<Outcome, Error>> {
    loop {
        let event = match waiting.take().unwrap() {
            Ask::Send(bytes) => {
                if session.phase() == Phase::Acking {
                    assert_eq!(bytes, RequestResult::Okay.to_frame());
                    stage.record.push("client acknowledges".to_string());
                }
                stage.to_server.extend_from_slice(&bytes);
                Told::Done
            }
            Ask::Read(count) => {
                if stage.to_client.len() < count {
                    if server_gone {
                        Told::Failed
                    } else {
                        *waiting = Some(Ask::Read(count));
                        return None;
                    }
                } else {
                    Told::Bytes(stage.to_client.drain(..count).collect())
                }
            }
            Ask::Create(name) => {
                stage.disk.push((name, Vec::new()));
                Told::Done
            }
            Ask::Receive(limit) => {
                if stage.to_client.is_empty() {
                    if server_gone {
                        Told::Moved(0)
                    } else {
                        *waiting = Some(Ask::Receive(limit));
                        return None;
                    }
                } else {
                    let count = limit.min(stage.to_client.len()).min(3);
                    let chunk: Vec<u8> = stage.to_client.drain(..count).collect();
                    stage.disk.last_mut().unwrap().1.extend_from_slice(&chunk);
                    Told::Moved(count)
                }
            }
            Ask::Finish(result) => return Some(result),
        };
        *waiting = Some(session.step(event));
    }
}

/// Runs one request between a dispatcher and a session until both have ended.
fn duet(
    source: &[(&str, &[u8])],
    request: Request,
) -> (Result<(), Error>, Result<Outcome, Error>, Stage) {
    let mut stage = Stage {
        to_server: Vec::new(),
        to_client: Vec::new(),
        source: source.iter().map(|(n, b)| (n.to_string(), b.to_vec())).collect(),
        disk: Vec::new(),
        record: Vec::new(),
    };
    let mut dispatcher = Dispatcher::new();
    let mut session = Session::new(request);
    let mut server_waits = Some(dispatcher.step(Event::Begin));
    let mut client_waits = Some(session.step(Told::Begin));
    let mut served = None;
    let mut fetched = None;
    for _ in 0..10_000 {
        if fetched.is_none() {
            fetched = fetch(&mut stage, &mut session, &mut client_waits, served.is_some());
        }
        if served.is_none() {
            served = serve(&mut stage, &mut dispatcher, &mut server_waits);
            if served.is_none() && fetched.is_some() {
                served = Some(match dispatcher.step(Event::Failed) {
                    Action::Finish(result) => result,
                    _ => unreachable!(),
                });
            }
        }
        if let (Some(served), Some(fetched)) = (served, fetched) {
            return (served, fetched, stage);
        }
    }
    panic!("the peers did not come to an end");
}

#[test]
fn duet_counts_the_files() {
    let (served, fetched, _) = duet(&[("a", b"abc"), ("b", b"12345")], Request::GetFileCount);
    assert_eq!(served, Ok(()));
    assert_eq!(fetched, Ok(Outcome::FileCount(2)));
    let (_, again, _) = duet(&[("a", b"abc"), ("b", b"12345")], Request::GetFileCount);
    assert_eq!(again, fetched);
}

#[test]
fn duet_downloads_all_files_one_at_a_time() {
    let (served, fetched, stage) =
        duet(&[("a", b"abc"), ("b", b"12345")], Request::DownloadAllFiles);
    assert_eq!(served, Ok(()));
    assert_eq!(fetched, Ok(Outcome::Downloaded(2)));
    assert_eq!(
        stage.disk,
        vec![("a".to_string(), b"abc".to_vec()), ("b".to_string(), b"12345".to_vec())]
    );
    assert_eq!(stage.disk.iter().map(|(_, bytes)| bytes.len()).sum::<usize>(), 8);
    assert_eq!(
        stage.record,
        vec![
            "server streams a",
            "client acknowledges",
            "server streams b",
            "client acknowledges",
        ]
    );
    assert!(stage.to_client.is_empty());
    assert!(stage.to_server.is_empty());
}

#[test]
fn duet_downloads_a_large_file_by_name() {
    let content: Vec<u8> = (0..20_000u32).map(|i| (i % 253) as u8).collect();
    let (served, fetched, stage) = duet(
        &[("big.bin", &content), ("b", b"12345")],
        Request::DownloadFileByName("big.bin".to_string()),
    );
    assert_eq!(served, Ok(()));
    assert_eq!(fetched, Ok(Outcome::Downloaded(1)));
    assert_eq!(stage.disk, vec![("big.bin".to_string(), content)]);
}

#[test]
fn duet_downloads_by_index() {
    let (served, fetched, stage) =
        duet(&[("a", b"abc"), ("b", b"12345")], Request::DownloadFileByIndex(0));
    assert_eq!(served, Ok(()));
    assert_eq!(fetched, Ok(Outcome::Downloaded(1)));
    assert_eq!(stage.disk, vec![("a".to_string(), b"abc".to_vec())]);
}

#[test]
fn duet_refuses_an_index_equal_to_the_count() {
    let (served, fetched, stage) =
        duet(&[("a", b"abc"), ("b", b"12345")], Request::DownloadFileByIndex(2));
    assert_eq!(served, Err(Error::Rejected(ProtocolRejection::IndexOutOfBounds)));
    assert_eq!(fetched, Err(Error::Rejected(ProtocolRejection::IndexOutOfBounds)));
    assert!(stage.disk.is_empty());
    assert!(stage.record.is_empty());
}

#[test]
fn duet_refuses_a_name_that_leaves_the_root() {
    let (served, fetched, stage) =
        duet(&[("a.txt", b"inside")], Request::DownloadFileByName("../secret".to_string()));
    assert_eq!(served, Err(Error::Rejected(ProtocolRejection::UnauthorizedAccess)));
    assert_eq!(fetched, Err(Error::Rejected(ProtocolRejection::UnauthorizedAccess)));
    assert!(stage.disk.is_empty());
}

#[test]
fn duet_ends_both_sides_when_the_lookup_fails() {
    let (served, fetched, _) =
        duet(&[("a.txt", b"inside")], Request::DownloadFileByName("missing".to_string()));
    assert_eq!(served, Err(Error::Io));
    assert_eq!(fetched, Err(Error::Io));
}

#[test]
fn duet_disconnects() {
    let (served, fetched, stage) = duet(&[("a", b"abc")], Request::Disconnect);
    assert_eq!(served, Ok(()));
    assert_eq!(fetched, Ok(Outcome::Disconnected));
    assert_eq!(stage.record, vec!["server shuts down"]);
}
