use oxideux_rs::error::{ProtocolError, ProtocolRejection};
use oxideux_rs::request::{Request, RequestResult};
use oxideux_rs::wire::split_frame;

fn all_requests() -> Vec<Request> {
    vec![
        Request::Disconnect,
        Request::GetFileCount,
        Request::DownloadFileByIndex(0),
        Request::DownloadFileByIndex(7),
        Request::DownloadFileByIndex(u64::MAX),
        Request::DownloadFileByName(String::new()),
        Request::DownloadFileByName("a.txt".to_string()),
        Request::DownloadFileByName("../secret".to_string()),
        Request::DownloadFileByName("snow ☃ man".to_string()),
        Request::DownloadAllFiles,
    ]
}

#[test]
fn request_payloads_are_exact() {
    assert_eq!(Request::Disconnect.to_payload(), vec![0, 0, 0, 0]);
    assert_eq!(Request::GetFileCount.to_payload(), vec![1, 0, 0, 0]);
    assert_eq!(
        Request::DownloadFileByIndex(258).to_payload(),
        vec![2, 0, 0, 0, 2, 1, 0, 0, 0, 0, 0, 0]
    );
    assert_eq!(
        Request::DownloadFileByName("ab".to_string()).to_payload(),
        vec![3, 0, 0, 0, 2, 0, 0, 0, 0, 0, 0, 0, b'a', b'b']
    );
    assert_eq!(Request::DownloadAllFiles.to_payload(), vec![4, 0, 0, 0]);
}

#[test]
fn result_payloads_are_exact() {
    assert_eq!(RequestResult::Okay.to_payload(), vec![0, 0, 0, 0]);
    assert_eq!(RequestResult::ErrUnauthorizedAccess.to_payload(), vec![1, 0, 0, 0]);
    assert_eq!(RequestResult::ErrIndexOutOfBounds.to_payload(), vec![2, 0, 0, 0]);
    assert_eq!(RequestResult::Okay.to_frame(), vec![4, 0, 0, 0, 0, 0, 0, 0]);
    assert_eq!(RequestResult::ErrIndexOutOfBounds.to_frame(), vec![4, 0, 0, 0, 2, 0, 0, 0]);
}

#[test]
fn every_request_round_trips() {
    for request in all_requests() {
        let payload = request.to_payload();
        assert_eq!(Request::from_payload(&payload), Ok(request.clone()));
        let framed = request.to_frame().unwrap();
        let (inner, taken) = split_frame(&framed).unwrap();
        assert_eq!(taken, framed.len());
        assert_eq!(inner, payload);
        assert_eq!(Request::from_payload(&inner), Ok(request));
    }
}

#[test]
fn every_result_round_trips() {
    for result in [
        RequestResult::Okay,
        RequestResult::ErrUnauthorizedAccess,
        RequestResult::ErrIndexOutOfBounds,
    ] {
        assert_eq!(RequestResult::from_payload(&result.to_payload()), Ok(result));
        let framed = result.to_frame();
        let (inner, _) = split_frame(&framed).unwrap();
        assert_eq!(RequestResult::from_payload(&inner), Ok(result));
    }
}

#[test]
fn boundary_payloads_round_trip() {
    let empty = Request::DownloadFileByName(String::new());
    assert_eq!(empty.to_payload(), vec![3, 0, 0, 0, 0, 0, 0, 0, 0, 0, 0, 0]);
    assert_eq!(Request::from_payload(&empty.to_payload()), Ok(empty));
    let last = Request::DownloadFileByIndex(u64::MAX);
    assert_eq!(
        last.to_payload(),
        vec![2, 0, 0, 0, 255, 255, 255, 255, 255, 255, 255, 255]
    );
    assert_eq!(Request::from_payload(&last.to_payload()), Ok(last));
}

#[test]
fn what_follows_a_value_is_ignored() {
    assert_eq!(Request::from_payload(&[1, 0, 0, 0, 99]), Ok(Request::GetFileCount));
    assert_eq!(
        Request::from_payload(&[3, 0, 0, 0, 1, 0, 0, 0, 0, 0, 0, 0, b'x', b'y']),
        Ok(Request::DownloadFileByName("x".to_string()))
    );
    assert_eq!(RequestResult::from_payload(&[0, 0, 0, 0, 1]), Ok(RequestResult::Okay));
}

#[test]
fn unknown_tags_are_refused() {
    assert_eq!(Request::from_payload(&[5, 0, 0, 0]), Err(ProtocolError::UnknownTag));
    assert_eq!(Request::from_payload(&[0, 1, 0, 0]), Err(ProtocolError::UnknownTag));
    assert_eq!(RequestResult::from_payload(&[3, 0, 0, 0]), Err(ProtocolError::UnknownTag));
    assert_eq!(
        RequestResult::from_payload(&[255, 255, 255, 255]),
        Err(ProtocolError::UnknownTag)
    );
}

#[test]
fn short_payloads_are_truncated() {
    assert_eq!(Request::from_payload(&[]), Err(ProtocolError::Truncated));
    assert_eq!(Request::from_payload(&[2, 0, 0]), Err(ProtocolError::Truncated));
    assert_eq!(Request::from_payload(&[2, 0, 0, 0, 1, 2, 3]), Err(ProtocolError::Truncated));
    assert_eq!(Request::from_payload(&[3, 0, 0, 0, 1, 0, 0, 0]), Err(ProtocolError::Truncated));
    assert_eq!(
        Request::from_payload(&[3, 0, 0, 0, 2, 0, 0, 0, 0, 0, 0, 0, b'a']),
        Err(ProtocolError::Truncated)
    );
    assert_eq!(
        Request::from_payload(&[3, 0, 0, 0, 255, 255, 255, 255, 255, 255, 255, 255, b'a']),
        Err(ProtocolError::Truncated)
    );
    assert_eq!(RequestResult::from_payload(&[0, 0]), Err(ProtocolError::Truncated));
}

#[test]
fn names_that_are_not_utf8_are_refused() {
    assert_eq!(
        Request::from_payload(&[3, 0, 0, 0, 1, 0, 0, 0, 0, 0, 0, 0, 0xff]),
        Err(ProtocolError::InvalidUtf8)
    );
}

#[test]
fn payloads_agree_with_bincode() {
    assert_eq!(Request::Disconnect.to_payload(), bincode::serialize(&0u32).unwrap());
    assert_eq!(Request::GetFileCount.to_payload(), bincode::serialize(&1u32).unwrap());
    assert_eq!(Request::DownloadAllFiles.to_payload(), bincode::serialize(&4u32).unwrap());
    for index in [0u64, 1, 258, 0x1_0000_0000, u64::MAX] {
        assert_eq!(
            Request::DownloadFileByIndex(index).to_payload(),
            bincode::serialize(&(2u32, index)).unwrap()
        );
    }
    for name in ["", "a.txt", "../secret", "snow ☃ man"] {
        assert_eq!(
            Request::DownloadFileByName(name.to_string()).to_payload(),
            bincode::serialize(&(3u32, name.to_string())).unwrap()
        );
    }
    assert_eq!(RequestResult::Okay.to_payload(), bincode::serialize(&0u32).unwrap());
    assert_eq!(
        RequestResult::ErrUnauthorizedAccess.to_payload(),
        bincode::serialize(&1u32).unwrap()
    );
    assert_eq!(
        RequestResult::ErrIndexOutOfBounds.to_payload(),
        bincode::serialize(&2u32).unwrap()
    );
}

#[test]
fn readers_agree_with_bincode() {
    let index: (u32, u64) =
        bincode::deserialize(&Request::DownloadFileByIndex(77).to_payload()).unwrap();
    assert_eq!(index, (2, 77));
    let name: (u32, String) =
        bincode::deserialize(&Request::DownloadFileByName("b.bin".to_string()).to_payload())
            .unwrap();
    assert_eq!(name, (3, "b.bin".to_string()));
    let payload = bincode::serialize(&(3u32, "from bincode".to_string())).unwrap();
    assert_eq!(
        Request::from_payload(&payload),
        Ok(Request::DownloadFileByName("from bincode".to_string()))
    );
}

#[test]
fn naturalize_turns_refusals_into_errors() {
    assert_eq!(RequestResult::Okay.naturalize(), Ok(()));
    assert_eq!(
        RequestResult::ErrUnauthorizedAccess.naturalize(),
        Err(ProtocolRejection::UnauthorizedAccess)
    );
    assert_eq!(
        RequestResult::ErrIndexOutOfBounds.naturalize(),
        Err(ProtocolRejection::IndexOutOfBounds)
    );
    assert_eq!(ProtocolRejection::UnauthorizedAccess.message(), "Unauthorized access");
    assert_eq!(ProtocolRejection::IndexOutOfBounds.message(), "Index out of bounds");
}
