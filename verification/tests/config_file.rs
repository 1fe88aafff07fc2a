use oxideux_rs::config::common::{Field, ProfileBook, RawProfile};
use oxideux_rs::config::file::{book_of, profiles_object, read_book, write_book};
use oxideux_rs::config::ConfigError;

fn raw(root: &str, port: u16, address: &str) -> RawProfile {
    RawProfile {
        parity_root: Field::Held(root.to_string()),
        port: Field::Held(port),
        address: Field::Held(address.to_string()),
    }
}

fn entries(book: &ProfileBook) -> Vec<(String, Option<RawProfile>)> {
    (0..book.len()).map(|i| (book.name_at(i).clone(), book.slot_at(i).clone())).collect()
}

const SERVER_FILE: &str = r#"{
    "profiles": {
        "default": { "parity_root": "{home}/oxideux/source", "port": 49160, "mask": "0.0.0.0" },
        "work": { "parity_root": "/srv/files", "port": 5000, "mask": "10.0.0.1" }
    }
}"#;

#[test]
fn a_file_is_read_into_a_book() {
    let book = read_book(SERVER_FILE, "mask").unwrap();
    assert_eq!(
        entries(&book),
        vec![
            ("default".to_string(), Some(raw("{home}/oxideux/source", 49160, "0.0.0.0"))),
            ("work".to_string(), Some(raw("/srv/files", 5000, "10.0.0.1"))),
        ]
    );
}

#[test]
fn the_address_is_read_under_the_key_of_the_role() {
    let book = read_book(SERVER_FILE, "ipv4").unwrap();
    assert_eq!(
        book.slot_at(1),
        &Some(RawProfile {
            parity_root: Field::Held("/srv/files".to_string()),
            port: Field::Held(5000),
            address: Field::Missing,
        })
    );
}

#[test]
fn fields_of_the_wrong_kind_are_not_read() {
    let source = r#"{"profiles": {
        "odd": { "parity_root": 7, "port": "49160", "mask": null },
        "large": { "parity_root": "/r", "port": 70000, "mask": "m" },
        "negative": { "parity_root": "/r", "port": -1, "mask": "m" },
        "empty": {},
        "junk": [1, 2],
        "text": "a profile?"
    }}"#;
    let book = read_book(source, "mask").unwrap();
    let mistyped = RawProfile {
        parity_root: Field::Mistyped,
        port: Field::Mistyped,
        address: Field::Mistyped,
    };
    let missing = RawProfile {
        parity_root: Field::Missing,
        port: Field::Missing,
        address: Field::Missing,
    };
    let no_port = RawProfile {
        parity_root: Field::Held("/r".to_string()),
        port: Field::Mistyped,
        address: Field::Held("m".to_string()),
    };
    assert_eq!(
        entries(&book),
        vec![
            ("odd".to_string(), Some(mistyped)),
            ("large".to_string(), Some(no_port.clone())),
            ("negative".to_string(), Some(no_port)),
            ("empty".to_string(), Some(missing)),
            ("junk".to_string(), None),
            ("text".to_string(), None),
        ]
    );
}

#[test]
fn a_book_without_profiles_is_read() {
    let book = read_book(r#"{"profiles": {}}"#, "mask").unwrap();
    assert_eq!(book.len(), 0);
}

#[test]
fn a_text_that_is_no_json_is_unreadable() {
    match read_book("{\"profiles\": ", "mask") {
        Err(ConfigError::Unreadable(text)) => assert!(!text.is_empty()),
        _ => panic!("the text was read"),
    }
    assert!(matches!(read_book("", "mask"), Err(ConfigError::Unreadable(_))));
}

#[test]
fn a_file_without_the_profiles_object_is_refused() {
    assert_eq!(read_book("[1, 2]", "mask").err(), Some(ConfigError::RootMalformed));
    assert_eq!(read_book("7", "mask").err(), Some(ConfigError::RootMalformed));
    assert_eq!(
        read_book("{}", "mask").err(),
        Some(ConfigError::ProfileMissing("profiles".to_string()))
    );
    assert_eq!(
        read_book(r#"{"profiles": 3}"#, "mask").err(),
        Some(ConfigError::ProfileMalformed("profiles".to_string()))
    );
    assert_eq!(
        read_book("[]", "mask").unwrap_err().message(),
        "Could not get config root object"
    );
    assert_eq!(
        read_book("{}", "mask").unwrap_err().message(),
        "'profiles' key was not found in object"
    );
    assert_eq!(
        read_book(r#"{"profiles": []}"#, "mask").unwrap_err().message(),
        "Expected key 'profiles' to be of type Object."
    );
}

#[test]
fn a_book_is_written_as_json() {
    let mut book = ProfileBook::new();
    book.insert("srv", Some(raw("/srv", 49160, "0.0.0.0")));
    assert_eq!(
        write_book("", &book, "mask"),
        r#"{"profiles":{"srv":{"parity_root":"/srv","port":49160,"mask":"0.0.0.0"}}}"#
    );
    assert_eq!(
        write_book("", &book, "ipv4"),
        r#"{"profiles":{"srv":{"parity_root":"/srv","port":49160,"ipv4":"0.0.0.0"}}}"#
    );
    assert_eq!(write_book("", &ProfileBook::new(), "mask"), r#"{"profiles":{}}"#);
}

#[test]
fn a_written_book_is_read_back() {
    let mut book = ProfileBook::new();
    book.insert("b", Some(raw("{download}", 49160, "localhost")));
    book.insert("a", Some(raw("/a \"quoted\" \\ path", 1024, "1.2.3.4")));
    book.insert(
        "half",
        Some(RawProfile {
            parity_root: Field::Missing,
            port: Field::Held(9),
            address: Field::Missing,
        }),
    );
    let text = write_book("", &book, "ipv4");
    let back = read_book(&text, "ipv4").unwrap();
    assert_eq!(entries(&back), entries(&book));
}

#[test]
fn what_the_file_holds_beside_the_profiles_stays() {
    let before = r#"{"version": 2, "profiles": {"old": {"port": 1}}, "note": "keep"}"#;
    let mut book = ProfileBook::new();
    book.insert("new", Some(raw("/n", 2000, "0.0.0.0")));
    assert_eq!(
        write_book(before, &book, "mask"),
        r#"{"version":2,"profiles":{"new":{"parity_root":"/n","port":2000,"mask":"0.0.0.0"}},"note":"keep"}"#
    );
}

#[test]
fn what_is_no_profile_keeps_what_stood_there() {
    let before = r#"{"profiles": {"junk": [1, 2], "a": {"parity_root": "/a", "port": 1, "mask": "m"}}}"#;
    let mut book = read_book(before, "mask").unwrap();
    book.insert("b", Some(raw("/b", 2, "n")));
    book.insert("lost", None);
    assert_eq!(
        write_book(before, &book, "mask"),
        concat_all(&[
            r#"{"profiles":{"junk":[1,2],"#,
            r#""a":{"parity_root":"/a","port":1,"mask":"m"},"#,
            r#""b":{"parity_root":"/b","port":2,"mask":"n"},"#,
            r#""lost":null}}"#,
        ])
    );
    assert_eq!(
        write_book("not json", &book, "mask"),
        concat_all(&[
            r#"{"profiles":{"junk":null,"#,
            r#""a":{"parity_root":"/a","port":1,"mask":"m"},"#,
            r#""b":{"parity_root":"/b","port":2,"mask":"n"},"#,
            r#""lost":null}}"#,
        ])
    );
}

fn concat_all(parts: &[&str]) -> String {
    parts.iter().map(|p| p.to_string()).collect()
}

#[test]
fn the_profiles_object_has_the_names_of_the_book() {
    let mut book = ProfileBook::new();
    book.insert("z", Some(raw("/z", 1, "m")));
    book.insert("a", None);
    let profiles = profiles_object(&book, None, "mask");
    let keys: Vec<String> = profiles.iter().map(|(key, _)| key.to_string()).collect();
    assert_eq!(keys, vec!["z", "a"]);
    let back = book_of(&profiles, "mask");
    assert_eq!(entries(&back), entries(&book));
}
