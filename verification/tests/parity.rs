use oxideux_rs::error::Error;
use oxideux_rs::parity::{
    get_file_entries, get_file_entry, is_within, make_entry, DirItem, Entry, ItemKind,
};

fn item(name: &str, kind: ItemKind, size: u64) -> DirItem {
    DirItem { name: name.to_string(), path: format!("/data/{}", name), kind, size }
}

fn parts(path: &[&str]) -> Vec<String> {
    path.iter().map(|p| p.to_string()).collect()
}

#[test]
fn scan_lists_files_and_skips_directories() {
    let listing = vec![
        item("a", ItemKind::File, 3),
        item("sub", ItemKind::Directory, 4096),
        item("b", ItemKind::File, 5),
        item("other", ItemKind::Directory, 0),
        item("c", ItemKind::File, 0),
    ];
    let entries = get_file_entries(&listing);
    assert_eq!(
        entries,
        vec![
            Entry { name: "a".to_string(), path: "/data/a".to_string(), length: 3 },
            Entry { name: "b".to_string(), path: "/data/b".to_string(), length: 5 },
            Entry { name: "c".to_string(), path: "/data/c".to_string(), length: 0 },
        ]
    );
}

#[test]
fn scan_counts_exactly_the_files() {
    for files in 0..5usize {
        for dirs in 0..4usize {
            let mut listing = Vec::new();
            for d in 0..dirs {
                listing.push(item(&format!("d{}", d), ItemKind::Directory, 0));
            }
            for f in 0..files {
                listing.push(item(&format!("f{}", f), ItemKind::File, f as u64));
            }
            assert_eq!(get_file_entries(&listing).len(), files);
        }
    }
}

#[test]
fn scan_of_nothing_is_empty() {
    assert_eq!(get_file_entries(&Vec::new()), Vec::<Entry>::new());
    assert_eq!(
        get_file_entries(&vec![item("only", ItemKind::Directory, 1)]),
        Vec::<Entry>::new()
    );
}

#[test]
fn scan_keeps_what_is_neither_file_nor_directory() {
    let listing = vec![item("pipe", ItemKind::Other, 0), item("dir", ItemKind::Directory, 0)];
    let entries = get_file_entries(&listing);
    assert_eq!(entries.len(), 1);
    assert_eq!(entries[0].name, "pipe");
}

#[test]
fn length_keeps_the_low_32_bits() {
    assert_eq!(make_entry(&item("small", ItemKind::File, 12)).length, 12);
    assert_eq!(make_entry(&item("edge", ItemKind::File, 0xffff_ffff)).length, u32::MAX);
    assert_eq!(make_entry(&item("big", ItemKind::File, 0x1_0000_0000)).length, 0);
    assert_eq!(make_entry(&item("bigger", ItemKind::File, 0x1_0000_0007)).length, 7);
    assert_eq!(make_entry(&item("huge", ItemKind::File, u64::MAX)).length, u32::MAX);
}

#[test]
fn single_entry_must_be_a_file() {
    assert_eq!(
        get_file_entry(&item("a.txt", ItemKind::File, 9)),
        Ok(Entry { name: "a.txt".to_string(), path: "/data/a.txt".to_string(), length: 9 })
    );
    assert_eq!(get_file_entry(&item("sub", ItemKind::Directory, 9)), Err(Error::Io));
    assert_eq!(get_file_entry(&item("pipe", ItemKind::Other, 9)), Err(Error::Io));
}

#[test]
fn entry_is_duplicated() {
    let entry = make_entry(&item("a", ItemKind::File, 3));
    assert_eq!(entry.duplicate(), entry);
}

#[test]
fn paths_under_the_root_are_within() {
    let root = parts(&["/", "data"]);
    assert!(is_within(&parts(&["/", "data", "a.txt"]), &root));
    assert!(is_within(&parts(&["/", "data", "sub", "deep"]), &root));
    assert!(is_within(&parts(&["/", "data"]), &root));
    assert!(is_within(&parts(&["/"]), &Vec::new()));
}

#[test]
fn paths_outside_the_root_are_not_within() {
    let root = parts(&["/", "data"]);
    assert!(!is_within(&parts(&["/", "secret"]), &root));
    assert!(!is_within(&parts(&["/"]), &root));
    assert!(!is_within(&parts(&["/", "database", "a.txt"]), &root));
    assert!(!is_within(&parts(&["/", "datax"]), &root));
    assert!(!is_within(&parts(&["data", "/"]), &root));
    assert!(!is_within(&Vec::new(), &root));
}
