//! The catalog of the parity root: which of a directory's children can be served, and under
//! which name, path and length.
//!
//! The file system is read by the caller. This module decides on what it reports: a listing
//! becomes a snapshot of entries, and a path named by a client is served only where it lies under
//! the root.

use vstd::prelude::*;
use crate::error::Error;

verus! {

/// What kind of thing a directory's child is.
#[derive(Clone, Copy, Debug, PartialEq, Eq, Structural)]
pub enum ItemKind {
    /// A regular file.
    File,
    /// A directory.
    Directory,
    /// Anything else: a socket, a device, a dangling link.
    Other,
}

/// One child of a directory, as the file system reports it.
#[derive(Clone, Debug, PartialEq, Eq)]
pub struct DirItem {
    pub name: String,
    pub path: String,
    pub kind: ItemKind,
    /// The size in bytes.
    pub size: u64,
}

/// One servable file. `length` is the size in bytes as far as 32 bits hold it: of a larger file
/// the low 32 bits.
#[derive(Clone, Debug, PartialEq, Eq)]
pub struct Entry {
    pub name: String,
    pub path: String,
    pub length: u32,
}

/// The length that an entry records for a file of `size` bytes.
pub open spec fn length_of(size: u64) -> u32 {
    (size % 0x1_0000_0000) as u32
}

/// The entry that stands for `item`.
pub open spec fn entry_of(item: DirItem) -> Entry {
    Entry { name: item.name, path: item.path, length: length_of(item.size) }
}

/// Whether a scan lists `item`: every child but a directory.
pub open spec fn is_listed(item: DirItem) -> bool {
    item.kind != ItemKind::Directory
}

/// The snapshot that a scan makes of a listing: the entries of the children that are no
/// directories, in the listing's order.
pub open spec fn catalog(listing: Seq<DirItem>) -> Seq<Entry>
    decreases listing.len(),
{
    if listing.len() == 0 {
        Seq::empty()
    } else if is_listed(listing.last()) {
        catalog(listing.drop_last()).push(entry_of(listing.last()))
    } else {
        catalog(listing.drop_last())
    }
}

/// The number of children that a scan lists.
pub open spec fn listed_count(listing: Seq<DirItem>) -> nat
    decreases listing.len(),
{
    if listing.len() == 0 {
        0
    } else if is_listed(listing.last()) {
        listed_count(listing.drop_last()) + 1
    } else {
        listed_count(listing.drop_last())
    }
}

/// A snapshot holds one entry for each child that is no directory.
pub proof fn lemma_catalog_len(listing: Seq<DirItem>)
    ensures
        catalog(listing).len() == listed_count(listing),
        catalog(listing).len() <= listing.len(),
    decreases listing.len(),
{
    if listing.len() > 0 {
        lemma_catalog_len(listing.drop_last());
    }
}

/// A snapshot follows the listing: each of its entries stands for a child that is no directory,
/// and it stands at the place that the child has among such children.
pub proof fn law_snapshot_keeps_the_order(listing: Seq<DirItem>, k: int)
    requires
        0 <= k < catalog(listing).len(),
    ensures
        exists|i: int|
            0 <= i < listing.len() && is_listed(#[trigger] listing[i]) && catalog(listing)[k]
                == entry_of(listing[i]) && catalog(listing.take(i)).len() == k,
    decreases listing.len(),
{
    let front = listing.drop_last();
    lemma_catalog_len(front);
    if is_listed(listing.last()) && k == catalog(front).len() {
        let i = listing.len() - 1;
        assert(listing.take(i) =~= front);
        assert(listing[i] == listing.last());
    } else {
        law_snapshot_keeps_the_order(front, k);
        let i = choose|i: int|
            0 <= i < front.len() && is_listed(#[trigger] front[i]) && catalog(front)[k]
                == entry_of(front[i]) && catalog(front.take(i)).len() == k;
        assert(listing.take(i) =~= front.take(i));
        assert(listing[i] == front[i]);
    }
}

impl Entry {
    /// A second value of the same entry.
    pub fn duplicate(&self) -> (copy: Entry)
        ensures
            copy == *self,
    {
        Entry { name: self.name.clone(), path: self.path.clone(), length: self.length }
    }
}

/// The entry of one child.
pub fn make_entry(item: &DirItem) -> (entry: Entry)
    ensures
        entry == entry_of(*item),
{
    Entry {
        name: item.name.clone(),
        path: item.path.clone(),
        length: (item.size % 0x1_0000_0000) as u32,
    }
}

/// The entry of a single path, which must be a regular file: anything else is an I/O error.
pub fn get_file_entry(item: &DirItem) -> (entry: Result<Entry, Error>)
    ensures
        item.kind == ItemKind::File ==> entry == Ok::<Entry, Error>(entry_of(*item)),
        item.kind != ItemKind::File ==> entry == Err::<Entry, Error>(Error::Io),
{
    match item.kind {
        ItemKind::File => Ok(make_entry(item)),
        _ => Err(Error::Io),
    }
}

/// The snapshot of a listing.
pub fn get_file_entries(listing: &Vec<DirItem>) -> (entries: Vec<Entry>)
    ensures
        entries@ == catalog(listing@),
{
    let mut entries: Vec<Entry> = Vec::new();
    let mut i: usize = 0;
    while i < listing.len()
        invariant
            i <= listing.len(),
            entries@ == catalog(listing@.take(i as int)),
        decreases listing.len() - i,
    {
        proof {
            assert(listing@.take(i + 1).drop_last() =~= listing@.take(i as int));
            assert(listing@.take(i + 1).last() == listing@[i as int]);
        }
        match listing[i].kind {
            ItemKind::Directory => {},
            _ => {
                entries.push(make_entry(&listing[i]));
            },
        }
        i = i + 1;
    }
    assert(listing@.take(listing.len() as int) =~= listing@);
    entries
}

/// The names of a path's components as mathematical values.
pub open spec fn components(path: Seq<String>) -> Seq<Seq<char>> {
    Seq::new(path.len(), |i: int| path[i]@)
}

/// Whether `path` lies under `root`: `root`'s components are the first of `path`'s.
pub open spec fn lies_under(path: Seq<Seq<char>>, root: Seq<Seq<char>>) -> bool {
    root.len() <= path.len() && path.take(root.len() as int) == root
}

/// Decides whether a path may be served. Both paths are given by their components, after the
/// file system has resolved links and `..` in them. This is the only guard against a name that
/// leads out of the root.
pub fn is_within(path: &Vec<String>, root: &Vec<String>) -> (inside: bool)
    ensures
        inside == lies_under(components(path@), components(root@)),
{
    if root.len() > path.len() {
        return false;
    }
    let mut i: usize = 0;
    while i < root.len()
        invariant
            i <= root.len() <= path.len(),
            components(path@).take(i as int) == components(root@).take(i as int),
        decreases root.len() - i,
    {
        if path[i] != root[i] {
            proof {
                let p = components(path@);
                let r = components(root@);
                assert(p[i as int] != r[i as int]);
                assert(p.take(r.len() as int)[i as int] == p[i as int]);
            }
            return false;
        }
        proof {
            let p = components(path@);
            let r = components(root@);
            assert(p.take(i + 1) =~= p.take(i as int).push(p[i as int]));
            assert(r.take(i + 1) =~= r.take(i as int).push(r[i as int]));
        }
        i = i + 1;
    }
    assert(components(root@).take(root.len() as int) =~= components(root@));
    true
}

} // verus!
