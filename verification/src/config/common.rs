//! The book of profiles that a configuration file holds.
//!
//! A configuration file keeps its profiles under their names, in the order in which they were
//! first written. This module works on that book; reading the file into it and writing it back
//! is the caller's part.

use vstd::prelude::*;
use vstd::string::*;
use crate::config::{ConfigError, ConfigErrorView};
use crate::text::texts;

verus! {

/// What a profile's object holds under one of its keys.
#[derive(Debug, Clone, PartialEq, Eq)]
pub enum Field<T> {
    /// The object has no such key.
    Missing,
    /// The object holds something of another kind there.
    Mistyped,
    /// The object holds this.
    Held(T),
}

/// What a profile holds in the file.
#[derive(Debug, Clone, PartialEq, Eq)]
pub struct RawProfile {
    pub parity_root: Field<String>,
    pub port: Field<u16>,
    pub address: Field<String>,
}

/// A profile of the file as a mathematical value.
pub struct RawProfileView {
    pub parity_root: Field<Seq<char>>,
    pub port: Field<u16>,
    pub address: Field<Seq<char>>,
}

/// A text field as a mathematical value.
pub open spec fn text_view(text: Field<String>) -> Field<Seq<char>> {
    match text {
        Field::Held(t) => Field::Held(t@),
        Field::Mistyped => Field::Mistyped,
        Field::Missing => Field::Missing,
    }
}

impl View for RawProfile {
    type V = RawProfileView;

    open spec fn view(&self) -> RawProfileView {
        RawProfileView {
            parity_root: text_view(self.parity_root),
            port: self.port,
            address: text_view(self.address),
        }
    }
}

/// What stands under a name, as a mathematical value.
pub open spec fn slot_view(slot: Option<RawProfile>) -> Option<RawProfileView> {
    match slot {
        Some(raw) => Some(raw@),
        None => None,
    }
}

/// A second value of the same text field.
fn copy_text(text: &Field<String>) -> (copy: Field<String>)
    ensures
        copy == *text,
{
    match text {
        Field::Held(t) => Field::Held(t.clone()),
        Field::Mistyped => Field::Mistyped,
        Field::Missing => Field::Missing,
    }
}

/// A second value of the same port field.
fn copy_port(port: &Field<u16>) -> (copy: Field<u16>)
    ensures
        copy == *port,
{
    match port {
        Field::Held(p) => Field::Held(*p),
        Field::Mistyped => Field::Mistyped,
        Field::Missing => Field::Missing,
    }
}

impl RawProfile {
    /// A second value of the same profile.
    pub fn duplicate(&self) -> (copy: RawProfile)
        ensures
            copy == *self,
    {
        RawProfile {
            parity_root: copy_text(&self.parity_root),
            port: copy_port(&self.port),
            address: copy_text(&self.address),
        }
    }
}

/// The profiles of one configuration file: names, and under each a profile, or nothing where the
/// file holds something else there. No name stands twice.
#[derive(Debug)]
pub struct ProfileBook {
    entries: Vec<(String, Option<RawProfile>)>,
}

/// The names in `entries` that are not empty, in their order.
pub open spec fn proper_names(names: Seq<Seq<char>>) -> Seq<Seq<char>>
    decreases names.len(),
{
    if names.len() == 0 {
        Seq::empty()
    } else if names.last().len() == 0 {
        proper_names(names.drop_last())
    } else {
        proper_names(names.drop_last()).push(names.last())
    }
}

impl ProfileBook {
    /// No name stands twice.
    pub closed spec fn wf(&self) -> bool {
        forall|i: int, j: int|
            0 <= i < j < self.entries@.len() ==> self.entries@[i].0@ != self.entries@[j].0@
    }

    /// The names, in the order in which they were first written.
    pub closed spec fn names(&self) -> Seq<Seq<char>> {
        Seq::new(self.entries@.len(), |i: int| self.entries@[i].0@)
    }

    /// What stands under the names, in the same order.
    pub closed spec fn slots(&self) -> Seq<Option<RawProfileView>> {
        Seq::new(self.entries@.len(), |i: int| slot_view(self.entries@[i].1))
    }

    /// Whether the book holds `name`, and at which place.
    pub open spec fn place_of(&self, name: Seq<char>, place: int) -> bool {
        0 <= place < self.names().len() && self.names()[place] == name
    }

    /// Whether `after` is this book with `slot` written under `name`: a name that the book
    /// holds keeps its place, a new name comes last.
    pub open spec fn written(
        &self,
        after: ProfileBook,
        name: Seq<char>,
        slot: Option<RawProfileView>,
    ) -> bool {
        if self.names().contains(name) {
            &&& after.names() == self.names()
            &&& exists|place: int|
                self.place_of(name, place) && after.slots() == self.slots().update(place, slot)
        } else {
            &&& after.names() == self.names().push(name)
            &&& after.slots() == self.slots().push(slot)
        }
    }

    /// Whether `after` is this book without `name`: the others keep their order.
    pub open spec fn erased(&self, after: ProfileBook, name: Seq<char>) -> bool {
        if self.names().contains(name) {
            exists|place: int|
                self.place_of(name, place) && after.names() == self.names().remove(place)
                    && after.slots() == self.slots().remove(place)
        } else {
            after.names() == self.names() && after.slots() == self.slots()
        }
    }

    /// A name has one place only.
    pub proof fn lemma_names_differ(&self, i: int, j: int)
        requires
            self.wf(),
            0 <= i < self.names().len(),
            0 <= j < self.names().len(),
            self.names()[i] == self.names()[j],
        ensures
            i == j,
    {
        if i < j {
            assert(self.entries@[i].0@ != self.entries@[j].0@);
        } else if j < i {
            assert(self.entries@[j].0@ != self.entries@[i].0@);
        }
    }

    /// A book without profiles.
    pub fn new() -> (book: ProfileBook)
        ensures
            book.wf(),
            book.names() == Seq::<Seq<char>>::empty(),
            book.slots() == Seq::<Option<RawProfileView>>::empty(),
    {
        let book = ProfileBook { entries: Vec::new() };
        assert(book.names() =~= Seq::<Seq<char>>::empty());
        assert(book.slots() =~= Seq::<Option<RawProfileView>>::empty());
        book
    }

    /// The number of names.
    pub fn len(&self) -> (count: usize)
        ensures
            count == self.names().len(),
            count == self.slots().len(),
    {
        self.entries.len()
    }

    /// The name at `place`.
    pub fn name_at(&self, place: usize) -> (name: &String)
        requires
            place < self.names().len(),
        ensures
            name@ == self.names()[place as int],
    {
        &self.entries[place].0
    }

    /// What stands under the name at `place`.
    pub fn slot_at(&self, place: usize) -> (slot: &Option<RawProfile>)
        requires
            place < self.slots().len(),
        ensures
            slot_view(*slot) == self.slots()[place as int],
    {
        &self.entries[place].1
    }

    /// The place of `name`, if the book holds it.
    pub fn find(&self, name: &str) -> (found: Option<usize>)
        ensures
            match found {
                Some(place) => self.place_of(name@, place as int),
                None => !self.names().contains(name@),
            },
            self.names().len() == self.slots().len(),
    {
        let wanted = String::from_str(name);
        let mut i: usize = 0;
        while i < self.entries.len()
            invariant
                i <= self.entries.len(),
                wanted@ == name@,
                forall|k: int| 0 <= k < i ==> self.names()[k] != name@,
            decreases self.entries.len() - i,
        {
            if self.entries[i].0 == wanted {
                return Some(i);
            }
            i = i + 1;
        }
        None
    }

    /// Writes `slot` under `name`. A name that the book holds keeps its place; a new name comes
    /// last.
    pub fn insert(&mut self, name: &str, slot: Option<RawProfile>)
        requires
            old(self).wf(),
        ensures
            final(self).wf(),
            old(self).written(*final(self), name@, slot_view(slot)),
    {
        match self.find(name) {
            Some(place) => {
                self.entries.set(place, (String::from_str(name), slot));
                assert(self.names() =~= old(self).names());
                assert(self.slots() =~= old(self).slots().update(place as int, slot_view(slot)));
            },
            None => {
                self.entries.push((String::from_str(name), slot));
                assert(self.names() =~= old(self).names().push(name@));
                assert(self.slots() =~= old(self).slots().push(slot_view(slot)));
                assert forall|i: int, j: int|
                    0 <= i < j < self.entries@.len() implies self.entries@[i].0@
                    != self.entries@[j].0@ by {
                    assert(old(self).names()[i] == self.entries@[i].0@);
                    if j < old(self).names().len() {
                        assert(old(self).names()[j] == self.entries@[j].0@);
                    }
                }
            },
        }
    }

    /// Takes `name` and what stands under it out of the book. The others keep their order.
    pub fn remove(&mut self, name: &str)
        requires
            old(self).wf(),
        ensures
            final(self).wf(),
            old(self).erased(*final(self), name@),
            !final(self).names().contains(name@),
    {
        match self.find(name) {
            None => {},
            Some(place) => {
                self.entries.remove(place);
                assert(self.names() =~= old(self).names().remove(place as int));
                assert(self.slots() =~= old(self).slots().remove(place as int));
                assert forall|k: int| 0 <= k < self.names().len() implies self.names()[k]
                    != name@ by {
                    if k < place {
                        assert(self.names()[k] == old(self).names()[k]);
                        assert(old(self).entries@[k].0@ != old(self).entries@[place as int].0@);
                    } else {
                        assert(self.names()[k] == old(self).names()[k + 1]);
                        assert(old(self).entries@[place as int].0@ != old(self).entries@[k + 1].0@);
                    }
                }
            },
        }
    }
}

/// What a missing configuration file is replaced with: a book without profiles. The answer says
/// whether that was done.
pub fn init_config_file(existing: Option<ProfileBook>) -> (made: (ProfileBook, bool))
    ensures
        existing is None ==> made.0.wf(),
        made.1 == (existing is None),
        existing matches Some(book) ==> made.0 == book,
        existing is None ==> made.0.names() == Seq::<Seq<char>>::empty() && made.0.slots()
            == Seq::<Option<RawProfileView>>::empty(),
{
    match existing {
        Some(book) => (book, false),
        None => (ProfileBook::new(), true),
    }
}

/// The names of the profiles: every name of the book that is not empty, in the book's order.
pub fn get_profile_names(book: &ProfileBook) -> (profile_names: Vec<String>)
    ensures
        texts(profile_names@) == proper_names(book.names()),
{
    let mut profile_names: Vec<String> = Vec::new();
    let mut i: usize = 0;
    assert(book.names().take(0) =~= Seq::<Seq<char>>::empty());
    assert(texts(profile_names@) =~= Seq::<Seq<char>>::empty());
    while i < book.len()
        invariant
            i <= book.names().len(),
            texts(profile_names@) == proper_names(book.names().take(i as int)),
        decreases book.names().len() - i,
    {
        let name = book.name_at(i);
        proof {
            assert(book.names().take(i + 1).drop_last() =~= book.names().take(i as int));
            assert(book.names().take(i + 1).last() == book.names()[i as int]);
        }
        if !name.as_str().is_empty() {
            let ghost before = texts(profile_names@);
            profile_names.push(name.clone());
            assert(texts(profile_names@) =~= before.push(name@));
        }
        i = i + 1;
    }
    assert(book.names().take(book.names().len() as int) =~= book.names());
    profile_names
}

/// Takes the profile of that name out of the book, if it is there.
pub fn erase_profile(book: &mut ProfileBook, profile_name: &str)
    requires
        old(book).wf(),
    ensures
        final(book).wf(),
        old(book).erased(*final(book), profile_name@),
        !final(book).names().contains(profile_name@),
{
    book.remove(profile_name);
}

/// The profile of that name. The error names the profile that is missing or is none.
pub fn get_profile_object(book: &ProfileBook, profile_name: &str) -> (profile: Result<
    RawProfile,
    ConfigError,
>)
    ensures
        !book.names().contains(profile_name@) ==> failed_with(
            profile,
            ConfigErrorView::ProfileMissing(profile_name@),
        ),
        book.names().contains(profile_name@) ==> exists|place: int|
            book.place_of(profile_name@, place) && match book.slots()[place] {
                Some(raw) => profile is Ok && profile->Ok_0@ == raw,
                None => failed_with(profile, ConfigErrorView::ProfileMalformed(profile_name@)),
            },
{
    match book.find(profile_name) {
        None => Err(ConfigError::ProfileMissing(String::from_str(profile_name))),
        Some(place) => match book.slot_at(place) {
            Some(raw) => Ok(raw.duplicate()),
            None => Err(ConfigError::ProfileMalformed(String::from_str(profile_name))),
        },
    }
}

/// What is wrong with a field that holds nothing: `missing` where the key is not there, and
/// else that it is of another kind.
pub open spec fn defect<T>(field: Field<T>, missing: ConfigErrorView) -> ConfigErrorView {
    match field {
        Field::Missing => missing,
        _ => ConfigErrorView::FieldMistyped,
    }
}

/// Whether `outcome` is the failure `error`.
pub open spec fn failed_with<T>(outcome: Result<T, ConfigError>, error: ConfigErrorView) -> bool {
    outcome is Err && outcome->Err_0@ == error
}

/// Whether `after` and `outcome` are what renaming `name` to `new_name` makes of `before`. The
/// new name must be free, and a profile must stand under the old one: else the book stays as it
/// is. The renamed profile comes last.
pub open spec fn renamed(
    before: ProfileBook,
    after: ProfileBook,
    name: Seq<char>,
    new_name: Seq<char>,
    outcome: Result<(), ConfigError>,
) -> bool {
    let unchanged = after.names() == before.names() && after.slots() == before.slots();
    if before.names().contains(new_name) {
        failed_with(outcome, ConfigErrorView::ProfileExists(new_name)) && unchanged
    } else if !before.names().contains(name) {
        failed_with(outcome, ConfigErrorView::ProfileMissing(name)) && unchanged
    } else {
        exists|place: int|
            before.place_of(name, place) && match before.slots()[place] {
                None => failed_with(outcome, ConfigErrorView::ProfileMalformed(name))
                    && unchanged,
                Some(raw) => {
                    &&& outcome is Ok
                    &&& after.names() == before.names().remove(place).push(new_name)
                    &&& after.slots() == before.slots().remove(place).push(Some(raw))
                },
            }
    }
}

/// Gives the profile `profile_name` the name `new_name`. The new name must be free, and a
/// profile must stand under the old one; the renamed profile comes last in the book.
pub fn rename_profile(book: &mut ProfileBook, profile_name: &str, new_name: &str) -> (outcome:
    Result<(), ConfigError>)
    requires
        old(book).wf(),
    ensures
        final(book).wf(),
        renamed(*old(book), *final(book), profile_name@, new_name@, outcome),
{
    if book.find(new_name).is_some() {
        return Err(ConfigError::ProfileExists(String::from_str(new_name)));
    }
    let raw = match get_profile_object(book, profile_name) {
        Err(e) => { return Err(e); },
        Ok(raw) => raw,
    };
    let ghost place = choose|place: int| old(book).place_of(profile_name@, place);
    book.insert(new_name, Some(raw));
    let ghost mid = *book;
    book.remove(profile_name);
    proof {
        assert(mid.names()[place] == profile_name@);
        assert(mid.names().contains(profile_name@));
        let moved = choose|moved: int|
            mid.place_of(profile_name@, moved) && book.names() == mid.names().remove(moved)
                && book.slots() == mid.slots().remove(moved);
        mid.lemma_names_differ(place, moved);
        assert(mid.names().remove(place) =~= old(book).names().remove(place).push(new_name@));
        assert(mid.slots().remove(place) =~= old(book).slots().remove(place).push(Some(raw@)));
    }
    Ok(())
}

} // verus!
