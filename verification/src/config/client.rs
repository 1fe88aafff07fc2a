//! The profiles of the client in its configuration file.

use vstd::prelude::*;
use vstd::string::*;
use crate::config::common::{
    defect, failed_with, proper_names, renamed, Field, ProfileBook, RawProfile, RawProfileView,
};
use crate::config::{
    fill_with, filled, known_dirs, ConfigError, ConfigErrorView, KnownDirs, ClientProfile,
};
use crate::text::texts;
use crate::validated_values::{ValidatedDirectory, ValidatedIPv4, ValidatedPort, ValidatedValue};

verus! {

/// The port of the profile that a new configuration file starts with.
pub const DEFAULT_PORT: u16 = 49160;

/// The profile that a new configuration file starts with, under the name `default`.
pub open spec fn default_record() -> RawProfileView {
    RawProfileView {
        parity_root: Field::Held("{download}"@),
        port: Field::Held(DEFAULT_PORT),
        address: Field::Held("localhost"@),
    }
}

/// What the file holds of a profile.
pub open spec fn record_of(profile: ClientProfile) -> RawProfileView {
    RawProfileView {
        parity_root: Field::Held(profile.parity_root.value()@),
        port: Field::Held(profile.port.value()),
        address: Field::Held(profile.ipv4.value()@),
    }
}

/// The key under which the file keeps the address of a profile.
pub open spec fn address_key() -> Seq<char> {
    "ipv4"@
}

/// Whether `outcome` is what the profile `raw` of the name `profile_name` gives, with the
/// placeholder of its parity root filled in from `dirs`: the profile, or what is wrong with the
/// first of its fields that is missing or of another kind.
pub open spec fn assembled(
    profile_name: Seq<char>,
    raw: RawProfileView,
    dirs: KnownDirs,
    outcome: Result<ClientProfile, ConfigError>,
) -> bool {
    match (raw.parity_root, raw.port, raw.address) {
        (Field::Held(root), Field::Held(port), Field::Held(address)) => {
            &&& outcome is Ok
            &&& outcome->Ok_0.name@ == profile_name
            &&& outcome->Ok_0.parity_root.value()@ == filled(root, dirs)
            &&& outcome->Ok_0.port.value() == port
            &&& outcome->Ok_0.ipv4.value()@ == address
        },
        (Field::Held(_), Field::Held(_), address) => failed_with(
            outcome,
            defect(address, ConfigErrorView::AddressMissing(address_key())),
        ),
        (Field::Held(_), port, _) => failed_with(
            outcome,
            defect(port, ConfigErrorView::PortMissing),
        ),
        (root, _, _) => failed_with(outcome, defect(root, ConfigErrorView::ParityRootMissing)),
    }
}

/// Writes the profile into the book, under its name.
pub fn save_profile(book: &mut ProfileBook, profile: &ClientProfile)
    requires
        old(book).wf(),
    ensures
        final(book).wf(),
        old(book).written(*final(book), profile.name@, Some(record_of(*profile))),
{
    let raw = RawProfile {
        parity_root: Field::Held(profile.parity_root.get().clone()),
        port: Field::Held(*profile.port.get()),
        address: Field::Held(profile.ipv4.get().clone()),
    };
    book.insert(profile.name.as_str(), Some(raw));
}

/// Writes a profile of these settings into the book. None of them is checked here.
pub fn create_profile(
    book: &mut ProfileBook,
    profile_name: &str,
    parity_root: &str,
    port: u16,
    ipv4: &str,
)
    requires
        old(book).wf(),
    ensures
        final(book).wf(),
        old(book).written(
            *final(book),
            profile_name@,
            Some(
                (RawProfileView {
                    parity_root: Field::Held(parity_root@),
                    port: Field::Held(port),
                    address: Field::Held(ipv4@),
                }),
            ),
        ),
{
    let profile = ClientProfile {
        name: String::from_str(profile_name),
        parity_root: ValidatedDirectory::new(String::from_str(parity_root)),
        port: ValidatedPort::new(port),
        ipv4: ValidatedIPv4::new(String::from_str(ipv4)),
    };
    save_profile(book, &profile);
}

/// The book to go on with: the one that the file holds, or, where there is no file, a new one
/// with the profile `default`.
pub fn init_config_file(existing: Option<ProfileBook>) -> (book: ProfileBook)
    requires
        existing matches Some(held) ==> held.wf(),
    ensures
        book.wf(),
        existing matches Some(held) ==> book == held,
        existing is None ==> book.names() == seq!["default"@] && book.slots() == seq![
            Some(default_record()),
        ],
{
    let (mut book, fresh) = crate::config::common::init_config_file(existing);
    if fresh {
        create_profile(&mut book, "default", "{download}", DEFAULT_PORT, "localhost");
        assert(book.names() =~= seq!["default"@]);
        assert(book.slots() =~= seq![Some(default_record())]);
    }
    book
}

/// The names of the profiles: every name of the book that is not empty, in the book's order.
pub fn get_profile_names(book: &ProfileBook) -> (profile_names: Vec<String>)
    ensures
        texts(profile_names@) == proper_names(book.names()),
{
    crate::config::common::get_profile_names(book)
}

/// Makes a profile of what the file holds of it. The placeholder at the start of its parity root
/// is filled in from `dirs`.
pub fn profile_from(profile_name: &str, raw: &RawProfile, dirs: &KnownDirs) -> (profile: Result<
    ClientProfile,
    ConfigError,
>)
    ensures
        assembled(profile_name@, raw@, *dirs, profile),
{
    let root = match &raw.parity_root {
        Field::Missing => { return Err(ConfigError::ParityRootMissing); },
        Field::Mistyped => { return Err(ConfigError::FieldMistyped); },
        Field::Held(root) => root,
    };
    let port = match raw.port {
        Field::Missing => { return Err(ConfigError::PortMissing); },
        Field::Mistyped => { return Err(ConfigError::FieldMistyped); },
        Field::Held(port) => port,
    };
    let address = match &raw.address {
        Field::Missing => {
            return Err(ConfigError::AddressMissing(String::from_str("ipv4")));
        },
        Field::Mistyped => { return Err(ConfigError::FieldMistyped); },
        Field::Held(address) => address,
    };
    Ok(
        ClientProfile {
            name: String::from_str(profile_name),
            parity_root: ValidatedDirectory::new(fill_with(root.clone(), dirs)),
            port: ValidatedPort::new(port),
            ipv4: ValidatedIPv4::new(address.clone()),
        },
    )
}

/// The profile of that name, with the placeholder of its parity root filled in from the
/// directories that the system names. The directories are asked for only where the book holds
/// the profile and the profile a text for its parity root.
pub fn get_profile(book: &ProfileBook, profile_name: &str) -> (profile: Result<
    ClientProfile,
    ConfigError,
>)
    ensures
        !book.names().contains(profile_name@) ==> failed_with(
            profile,
            ConfigErrorView::ProfileMissing(profile_name@),
        ),
        book.names().contains(profile_name@) ==> exists|place: int|
            book.place_of(profile_name@, place) && match book.slots()[place] {
                None => failed_with(profile, ConfigErrorView::ProfileMalformed(profile_name@)),
                Some(raw) => {
                    ||| failed_with(profile, ConfigErrorView::HomeUnavailable)
                        && raw.parity_root is Held
                    ||| failed_with(profile, ConfigErrorView::DownloadUnavailable)
                        && raw.parity_root is Held
                    ||| exists|dirs: KnownDirs| assembled(profile_name@, raw, dirs, profile)
                },
            },
{
    let raw = match crate::config::common::get_profile_object(book, profile_name) {
        Err(e) => { return Err(e); },
        Ok(raw) => raw,
    };
    match &raw.parity_root {
        Field::Held(_) => {},
        _ => {
            let dirs = KnownDirs {
                home: String::new(),
                config: String::new(),
                appdata: String::new(),
                download: String::new(),
            };
            let profile = profile_from(profile_name, &raw, &dirs);
            assert(assembled(profile_name@, raw@, dirs, profile));
            return profile;
        },
    }
    match known_dirs() {
        Err(e) => Err(e),
        Ok(dirs) => profile_from(profile_name, &raw, &dirs),
    }
}

/// Takes the profile of that name out of the book, if it is there.
pub fn erase_profile(book: &mut ProfileBook, profile_name: &str)
    requires
        old(book).wf(),
    ensures
        final(book).wf(),
        old(book).erased(*final(book), profile_name@),
        !final(book).names().contains(profile_name@),
{
    crate::config::common::erase_profile(book, profile_name);
}

/// Gives the profile `profile_name` the name `new_name`. The new name must be free, and a
/// profile must stand under the old one; the renamed profile comes last in the book.
pub fn rename_profile(book: &mut ProfileBook, profile_name: &str, new_name: &str) -> (outcome:
    Result<(), ConfigError>)
    requires
        old(book).wf(),
    ensures
        final(book).wf(),
        renamed(*old(book), *final(book), profile_name@, new_name@, outcome),
{
    crate::config::common::rename_profile(book, profile_name, new_name)
}

} // verus!
