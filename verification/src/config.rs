//! The profiles of the server and of the client, and the directories that their paths may name.

use vstd::prelude::*;
use vstd::string::*;
use crate::text::{join3, replace_start, starts_with};
use crate::validated_values::{ValidatedDirectory, ValidatedIPv4, ValidatedPort};

pub mod client;
pub mod common;
pub mod file;
pub mod server;

verus! {

/// What the server runs with.
#[derive(Debug, Clone)]
pub struct ServerProfile {
    pub name: String,
    pub parity_root: ValidatedDirectory,
    pub port: ValidatedPort,
    pub mask: ValidatedIPv4,
}

/// What the client runs with.
#[derive(Debug, Clone)]
pub struct ClientProfile {
    pub name: String,
    pub parity_root: ValidatedDirectory,
    pub port: ValidatedPort,
    pub ipv4: ValidatedIPv4,
}

/// Why a profile or a path could not be had. An error about a name holds the name.
#[derive(Debug, Clone, PartialEq, Eq)]
pub enum ConfigError {
    /// The system names no home directory.
    HomeUnavailable,
    /// The system names no download directory.
    DownloadUnavailable,
    /// No profile of this name.
    ProfileMissing(String),
    /// What stands under this name is no profile.
    ProfileMalformed(String),
    /// A profile of this name exists already.
    ProfileExists(String),
    /// The profile has no parity root.
    ParityRootMissing,
    /// The profile has no port.
    PortMissing,
    /// The profile has no address, which it keeps under this key.
    AddressMissing(String),
    /// The profile holds something of another kind where a setting should stand.
    FieldMistyped,
    /// The configuration file holds no JSON; the text says what is wrong with it.
    Unreadable(String),
    /// The configuration file holds JSON, but no object.
    RootMalformed,
}

/// An error as a mathematical value.
pub enum ConfigErrorView {
    HomeUnavailable,
    DownloadUnavailable,
    ProfileMissing(Seq<char>),
    ProfileMalformed(Seq<char>),
    ProfileExists(Seq<char>),
    ParityRootMissing,
    PortMissing,
    AddressMissing(Seq<char>),
    FieldMistyped,
    Unreadable(Seq<char>),
    RootMalformed,
}

impl View for ConfigError {
    type V = ConfigErrorView;

    open spec fn view(&self) -> ConfigErrorView {
        match *self {
            ConfigError::HomeUnavailable => ConfigErrorView::HomeUnavailable,
            ConfigError::DownloadUnavailable => ConfigErrorView::DownloadUnavailable,
            ConfigError::ProfileMissing(name) => ConfigErrorView::ProfileMissing(name@),
            ConfigError::ProfileMalformed(name) => ConfigErrorView::ProfileMalformed(name@),
            ConfigError::ProfileExists(name) => ConfigErrorView::ProfileExists(name@),
            ConfigError::ParityRootMissing => ConfigErrorView::ParityRootMissing,
            ConfigError::PortMissing => ConfigErrorView::PortMissing,
            ConfigError::AddressMissing(key) => ConfigErrorView::AddressMissing(key@),
            ConfigError::FieldMistyped => ConfigErrorView::FieldMistyped,
            ConfigError::Unreadable(text) => ConfigErrorView::Unreadable(text@),
            ConfigError::RootMalformed => ConfigErrorView::RootMalformed,
        }
    }
}

/// What is said of a key that a book or a profile does not hold.
pub open spec fn key_not_found(key: Seq<char>) -> Seq<char> {
    "'"@ + key + "' key was not found in object"@
}

/// The words in which an error is reported. Of a name they say which.
pub open spec fn config_message(error: ConfigErrorView) -> Seq<char> {
    match error {
        ConfigErrorView::HomeUnavailable => "Home directory could not be retrieved."@,
        ConfigErrorView::DownloadUnavailable => "Download directory could not be retrieved."@,
        ConfigErrorView::ProfileMissing(name) => key_not_found(name),
        ConfigErrorView::ProfileMalformed(name) => "Expected key '"@ + name
            + "' to be of type Object."@,
        ConfigErrorView::ProfileExists(name) => "Profile '"@ + name + "' already exists"@,
        ConfigErrorView::ParityRootMissing => key_not_found("parity_root"@),
        ConfigErrorView::PortMissing => key_not_found("port"@),
        ConfigErrorView::AddressMissing(key) => key_not_found(key),
        ConfigErrorView::FieldMistyped => "Could not interpret value as u16"@,
        ConfigErrorView::Unreadable(text) => text,
        ConfigErrorView::RootMalformed => "Could not get config root object"@,
    }
}

impl ConfigError {
    /// The words in which the error is reported.
    pub fn message(&self) -> (text: String)
        ensures
            text@ == config_message(self@),
    {
        match self {
            ConfigError::HomeUnavailable => String::from_str(
                "Home directory could not be retrieved.",
            ),
            ConfigError::DownloadUnavailable => String::from_str(
                "Download directory could not be retrieved.",
            ),
            ConfigError::ProfileMissing(name) => join3(
                "'",
                name.as_str(),
                "' key was not found in object",
            ),
            ConfigError::ProfileMalformed(name) => join3(
                "Expected key '",
                name.as_str(),
                "' to be of type Object.",
            ),
            ConfigError::ProfileExists(name) => join3(
                "Profile '",
                name.as_str(),
                "' already exists",
            ),
            ConfigError::ParityRootMissing => join3(
                "'",
                "parity_root",
                "' key was not found in object",
            ),
            ConfigError::PortMissing => join3("'", "port", "' key was not found in object"),
            ConfigError::AddressMissing(key) => join3(
                "'",
                key.as_str(),
                "' key was not found in object",
            ),
            ConfigError::FieldMistyped => String::from_str("Could not interpret value as u16"),
            ConfigError::Unreadable(text) => text.clone(),
            ConfigError::RootMalformed => String::from_str("Could not get config root object"),
        }
    }
}

/// `BaseDirs` of the crate directories, carried through as it is: nothing is said of what it
/// holds.
#[verifier::external_type_specification]
#[verifier::external_body]
pub struct ExBaseDirs(directories::BaseDirs);

/// `UserDirs` of the crate directories, carried through as it is: nothing is said of what it
/// holds.
#[verifier::external_type_specification]
#[verifier::external_body]
pub struct ExUserDirs(directories::UserDirs);

/// `BaseDirs::new` of the crate directories: the user's standard directories, where the system
/// names a home directory.
#[verifier::external_body]
fn base_dirs() -> Option<directories::BaseDirs> {
    directories::BaseDirs::new()
}

/// `UserDirs::new` of the crate directories: the user's own directories, where the system names
/// a home directory.
#[verifier::external_body]
fn user_dirs() -> Option<directories::UserDirs> {
    directories::UserDirs::new()
}

/// `BaseDirs::home_dir` of the crate directories, as text.
#[verifier::external_body]
fn home_of(dirs: &directories::BaseDirs) -> String {
    dirs.home_dir().to_string_lossy().to_string()
}

/// `BaseDirs::config_local_dir` of the crate directories, as text.
#[verifier::external_body]
fn config_local_of(dirs: &directories::BaseDirs) -> String {
    dirs.config_local_dir().to_string_lossy().to_string()
}

/// `BaseDirs::data_local_dir` of the crate directories, as text.
#[verifier::external_body]
fn data_local_of(dirs: &directories::BaseDirs) -> String {
    dirs.data_local_dir().to_string_lossy().to_string()
}

/// `UserDirs::download_dir` of the crate directories, as text, where the system names one.
#[verifier::external_body]
fn download_of(dirs: &directories::UserDirs) -> Option<String> {
    match dirs.download_dir() {
        Some(path) => Some(path.to_string_lossy().to_string()),
        None => None,
    }
}

/// What `base` and `ext` give when `ext` is pushed onto `base` as a path.
pub uninterp spec fn pushed_path(base: Seq<char>, ext: Seq<char>) -> Seq<char>;

/// `PathBuf::push` of std: `base` extended by `ext` by the rules of the platform's paths.
#[verifier::external_body]
fn push_path(base: &str, ext: &str) -> (path: String)
    ensures
        path@ == pushed_path(base@, ext@),
{
    let mut path = std::path::PathBuf::from(base);
    path.push(ext);
    path.to_string_lossy().to_string()
}

/// The directories that a path may name by a placeholder.
#[derive(Debug, Clone, PartialEq, Eq)]
pub struct KnownDirs {
    pub home: String,
    pub config: String,
    pub appdata: String,
    pub download: String,
}

/// The directory of the user's configuration files.
pub fn config_dir() -> (dir: Result<String, ConfigError>)
    ensures
        dir matches Err(e) ==> e == ConfigError::HomeUnavailable,
{
    config_dir_from(match base_dirs() {
        None => None,
        Some(dirs) => Some(config_local_of(&dirs)),
    })
}

/// The path `ext` below the given configuration directory, or the error that stood in its place.
pub fn extend_config_dir(dir: Result<String, ConfigError>, ext: &str) -> (path: Result<
    String,
    ConfigError,
>)
    ensures
        match dir {
            Ok(base) => path is Ok && path->Ok_0@ == pushed_path(base@, ext@),
            Err(e) => path == Err::<String, ConfigError>(e),
        },
{
    match dir {
        Ok(base) => Ok(push_path(base.as_str(), ext)),
        Err(e) => Err(e),
    }
}

/// The path `ext` below the directory of the user's configuration files.
pub fn config_dir_ext(ext: &str) -> (path: Result<String, ConfigError>)
    ensures
        match path {
            Ok(p) => exists|base: Seq<char>| p@ == pushed_path(base, ext@),
            Err(e) => e == ConfigError::HomeUnavailable,
        },
{
    extend_config_dir(config_dir(), ext)
}

/// What is known of the directories, given what the system named: the home, configuration and
/// data directories, if it names a home directory, and the download directory, if it names the
/// user's directories and one for downloads among them.
pub open spec fn dirs_of(
    base: Option<(String, String, String)>,
    download: Option<Option<String>>,
) -> Result<KnownDirs, ConfigError> {
    match (base, download) {
        (None, _) => Err(ConfigError::HomeUnavailable),
        (Some(_), None) => Err(ConfigError::HomeUnavailable),
        (Some(_), Some(None)) => Err(ConfigError::DownloadUnavailable),
        (Some((home, config, appdata)), Some(Some(download))) => Ok(
            KnownDirs { home, config, appdata, download },
        ),
    }
}

/// Puts together what the system named. See `dirs_of`.
pub fn dirs_from(base: Option<(String, String, String)>, download: Option<Option<String>>) -> (dirs:
    Result<KnownDirs, ConfigError>)
    ensures
        dirs == dirs_of(base, download),
{
    let (home, config, appdata) = match base {
        None => { return Err(ConfigError::HomeUnavailable); },
        Some(named) => named,
    };
    match download {
        None => Err(ConfigError::HomeUnavailable),
        Some(None) => Err(ConfigError::DownloadUnavailable),
        Some(Some(download)) => Ok(KnownDirs { home, config, appdata, download }),
    }
}

/// The directories that placeholders stand for, as the system names them now.
pub fn known_dirs() -> (dirs: Result<KnownDirs, ConfigError>)
    ensures
        dirs matches Err(e) ==> e == ConfigError::HomeUnavailable || e
            == ConfigError::DownloadUnavailable,
{
    let base = match base_dirs() {
        None => None,
        Some(base) => Some((home_of(&base), config_local_of(&base), data_local_of(&base))),
    };
    let download = match user_dirs() {
        None => None,
        Some(user) => Some(download_of(&user)),
    };
    dirs_from(base, download)
}

/// The directory of the configuration files, given what the system named: the directory, if it
/// names one, and else the error that says that no home directory is known.
pub open spec fn config_dir_of(named: Option<String>) -> Result<String, ConfigError> {
    match named {
        Some(dir) => Ok(dir),
        None => Err(ConfigError::HomeUnavailable),
    }
}

/// Judges what the system named as the directory of the configuration files. See
/// `config_dir_of`.
pub fn config_dir_from(named: Option<String>) -> (dir: Result<String, ConfigError>)
    ensures
        dir == config_dir_of(named),
{
    match named {
        Some(dir) => Ok(dir),
        None => Err(ConfigError::HomeUnavailable),
    }
}

/// `path` with `replace` at its start exchanged for `with`; any other path as it is.
pub open spec fn with_placeholder(path: Seq<char>, replace: Seq<char>, with: Seq<char>) -> Seq<
    char,
> {
    if replace.is_prefix_of(path) {
        with + path.skip(replace.len() as int)
    } else {
        path
    }
}

/// `path` with the placeholder at its start, if there is one, exchanged for its directory. The
/// placeholders are tried in the order `~`, `{home}`, `{config}`, `{appdata}`, `{download}`, each
/// on what the one before has left.
pub open spec fn filled(path: Seq<char>, dirs: KnownDirs) -> Seq<char> {
    let a = with_placeholder(path, "~"@, dirs.home@);
    let b = with_placeholder(a, "{home}"@, dirs.home@);
    let c = with_placeholder(b, "{config}"@, dirs.config@);
    let d = with_placeholder(c, "{appdata}"@, dirs.appdata@);
    with_placeholder(d, "{download}"@, dirs.download@)
}

/// A path in which one placeholder after another is filled in.
pub struct PathPlaceholderReplacer(pub String);

impl PathPlaceholderReplacer {
    /// Exchanges `replace` at the start of the path for `with`.
    pub fn placeholder(&mut self, replace: &str, with: &str)
        ensures
            final(self).0@ == with_placeholder(old(self).0@, replace@, with@),
    {
        if starts_with(self.0.as_str(), replace) {
            self.0 = replace_start(self.0.as_str(), replace.unicode_len(), with);
        }
    }
}

/// Fills in the placeholder at the start of `string_path` from the given directories.
pub fn fill_with(string_path: String, dirs: &KnownDirs) -> (path: String)
    ensures
        path@ == filled(string_path@, *dirs),
{
    let mut ppr = PathPlaceholderReplacer(string_path);
    ppr.placeholder("~", dirs.home.as_str());
    ppr.placeholder("{home}", dirs.home.as_str());
    ppr.placeholder("{config}", dirs.config.as_str());
    ppr.placeholder("{appdata}", dirs.appdata.as_str());
    ppr.placeholder("{download}", dirs.download.as_str());
    ppr.0
}

/// Fills in the placeholder at the start of `string_path` from the directories that the system
/// names. All of them are asked for, whatever the path holds: where one is missing, the path is
/// not filled in.
pub fn fill_path_placeholders(string_path: String) -> (path: Result<String, ConfigError>)
    ensures
        match path {
            Ok(p) => exists|dirs: KnownDirs| p@ == filled(string_path@, dirs),
            Err(e) => e == ConfigError::HomeUnavailable || e == ConfigError::DownloadUnavailable,
        },
{
    match known_dirs() {
        Err(e) => Err(e),
        Ok(dirs) => Ok(fill_with(string_path, &dirs)),
    }
}

} // verus!
