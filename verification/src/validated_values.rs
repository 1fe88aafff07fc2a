//! Settings that can be checked before they are used: a directory, a port, an address.
//!
//! A value of these types may hold anything: `is_valid` says whether what it holds can be used,
//! and `safe_set` takes a new value only when it can.

use vstd::prelude::*;
use vstd::string::*;
use crate::text::{decimal_text, join, to_decimal};

verus! {

/// Why a setting cannot be used. The error holds the value that was refused.
#[derive(Clone, Debug, PartialEq, Eq)]
pub enum ValidationError {
    /// Nothing lies at the path.
    NonExistentDirectory,
    /// What lies at the path is no directory.
    NotDirectory,
    /// This port is reserved for the system.
    InvalidPort(u16),
    /// This text has not the shape of an address.
    InvalidIPv4(String),
    /// The pattern for addresses could not be built.
    PatternUnusable,
}

/// An error as a mathematical value.
pub enum ValidationErrorView {
    NonExistentDirectory,
    NotDirectory,
    InvalidPort(u16),
    InvalidIPv4(Seq<char>),
    PatternUnusable,
}

impl View for ValidationError {
    type V = ValidationErrorView;

    open spec fn view(&self) -> ValidationErrorView {
        match *self {
            ValidationError::NonExistentDirectory => ValidationErrorView::NonExistentDirectory,
            ValidationError::NotDirectory => ValidationErrorView::NotDirectory,
            ValidationError::InvalidPort(port) => ValidationErrorView::InvalidPort(port),
            ValidationError::InvalidIPv4(text) => ValidationErrorView::InvalidIPv4(text@),
            ValidationError::PatternUnusable => ValidationErrorView::PatternUnusable,
        }
    }
}

/// A verdict as a mathematical value.
pub open spec fn verdict_view(outcome: Result<(), ValidationError>) -> Result<
    (),
    ValidationErrorView,
> {
    match outcome {
        Ok(_) => Ok(()),
        Err(e) => Err(e@),
    }
}

/// The words in which an error is reported: what is wrong, and with which value.
pub open spec fn validation_message(error: ValidationErrorView) -> Seq<char> {
    match error {
        ValidationErrorView::NonExistentDirectory => "Non-existent directory"@,
        ValidationErrorView::NotDirectory => "Is not directory"@,
        ValidationErrorView::InvalidPort(port) => "Invalid port: "@ + decimal_text(port as nat),
        ValidationErrorView::InvalidIPv4(text) => "Invalid IPv4: "@ + text,
        ValidationErrorView::PatternUnusable => "Unusable address pattern"@,
    }
}

impl ValidationError {
    /// The words in which the error is reported.
    pub fn message(&self) -> (text: String)
        ensures
            text@ == validation_message(self@),
    {
        match self {
            ValidationError::NonExistentDirectory => String::from_str("Non-existent directory"),
            ValidationError::NotDirectory => String::from_str("Is not directory"),
            ValidationError::InvalidPort(port) => {
                let digits = to_decimal(*port as u64);
                join("Invalid port: ", digits.as_str())
            },
            ValidationError::InvalidIPv4(text) => join("Invalid IPv4: ", text.as_str()),
            ValidationError::PatternUnusable => String::from_str("Unusable address pattern"),
        }
    }
}

/// A setting with a rule that says which of its values can be used.
pub trait ValidatedValue {
    type V;

    /// The value held.
    spec fn value(&self) -> Self::V;

    /// Whether `outcome` is a verdict that the rule can give on `value`.
    spec fn judged(value: Self::V, outcome: Result<(), ValidationError>) -> bool;

    fn get(&self) -> (value: &Self::V)
        ensures
            *value == self.value(),
    ;

    fn set(&mut self, value: Self::V)
        ensures
            final(self).value() == value,
    ;

    fn is_value_valid(value: &Self::V) -> (outcome: Result<(), ValidationError>)
        ensures
            Self::judged(*value, outcome),
    ;

    /// The verdict on the value held.
    fn is_valid(&self) -> (outcome: Result<(), ValidationError>)
        ensures
            Self::judged(self.value(), outcome),
    {
        Self::is_value_valid(self.get())
    }

    /// Takes `value` if it can be used, and else keeps the value held.
    fn safe_set(&mut self, value: Self::V) -> (outcome: Result<(), ValidationError>)
        ensures
            Self::judged(value, outcome),
            outcome is Ok ==> final(self).value() == value,
            outcome is Err ==> final(self).value() == old(self).value(),
    {
        let outcome = Self::is_value_valid(&value);
        if outcome.is_ok() {
            self.set(value);
        }
        outcome
    }
}

/// `Path::exists` of std: whether the file system finds anything at `path`.
#[verifier::external_body]
fn path_exists(path: &str) -> bool {
    std::path::Path::new(path).exists()
}

/// `Path::is_dir` of std: whether the file system finds a directory at `path`.
#[verifier::external_body]
fn path_is_dir(path: &str) -> bool {
    std::path::Path::new(path).is_dir()
}

/// The verdict on a directory, given what the file system says of its path: whether anything
/// lies there, and whether that is a directory.
pub fn judge_directory(found: bool, directory: bool) -> (outcome: Result<(), ValidationError>)
    ensures
        outcome == (if !found {
            Err::<(), ValidationError>(ValidationError::NonExistentDirectory)
        } else if !directory {
            Err(ValidationError::NotDirectory)
        } else {
            Ok(())
        }),
{
    if !found {
        Err(ValidationError::NonExistentDirectory)
    } else if !directory {
        Err(ValidationError::NotDirectory)
    } else {
        Ok(())
    }
}

/// The path of a directory that should exist.
#[derive(Debug, Clone)]
pub struct ValidatedDirectory(String);

impl ValidatedDirectory {
    pub fn new(value: String) -> (made: Self)
        ensures
            made.value() == value,
    {
        Self(value)
    }
}

impl ValidatedValue for ValidatedDirectory {
    type V = String;

    closed spec fn value(&self) -> String {
        self.0
    }

    /// The file system decides: the verdict is one of the three of `judge_directory`.
    open spec fn judged(value: String, outcome: Result<(), ValidationError>) -> bool {
        outcome matches Err(e) ==> e == ValidationError::NonExistentDirectory || e
            == ValidationError::NotDirectory
    }

    fn get(&self) -> (value: &String) {
        &self.0
    }

    fn set(&mut self, value: String) {
        self.0 = value;
    }

    fn is_value_valid(value: &String) -> (outcome: Result<(), ValidationError>) {
        let found = path_exists(value.as_str());
        let directory = path_is_dir(value.as_str());
        judge_directory(found, directory)
    }
}

/// The lowest port that is not reserved for the system.
pub const FIRST_FREE_PORT: u16 = 1024;

/// A port to listen on or to connect to.
#[derive(Debug, Clone)]
pub struct ValidatedPort(u16);

impl ValidatedPort {
    pub fn new(value: u16) -> (made: Self)
        ensures
            made.value() == value,
    {
        Self(value)
    }
}

impl ValidatedValue for ValidatedPort {
    type V = u16;

    closed spec fn value(&self) -> u16 {
        self.0
    }

    /// A port is usable from `FIRST_FREE_PORT` on; a lower one is refused by its number.
    open spec fn judged(value: u16, outcome: Result<(), ValidationError>) -> bool {
        outcome == if value < FIRST_FREE_PORT {
            Err::<(), ValidationError>(ValidationError::InvalidPort(value))
        } else {
            Ok(())
        }
    }

    fn get(&self) -> (value: &u16) {
        &self.0
    }

    fn set(&mut self, value: u16) {
        self.0 = value;
    }

    fn is_value_valid(value: &u16) -> (outcome: Result<(), ValidationError>) {
        if *value < FIRST_FREE_PORT {
            Err(ValidationError::InvalidPort(*value))
        } else {
            Ok(())
        }
    }
}

/// Whether `pattern` is a regular expression that can be compiled.
pub uninterp spec fn regex_compiles(pattern: Seq<char>) -> bool;

/// Whether the regular expression `pattern` matches somewhere in `text`.
pub uninterp spec fn regex_matches(pattern: Seq<char>, text: Seq<char>) -> bool;

/// `Regex::new` and `Regex::is_match` of the crate regex: whether `pattern` matches somewhere in
/// `text`, or nothing where `pattern` cannot be compiled.
#[verifier::external_body]
fn regex_is_match(pattern: &str, text: &str) -> (matched: Option<bool>)
    ensures
        matched is Some <==> regex_compiles(pattern@),
        matched matches Some(found) ==> found == regex_matches(pattern@, text@),
{
    match regex::Regex::new(pattern) {
        Ok(re) => Some(re.is_match(text)),
        Err(_) => None,
    }
}

/// The shape of an address: four groups of one to three digits, with dots between them.
pub fn ipv4_pattern() -> (pattern: &'static str)
    ensures
        pattern@ == ipv4_pattern_text(),
{
    "^\\d{1,3}\\.\\d{1,3}\\.\\d{1,3}\\.\\d{1,3}$"
}

/// The text of the pattern for addresses.
pub open spec fn ipv4_pattern_text() -> Seq<char> {
    "^\\d{1,3}\\.\\d{1,3}\\.\\d{1,3}\\.\\d{1,3}$"@
}

/// The one name that is taken for an address.
pub open spec fn localhost() -> Seq<char> {
    "localhost"@
}

/// The verdict on the text `value`, which is not `localhost`, given whether the pattern matched
/// it: usable where it matched; refused, with the text, where it did not.
pub open spec fn ipv4_verdict(value: Seq<char>, matched: Option<bool>) -> Result<
    (),
    ValidationErrorView,
> {
    match matched {
        Some(true) => Ok(()),
        Some(false) => Err(ValidationErrorView::InvalidIPv4(value)),
        None => Err(ValidationErrorView::PatternUnusable),
    }
}

/// Judges an address that is not `localhost`. See `ipv4_verdict`.
pub fn judge_ipv4(value: &String, matched: Option<bool>) -> (outcome: Result<(), ValidationError>)
    ensures
        verdict_view(outcome) == ipv4_verdict(value@, matched),
{
    match matched {
        Some(true) => Ok(()),
        Some(false) => Err(ValidationError::InvalidIPv4(value.clone())),
        None => Err(ValidationError::PatternUnusable),
    }
}

/// An address to bind or to connect to.
#[derive(Debug, Clone)]
pub struct ValidatedIPv4(String);

impl ValidatedIPv4 {
    pub fn new(value: String) -> (made: Self)
        ensures
            made.value() == value,
    {
        Self(value)
    }
}

impl ValidatedValue for ValidatedIPv4 {
    type V = String;

    closed spec fn value(&self) -> String {
        self.0
    }

    /// `localhost` is usable. Any other text is usable exactly when the pattern for addresses
    /// matches it, and is else refused with the text itself.
    open spec fn judged(value: String, outcome: Result<(), ValidationError>) -> bool {
        verdict_view(outcome) == if value@ == localhost() {
            Ok::<(), ValidationErrorView>(())
        } else if !regex_compiles(ipv4_pattern_text()) {
            Err(ValidationErrorView::PatternUnusable)
        } else if regex_matches(ipv4_pattern_text(), value@) {
            Ok(())
        } else {
            Err(ValidationErrorView::InvalidIPv4(value@))
        }
    }

    fn get(&self) -> (value: &String) {
        &self.0
    }

    fn set(&mut self, value: String) {
        self.0 = value;
    }

    fn is_value_valid(value: &String) -> (outcome: Result<(), ValidationError>) {
        let local = String::from_str("localhost");
        if *value == local {
            return Ok(());
        }
        judge_ipv4(value, regex_is_match(ipv4_pattern(), value.as_str()))
    }
}

} // verus!
