//! The lines of the command-line interface, and the choice among a menu's options.
//!
//! Nothing here prints or reads: the functions make the lines that the caller prints, and judge
//! the line that the caller has read.

use vstd::prelude::*;
use vstd::string::*;
use crate::text::{decimal_text, join, texts, to_decimal};

verus! {

/// A low separator line.
pub fn sep_low() -> (line: String)
    ensures
        line@ == "__________"@,
{
    String::from_str("__________")
}

/// A thin separator line.
pub fn sep_thin() -> (line: String)
    ensures
        line@ == "----------"@,
{
    String::from_str("----------")
}

/// A thick separator line.
pub fn sep_thick() -> (line: String)
    ensures
        line@ == "=========="@,
{
    String::from_str("==========")
}

/// The line that gives notice of `what`.
pub open spec fn notice_line(what: Seq<char>) -> Seq<char> {
    "<(!)> "@ + what
}

/// The line that gives notice of `what`.
pub fn notice(what: &str) -> (line: String)
    ensures
        line@ == notice_line(what@),
{
    join("<(!)> ", what)
}

/// The line that gives notice of `what`, if there is anything to give notice of.
pub fn notice_if_some(what: &Option<String>) -> (line: Option<String>)
    ensures
        what is None <==> line is None,
        what matches Some(value) ==> line->Some_0@ == notice_line(value@),
{
    match what {
        Some(value) => Some(notice(value.as_str())),
        None => None,
    }
}

/// The lines that give notice of all of `what`: an empty line, one line for each, and an empty
/// line.
pub open spec fn notice_lines(what: Seq<Seq<char>>) -> Seq<Seq<char>> {
    seq![Seq::<char>::empty()] + Seq::new(what.len(), |i: int| notice_line(what[i])) + seq![
        Seq::<char>::empty(),
    ]
}

/// The lines that give notice of all of `what`.
pub fn notice_all(what: &Vec<String>) -> (lines: Vec<String>)
    ensures
        texts(lines@) == notice_lines(texts(what@)),
{
    let mut lines: Vec<String> = Vec::new();
    lines.push(String::new());
    let mut i: usize = 0;
    while i < what.len()
        invariant
            i <= what.len(),
            lines@.len() == i + 1,
            lines@[0]@ == Seq::<char>::empty(),
            forall|k: int| 0 <= k < i ==> lines@[k + 1]@ == notice_line(#[trigger] what@[k]@),
        decreases what.len() - i,
    {
        lines.push(notice(what[i].as_str()));
        i = i + 1;
    }
    lines.push(String::new());
    assert(texts(lines@) =~= notice_lines(texts(what@)));
    lines
}

/// The line that shows `what`.
pub fn out(what: &str) -> (line: String)
    ensures
        line@ == what@,
{
    String::from_str(what)
}

/// The line that shows `what`, if there is anything to show.
pub fn out_if_some(what: &Option<String>) -> (line: Option<String>)
    ensures
        what is None <==> line is None,
        what matches Some(value) ==> line->Some_0@ == value@,
{
    match what {
        Some(value) => Some(out(value.as_str())),
        None => None,
    }
}

/// The number of empty lines that clear the screen.
pub const CLEAR_LINES: usize = 20;

/// The lines that clear the screen: `CLEAR_LINES` empty ones.
pub fn clear() -> (lines: Vec<String>)
    ensures
        lines@.len() == CLEAR_LINES,
        forall|i: int| 0 <= i < lines@.len() ==> lines@[i]@ == Seq::<char>::empty(),
{
    let mut lines: Vec<String> = Vec::new();
    let mut i: usize = 0;
    while i < CLEAR_LINES
        invariant
            i <= CLEAR_LINES,
            lines@.len() == i,
            forall|k: int| 0 <= k < lines@.len() ==> lines@[k]@ == Seq::<char>::empty(),
        decreases CLEAR_LINES - i,
    {
        lines.push(String::new());
        i = i + 1;
    }
    lines
}

/// What the user chose.
#[derive(Debug, Clone, PartialEq, Eq)]
pub enum OptionType {
    /// The numbered option of this index.
    Dynamic(usize),
    /// The fixed option of this key.
    Static(String),
    /// No option: the text says why.
    Error(String),
}

/// A choice as a mathematical value.
pub enum OptionTypeView {
    Dynamic(usize),
    Static(Seq<char>),
    Error(Seq<char>),
}

impl View for OptionType {
    type V = OptionTypeView;

    open spec fn view(&self) -> OptionTypeView {
        match *self {
            OptionType::Dynamic(index) => OptionTypeView::Dynamic(index),
            OptionType::Static(key) => OptionTypeView::Static(key@),
            OptionType::Error(text) => OptionTypeView::Error(text@),
        }
    }
}

/// `IndexMap` of the crate indexmap: a map that keeps its pairs in the order in which their
/// keys were first inserted. What a map of fixed options holds is named by `fixed_options`.
#[verifier::external_type_specification]
#[verifier::external_body]
#[verifier::reject_recursive_types(K)]
#[verifier::reject_recursive_types(V)]
#[verifier::reject_recursive_types(S)]
pub struct ExIndexMap<K, V, S>(indexmap::IndexMap<K, V, S>);

/// The pairs of key and label that a map of fixed options holds, in their order.
pub uninterp spec fn fixed_options(map: indexmap::IndexMap<String, String>) -> Seq<
    (Seq<char>, Seq<char>),
>;

/// Whether one of `pairs` has the key `key`.
pub open spec fn has_key(pairs: Seq<(Seq<char>, Seq<char>)>, key: Seq<char>) -> bool {
    exists|i: int| 0 <= i < pairs.len() && (#[trigger] pairs[i]).0 == key
}

/// `IndexMap::new` of the crate indexmap: a map that holds nothing.
#[verifier::external_body]
fn fixed_new() -> (map: indexmap::IndexMap<String, String>)
    ensures
        fixed_options(map) == Seq::<(Seq<char>, Seq<char>)>::empty(),
{
    indexmap::IndexMap::new()
}

/// `IndexMap::insert` of the crate indexmap: a key that the map holds keeps its place and gets
/// the new label; a new key comes last with its label.
#[verifier::external_body]
fn fixed_insert(map: &mut indexmap::IndexMap<String, String>, key: String, label: String)
    ensures
        has_key(fixed_options(*old(map)), key@) ==> exists|i: int|
            0 <= i < fixed_options(*old(map)).len() && (#[trigger] fixed_options(*old(map))[i]).0
                == key@ && fixed_options(*final(map)) == fixed_options(*old(map)).update(
                i,
                (key@, label@),
            ),
        !has_key(fixed_options(*old(map)), key@) ==> fixed_options(*final(map)) == fixed_options(
            *old(map),
        ).push((key@, label@)),
{
    map.insert(key, label);
}

/// `IndexMap::contains_key` of the crate indexmap: whether the map holds the key.
#[verifier::external_body]
fn fixed_contains(map: &indexmap::IndexMap<String, String>, key: &str) -> (found: bool)
    ensures
        found == has_key(fixed_options(*map), key@),
{
    map.contains_key(key)
}

/// `IndexMap::iter` of the crate indexmap: the pairs of the map in their order.
#[verifier::external_body]
fn fixed_pairs(map: &indexmap::IndexMap<String, String>) -> (pairs: Vec<(String, String)>)
    ensures
        pairs@.len() == fixed_options(*map).len(),
        forall|i: int|
            0 <= i < pairs@.len() ==> (#[trigger] pairs@[i]).0@ == fixed_options(*map)[i].0
                && pairs@[i].1@ == fixed_options(*map)[i].1,
{
    let mut pairs = Vec::new();
    for (key, label) in map.iter() {
        pairs.push((key.clone(), label.clone()));
    }
    pairs
}

/// The number that a text spells in decimal digits, if it spells one that 64 bits hold.
pub uninterp spec fn parsed_number(text: Seq<char>) -> Option<u64>;

/// `str::parse` of std to `u64`: the number that the text spells, or nothing.
#[verifier::external_body]
fn parse_number(text: &str) -> (number: Option<u64>)
    ensures
        number == parsed_number(text@),
{
    match text.parse::<u64>() {
        Ok(number) => Some(number),
        Err(_) => None,
    }
}

/// The options of a menu: numbered ones, which change from one showing to the next, and fixed
/// ones under keys, each kind with a header of its own.
pub struct InputOptions {
    dynamic_options: Vec<String>,
    static_options: indexmap::IndexMap<String, String>,
    header_dynamic: Option<String>,
    header_static: Option<String>,
}

/// A header as a mathematical value.
pub open spec fn header_view(header: Option<String>) -> Option<Seq<char>> {
    match header {
        Some(h) => Some(h@),
        None => None,
    }
}

/// The lines of a header: the header, if there is one.
pub open spec fn header_lines(header: Option<Seq<char>>) -> Seq<Seq<char>> {
    match header {
        Some(h) => seq![h],
        None => Seq::empty(),
    }
}

/// The line of a numbered option.
pub open spec fn dynamic_line(index: nat, label: Seq<char>) -> Seq<char> {
    decimal_text(index) + " :: "@ + label
}

/// The line of a fixed option.
pub open spec fn static_line(key: Seq<char>, label: Seq<char>) -> Seq<char> {
    "["@ + key + "] "@ + label
}

/// What is said of a text that names no option.
pub open spec fn refusal_text(option: Seq<char>) -> Seq<char> {
    "'"@ + option + "' is not a valid option."@
}

/// The choice that `option` makes among `count` numbered options, given whether it is the key
/// of a fixed option and what number it spells. A key goes before a number.
pub open spec fn choice(
    option: Seq<char>,
    is_key: bool,
    number: Option<u64>,
    count: nat,
) -> OptionTypeView {
    if is_key {
        OptionTypeView::Static(option)
    } else if number is Some && number->Some_0 < count {
        OptionTypeView::Dynamic(number->Some_0 as usize)
    } else {
        OptionTypeView::Error(refusal_text(option))
    }
}

/// Judges the line that the user gave. See `choice`.
pub fn pick(option: &str, is_key: bool, number: Option<u64>, count: usize) -> (picked: OptionType)
    ensures
        picked@ == choice(option@, is_key, number, count as nat),
{
    if is_key {
        return OptionType::Static(String::from_str(option));
    }
    match number {
        Some(value) => {
            if value < count as u64 {
                return OptionType::Dynamic(value as usize);
            }
        },
        None => {},
    }
    let mut text = String::from_str("'");
    text.append(option);
    text.append("' is not a valid option.");
    OptionType::Error(text)
}

impl InputOptions {
    /// The labels of the numbered options, in their order.
    pub closed spec fn dynamic(&self) -> Seq<Seq<char>> {
        texts(self.dynamic_options@)
    }

    /// The fixed options, key and label, in their order.
    pub closed spec fn fixed(&self) -> Seq<(Seq<char>, Seq<char>)> {
        fixed_options(self.static_options)
    }

    /// The header of the numbered options.
    pub closed spec fn dynamic_header(&self) -> Option<Seq<char>> {
        header_view(self.header_dynamic)
    }

    /// The header of the fixed options.
    pub closed spec fn static_header(&self) -> Option<Seq<char>> {
        header_view(self.header_static)
    }

    /// The lines of the menu: the numbered options under their header, then the fixed options
    /// under theirs. A kind without options shows nothing, not even its header.
    pub open spec fn menu(&self) -> Seq<Seq<char>> {
        (if self.dynamic().len() > 0 {
            header_lines(self.dynamic_header()) + Seq::new(
                self.dynamic().len(),
                |i: int| dynamic_line(i as nat, self.dynamic()[i]),
            )
        } else {
            Seq::empty()
        }) + (if self.fixed().len() > 0 {
            header_lines(self.static_header()) + Seq::new(
                self.fixed().len(),
                |i: int| static_line(self.fixed()[i].0, self.fixed()[i].1),
            )
        } else {
            Seq::empty()
        })
    }

    /// A menu without options and without headers.
    pub fn new() -> (options: Self)
        ensures
            options.dynamic() == Seq::<Seq<char>>::empty(),
            options.fixed() == Seq::<(Seq<char>, Seq<char>)>::empty(),
            options.dynamic_header() is None,
            options.static_header() is None,
    {
        let options = Self {
            dynamic_options: Vec::new(),
            static_options: fixed_new(),
            header_dynamic: None,
            header_static: None,
        };
        assert(options.dynamic() =~= Seq::<Seq<char>>::empty());
        options
    }

    /// Adds a numbered option: it gets the next number. Like the other builders, it hands the
    /// menu back, so that calls can be chained.
    pub fn add_dynamic(&mut self, label: String) -> (this: &mut Self)
        ensures
            this.dynamic() == old(self).dynamic().push(label@),
            this.fixed() == old(self).fixed(),
            this.dynamic_header() == old(self).dynamic_header(),
            this.static_header() == old(self).static_header(),
            *final(self) == *final(this),
    {
        self.dynamic_options.push(label);
        assert(self.dynamic() =~= old(self).dynamic().push(label@));
        self
    }

    /// Adds a fixed option under `key`. A key that the menu has keeps its place and gets the new
    /// label.
    pub fn add_static(&mut self, key: String, label: String) -> (this: &mut Self)
        ensures
            this.dynamic() == old(self).dynamic(),
            this.dynamic_header() == old(self).dynamic_header(),
            this.static_header() == old(self).static_header(),
            has_key(old(self).fixed(), key@) ==> exists|i: int|
                0 <= i < old(self).fixed().len() && (#[trigger] old(self).fixed()[i]).0 == key@
                    && this.fixed() == old(self).fixed().update(i, (key@, label@)),
            !has_key(old(self).fixed(), key@) ==> this.fixed() == old(self).fixed().push(
                (key@, label@),
            ),
            *final(self) == *final(this),
    {
        fixed_insert(&mut self.static_options, key, label);
        self
    }

    /// Sets the header of the numbered options.
    pub fn set_header_dynamic(&mut self, what: String) -> (this: &mut Self)
        ensures
            this.dynamic_header() == Some(what@),
            this.dynamic() == old(self).dynamic(),
            this.fixed() == old(self).fixed(),
            this.static_header() == old(self).static_header(),
            *final(self) == *final(this),
    {
        self.header_dynamic = Some(what);
        self
    }

    /// Sets the header of the fixed options.
    pub fn set_header_static(&mut self, what: String) -> (this: &mut Self)
        ensures
            this.static_header() == Some(what@),
            this.dynamic() == old(self).dynamic(),
            this.fixed() == old(self).fixed(),
            this.dynamic_header() == old(self).dynamic_header(),
            *final(self) == *final(this),
    {
        self.header_static = Some(what);
        self
    }

    /// The lines of the menu.
    pub fn lines(&self) -> (shown: Vec<String>)
        ensures
            texts(shown@) == self.menu(),
    {
        let mut shown: Vec<String> = Vec::new();
        let ghost mut upper: Seq<Seq<char>> = Seq::empty();
        assert(texts(shown@) =~= upper);
        if self.dynamic_options.len() > 0 {
            match &self.header_dynamic {
                Some(header) => {
                    shown.push(header.clone());
                },
                None => {},
            }
            let ghost head = header_lines(self.dynamic_header());
            assert(texts(shown@) =~= head);
            let mut i: usize = 0;
            while i < self.dynamic_options.len()
                invariant
                    i <= self.dynamic_options.len(),
                    texts(shown@) == head + Seq::new(
                        i as nat,
                        |k: int| dynamic_line(k as nat, self.dynamic()[k]),
                    ),
                decreases self.dynamic_options.len() - i,
            {
                let ghost before = texts(shown@);
                let mut line = to_decimal(i as u64);
                line.append(" :: ");
                line.append(self.dynamic_options[i].as_str());
                shown.push(line);
                assert(texts(shown@) =~= before.push(
                    dynamic_line(i as nat, self.dynamic()[i as int]),
                ));
                assert(texts(shown@) =~= head + Seq::new(
                    (i + 1) as nat,
                    |k: int| dynamic_line(k as nat, self.dynamic()[k]),
                ));
                i = i + 1;
            }
            proof {
                upper = texts(shown@);
            }
        }
        let pairs = fixed_pairs(&self.static_options);
        if pairs.len() > 0 {
            match &self.header_static {
                Some(header) => {
                    shown.push(header.clone());
                },
                None => {},
            }
            let ghost head = upper + header_lines(self.static_header());
            assert(texts(shown@) =~= head);
            let mut i: usize = 0;
            while i < pairs.len()
                invariant
                    i <= pairs.len() == self.fixed().len(),
                    forall|k: int|
                        0 <= k < pairs@.len() ==> (#[trigger] pairs@[k]).0@ == self.fixed()[k].0
                            && pairs@[k].1@ == self.fixed()[k].1,
                    texts(shown@) == head + Seq::new(
                        i as nat,
                        |k: int| static_line(self.fixed()[k].0, self.fixed()[k].1),
                    ),
                decreases pairs.len() - i,
            {
                let ghost before = texts(shown@);
                let mut line = String::from_str("[");
                line.append(pairs[i].0.as_str());
                line.append("] ");
                line.append(pairs[i].1.as_str());
                shown.push(line);
                assert(texts(shown@) =~= before.push(
                    static_line(self.fixed()[i as int].0, self.fixed()[i as int].1),
                ));
                assert(texts(shown@) =~= head + Seq::new(
                    (i + 1) as nat,
                    |k: int| static_line(self.fixed()[k].0, self.fixed()[k].1),
                ));
                i = i + 1;
            }
            assert(texts(shown@) =~= self.menu());
        } else {
            assert(texts(shown@) =~= self.menu());
        }
        shown
    }

    /// Judges the line that the user gave: the key of a fixed option chooses that option; else
    /// a number below the number of numbered options chooses that one; anything else is refused.
    pub fn resolve(&self, option: &str) -> (picked: OptionType)
        ensures
            picked@ == choice(
                option@,
                has_key(self.fixed(), option@),
                parsed_number(option@),
                self.dynamic().len(),
            ),
    {
        let is_key = fixed_contains(&self.static_options, option);
        let number = parse_number(option);
        pick(option, is_key, number, self.dynamic_options.len())
    }
}

} // verus!
