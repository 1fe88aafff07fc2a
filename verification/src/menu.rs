//! The decisions of the profile menu: which options a screen offers, what is said of a profile
//! that cannot be used, and where each choice leads.
//!
//! The menu is the same for the server and the client but for a few words. Showing it and
//! reading the user's line is the caller's part.

use vstd::prelude::*;
use vstd::string::*;
use crate::cli::{has_key, InputOptions};
use crate::text::{decimal_text, join, join3, same, texts, to_decimal};
use crate::validated_values::{
    validation_message, verdict_view, ValidationError, ValidationErrorView,
};

verus! {

/// Which of the two programs shows the menu.
#[derive(Clone, Copy, Debug, PartialEq, Eq, Structural)]
pub enum Role {
    Server,
    Client,
}

impl Role {
    /// The word for the program.
    pub open spec fn word(self) -> Seq<char> {
        match self {
            Role::Server => "server"@,
            Role::Client => "client"@,
        }
    }

    /// The label of the address in a profile.
    pub open spec fn address_word(self) -> Seq<char> {
        match self {
            Role::Server => "Mask"@,
            Role::Client => "IPv4"@,
        }
    }

    /// The key of the option that changes the address.
    pub open spec fn address_key(self) -> Seq<char> {
        match self {
            Role::Server => "cm"@,
            Role::Client => "ci"@,
        }
    }

    /// The label of the option that changes the address.
    pub open spec fn address_change(self) -> Seq<char> {
        match self {
            Role::Server => "Change mask"@,
            Role::Client => "Change IPv4"@,
        }
    }

    /// The label of the option that starts the program.
    pub open spec fn start_word(self) -> Seq<char> {
        match self {
            Role::Server => "Start server"@,
            Role::Client => "Start client"@,
        }
    }

    /// The word for the program.
    pub fn label(self) -> (text: &'static str)
        ensures
            text@ == self.word(),
    {
        match self {
            Role::Server => "server",
            Role::Client => "client",
        }
    }

    /// The label of the address in a profile.
    pub fn address_label(self) -> (text: &'static str)
        ensures
            text@ == self.address_word(),
    {
        match self {
            Role::Server => "Mask",
            Role::Client => "IPv4",
        }
    }

    /// The key of the option that changes the address.
    pub fn address_option(self) -> (text: &'static str)
        ensures
            text@ == self.address_key(),
    {
        match self {
            Role::Server => "cm",
            Role::Client => "ci",
        }
    }
}

/// The name that a new profile gets where the menu shows `count` profiles.
pub fn new_profile_name(count: usize) -> (name: String)
    ensures
        name@ == "profile #"@ + decimal_text(count as nat),
{
    let digits = to_decimal(count as u64);
    join("profile #", digits.as_str())
}

/// The fixed options of the screen that picks a profile.
pub open spec fn pick_keys() -> Seq<(Seq<char>, Seq<char>)> {
    seq![
        ("a"@, "Create new profile"@),
        ("r"@, "Refresh profiles"@),
        ("c"@, "Open config directory"@),
        ("q"@, "Terminate program"@),
    ]
}

/// The menu of the screen that picks a profile: the profiles by number, and below them the
/// options to create one, to read them again, to open the directory of the file, and to leave.
pub fn pick_options(profile_names: &Vec<String>) -> (options: InputOptions)
    ensures
        options.dynamic() == texts(profile_names@),
        options.fixed() == pick_keys(),
        options.dynamic_header() == Some("PICK A PROFILE:"@),
        options.static_header() == Some("__________"@),
{
    let mut options = InputOptions::new();
    options.set_header_dynamic(String::from_str("PICK A PROFILE:"));
    options.set_header_static(String::from_str("__________"));
    let mut i: usize = 0;
    assert(options.dynamic() =~= texts(profile_names@).take(0));
    while i < profile_names.len()
        invariant
            i <= profile_names.len(),
            options.dynamic() == texts(profile_names@).take(i as int),
            options.fixed() == Seq::<(Seq<char>, Seq<char>)>::empty(),
            options.dynamic_header() == Some("PICK A PROFILE:"@),
            options.static_header() == Some("__________"@),
        decreases profile_names.len() - i,
    {
        options.add_dynamic(profile_names[i].clone());
        assert(texts(profile_names@).take(i + 1) =~= texts(profile_names@).take(i as int).push(
            profile_names@[i as int]@,
        ));
        i = i + 1;
    }
    assert(texts(profile_names@).take(profile_names.len() as int) =~= texts(profile_names@));
    proof {
        lemma_keys_differ();
    }
    options.add_static(String::from_str("a"), String::from_str("Create new profile"));
    assert(options.fixed() =~= pick_keys().take(1));
    assert(!has_key(options.fixed(), "r"@));
    options.add_static(String::from_str("r"), String::from_str("Refresh profiles"));
    assert(options.fixed() =~= pick_keys().take(2));
    assert(!has_key(options.fixed(), "c"@));
    options.add_static(String::from_str("c"), String::from_str("Open config directory"));
    assert(options.fixed() =~= pick_keys().take(3));
    assert(!has_key(options.fixed(), "q"@));
    options.add_static(String::from_str("q"), String::from_str("Terminate program"));
    assert(options.fixed() =~= pick_keys());
    options
}

/// The keys of the menu are different texts.
proof fn lemma_keys_differ()
    ensures
        "a"@ != "r"@,
        "a"@ != "c"@,
        "a"@ != "q"@,
        "r"@ != "c"@,
        "r"@ != "q"@,
        "c"@ != "q"@,
        "y"@ != "n"@,
        "s"@ != "cn"@,
        "s"@ != "cr"@,
        "s"@ != "cp"@,
        "s"@ != "cm"@,
        "s"@ != "ci"@,
        "s"@ != "erase"@,
        "s"@ != "q"@,
        "cn"@ != "cr"@,
        "cn"@ != "cp"@,
        "cn"@ != "cm"@,
        "cn"@ != "ci"@,
        "cn"@ != "erase"@,
        "cn"@ != "q"@,
        "cr"@ != "cp"@,
        "cr"@ != "cm"@,
        "cr"@ != "ci"@,
        "cr"@ != "erase"@,
        "cr"@ != "q"@,
        "cp"@ != "cm"@,
        "cp"@ != "ci"@,
        "cp"@ != "erase"@,
        "cp"@ != "q"@,
        "cm"@ != "erase"@,
        "cm"@ != "q"@,
        "ci"@ != "erase"@,
        "ci"@ != "q"@,
        "erase"@ != "q"@,
{
    reveal_strlit("a");
    reveal_strlit("r");
    reveal_strlit("c");
    reveal_strlit("q");
    reveal_strlit("y");
    reveal_strlit("n");
    reveal_strlit("s");
    reveal_strlit("cn");
    reveal_strlit("cr");
    reveal_strlit("cp");
    reveal_strlit("cm");
    reveal_strlit("ci");
    reveal_strlit("erase");
    assert("a"@[0] == 'a' && "r"@[0] == 'r' && "c"@[0] == 'c' && "q"@[0] == 'q');
    assert("y"@[0] == 'y' && "n"@[0] == 'n' && "s"@[0] == 's');
    assert("cn"@[1] == 'n' && "cr"@[1] == 'r' && "cp"@[1] == 'p' && "cm"@[1] == 'm');
    assert("ci"@[1] == 'i' && "erase"@.len() == 5);
    assert("cn"@.len() == 2 && "cr"@.len() == 2 && "cp"@.len() == 2 && "cm"@.len() == 2);
    assert("ci"@.len() == 2 && "s"@.len() == 1 && "q"@.len() == 1);
}

/// What the user asks for on the screen that picks a profile.
#[derive(Clone, Copy, Debug, PartialEq, Eq, Structural)]
pub enum PickChoice {
    /// Create a profile with the settings that every new profile starts with.
    Create,
    /// Read the profiles again.
    Refresh,
    /// Open the directory of the configuration file.
    OpenConfig,
    /// Leave the program.
    Quit,
}

/// The choice that a key of the screen that picks a profile stands for.
pub open spec fn pick_choice_of(key: Seq<char>) -> Option<PickChoice> {
    if key == "a"@ {
        Some(PickChoice::Create)
    } else if key == "r"@ {
        Some(PickChoice::Refresh)
    } else if key == "c"@ {
        Some(PickChoice::OpenConfig)
    } else if key == "q"@ {
        Some(PickChoice::Quit)
    } else {
        None
    }
}

/// Says what a key of the screen that picks a profile stands for: nothing, where the screen
/// has no such key.
pub fn pick_choice(key: &str) -> (choice: Option<PickChoice>)
    ensures
        choice == pick_choice_of(key@),
{
    if same(key, "a") {
        Some(PickChoice::Create)
    } else if same(key, "r") {
        Some(PickChoice::Refresh)
    } else if same(key, "c") {
        Some(PickChoice::OpenConfig)
    } else if same(key, "q") {
        Some(PickChoice::Quit)
    } else {
        None
    }
}

/// What is said of one setting: nothing if it can be used, and else its label and the error.
pub open spec fn error_lines(label: Seq<char>, verdict: Result<(), ValidationErrorView>) -> Seq<
    Seq<char>,
> {
    match verdict {
        Ok(_) => Seq::empty(),
        Err(e) => seq![label + ": "@ + validation_message(e) + "."@],
    }
}

/// What is said of a profile's settings: a line for each that cannot be used, and after them,
/// if there is any, a line that says how many there are and that the program cannot start.
pub open spec fn profile_errors(
    role: Role,
    parity_root: Result<(), ValidationErrorView>,
    port: Result<(), ValidationErrorView>,
    address: Result<(), ValidationErrorView>,
) -> Seq<Seq<char>> {
    let found = error_lines("Parity root"@, parity_root) + error_lines("Port"@, port)
        + error_lines(role.address_word(), address);
    if found.len() == 0 {
        found
    } else {
        found.push(
            "Due to "@ + decimal_text(found.len()) + " previous error(s), the "@ + role.word()
                + " may not be started."@,
        )
    }
}

/// Adds to `lines` what is said of one setting.
fn note_error(lines: &mut Vec<String>, label: &str, verdict: &Result<(), ValidationError>)
    ensures
        texts(final(lines)@) == texts(old(lines)@) + error_lines(label@, verdict_view(*verdict)),
{
    match verdict {
        Ok(_) => {
            assert(texts(lines@) + Seq::<Seq<char>>::empty() =~= texts(lines@));
        },
        Err(e) => {
            let message = e.message();
            let mut line = join(label, ": ");
            line.append(message.as_str());
            line.append(".");
            lines.push(line);
            assert(texts(lines@) =~= texts(old(lines)@) + error_lines(
                label@,
                verdict_view(*verdict),
            ));
        },
    }
}

/// What is said of a profile's settings, given the verdict on each. See `profile_errors`.
pub fn manage_errors(
    role: Role,
    parity_root: &Result<(), ValidationError>,
    port: &Result<(), ValidationError>,
    address: &Result<(), ValidationError>,
) -> (lines: Vec<String>)
    ensures
        texts(lines@) == profile_errors(
            role,
            verdict_view(*parity_root),
            verdict_view(*port),
            verdict_view(*address),
        ),
{
    let mut lines: Vec<String> = Vec::new();
    assert(texts(lines@) =~= Seq::<Seq<char>>::empty());
    note_error(&mut lines, "Parity root", parity_root);
    note_error(&mut lines, "Port", port);
    note_error(&mut lines, role.address_label(), address);
    let ghost found = texts(lines@);
    assert(found =~= error_lines("Parity root"@, verdict_view(*parity_root)) + error_lines(
        "Port"@,
        verdict_view(*port),
    ) + error_lines(role.address_word(), verdict_view(*address)));
    if lines.len() != 0 {
        let digits = to_decimal(lines.len() as u64);
        let mut line = join("Due to ", digits.as_str());
        line.append(" previous error(s), the ");
        line.append(role.label());
        line.append(" may not be started.");
        lines.push(line);
        assert(texts(lines@) =~= found.push(
            "Due to "@ + decimal_text(found.len()) + " previous error(s), the "@ + role.word()
                + " may not be started."@,
        ));
    }
    lines
}

/// The options of the screen that manages a profile, but the one that starts the program.
pub open spec fn manage_keys(role: Role) -> Seq<(Seq<char>, Seq<char>)> {
    seq![
        ("cn"@, "Change name"@),
        ("cr"@, "Change parity root"@),
        ("cp"@, "Change port"@),
        (role.address_key(), role.address_change()),
        ("erase"@, "Erase the profile (permanently)"@),
        ("q"@, "Return"@),
    ]
}

/// The options of the screen that manages a profile of which `invalid` settings cannot be used:
/// the program can be started only where there is none.
pub open spec fn manage_menu(role: Role, invalid: nat) -> Seq<(Seq<char>, Seq<char>)> {
    if invalid == 0 {
        seq![("s"@, role.start_word())] + manage_keys(role)
    } else {
        manage_keys(role)
    }
}

/// The menu of the screen that manages a profile. It offers to start the program exactly when
/// no setting of the profile is invalid.
pub fn manage_options(role: Role, invalid: usize) -> (options: InputOptions)
    ensures
        options.dynamic() == Seq::<Seq<char>>::empty(),
        options.fixed() == manage_menu(role, invalid as nat),
        has_key(options.fixed(), "s"@) <==> invalid == 0,
{
    let mut options = InputOptions::new();
    proof {
        lemma_keys_differ();
    }
    if invalid == 0 {
        let start = match role {
            Role::Server => "Start server",
            Role::Client => "Start client",
        };
        options.add_static(String::from_str("s"), String::from_str(start));
    }
    let ghost all = manage_menu(role, invalid as nat);
    let ghost n = options.fixed().len() as int;
    assert(options.fixed() =~= all.take(n));
    assert(!has_key(options.fixed(), "cn"@));
    options.add_static(String::from_str("cn"), String::from_str("Change name"));
    assert(options.fixed() =~= all.take(n + 1));
    assert(!has_key(options.fixed(), "cr"@));
    options.add_static(String::from_str("cr"), String::from_str("Change parity root"));
    assert(options.fixed() =~= all.take(n + 2));
    assert(!has_key(options.fixed(), "cp"@));
    options.add_static(String::from_str("cp"), String::from_str("Change port"));
    assert(options.fixed() =~= all.take(n + 3));
    let change = match role {
        Role::Server => "Change mask",
        Role::Client => "Change IPv4",
    };
    assert(!has_key(options.fixed(), role.address_key()));
    options.add_static(String::from_str(role.address_option()), String::from_str(change));
    assert(options.fixed() =~= all.take(n + 4));
    assert(!has_key(options.fixed(), "erase"@));
    options.add_static(
        String::from_str("erase"),
        String::from_str("Erase the profile (permanently)"),
    );
    assert(options.fixed() =~= all.take(n + 5));
    assert(!has_key(options.fixed(), "q"@));
    options.add_static(String::from_str("q"), String::from_str("Return"));
    assert(options.fixed() =~= all);
    proof {
        if invalid == 0 {
            assert(all[0].0 == "s"@);
        } else {
            assert(!has_key(all, "s"@));
        }
    }
    options
}

/// What the user asks for on the screen that manages a profile.
#[derive(Clone, Copy, Debug, PartialEq, Eq, Structural)]
pub enum ManageChoice {
    Start,
    ChangeName,
    ChangeParityRoot,
    ChangePort,
    ChangeAddress,
    Erase,
    Return,
}

/// The choice that a key of the screen that manages a profile stands for.
pub open spec fn manage_choice_of(role: Role, key: Seq<char>) -> Option<ManageChoice> {
    if key == "s"@ {
        Some(ManageChoice::Start)
    } else if key == "cn"@ {
        Some(ManageChoice::ChangeName)
    } else if key == "cr"@ {
        Some(ManageChoice::ChangeParityRoot)
    } else if key == "cp"@ {
        Some(ManageChoice::ChangePort)
    } else if key == role.address_key() {
        Some(ManageChoice::ChangeAddress)
    } else if key == "erase"@ {
        Some(ManageChoice::Erase)
    } else if key == "q"@ {
        Some(ManageChoice::Return)
    } else {
        None
    }
}

/// Says what a key of the screen that manages a profile stands for: nothing, where the screen
/// has no such key.
pub fn manage_choice(role: Role, key: &str) -> (choice: Option<ManageChoice>)
    ensures
        choice == manage_choice_of(role, key@),
{
    if same(key, "s") {
        Some(ManageChoice::Start)
    } else if same(key, "cn") {
        Some(ManageChoice::ChangeName)
    } else if same(key, "cr") {
        Some(ManageChoice::ChangeParityRoot)
    } else if same(key, "cp") {
        Some(ManageChoice::ChangePort)
    } else if same(key, role.address_option()) {
        Some(ManageChoice::ChangeAddress)
    } else if same(key, "erase") {
        Some(ManageChoice::Erase)
    } else if same(key, "q") {
        Some(ManageChoice::Return)
    } else {
        None
    }
}

/// The state that the menu goes to after a choice on the screen that manages a profile. After
/// erasing, that is the state to go to where the profile was erased.
pub open spec fn manage_target(role: Role, choice: ManageChoice) -> Seq<char> {
    match choice {
        ManageChoice::Start => match role {
            Role::Server => "start_server"@,
            Role::Client => "start_client"@,
        },
        ManageChoice::ChangeName => "change_name"@,
        ManageChoice::ChangeParityRoot => "change_parity_root"@,
        ManageChoice::ChangePort => "change_port"@,
        ManageChoice::ChangeAddress => match role {
            Role::Server => "change_mask"@,
            Role::Client => "change_ipv4"@,
        },
        ManageChoice::Erase => "pick_profile"@,
        ManageChoice::Return => "pick_profile"@,
    }
}

/// The name of the state that the menu goes to after `choice`. See `manage_target`.
pub fn manage_next(role: Role, choice: ManageChoice) -> (state_name: &'static str)
    ensures
        state_name@ == manage_target(role, choice),
{
    match choice {
        ManageChoice::Start => match role {
            Role::Server => "start_server",
            Role::Client => "start_client",
        },
        ManageChoice::ChangeName => "change_name",
        ManageChoice::ChangeParityRoot => "change_parity_root",
        ManageChoice::ChangePort => "change_port",
        ManageChoice::ChangeAddress => match role {
            Role::Server => "change_mask",
            Role::Client => "change_ipv4",
        },
        ManageChoice::Erase => "pick_profile",
        ManageChoice::Return => "pick_profile",
    }
}

/// The options of the screen that asks whether to save a changed profile.
pub open spec fn save_keys() -> Seq<(Seq<char>, Seq<char>)> {
    seq![("y"@, "Yes, save"@), ("n"@, "No, do not save"@)]
}

/// The menu of the screen that asks whether to save a changed profile.
pub fn save_options() -> (options: InputOptions)
    ensures
        options.dynamic() == Seq::<Seq<char>>::empty(),
        options.fixed() == save_keys(),
{
    let mut options = InputOptions::new();
    proof {
        lemma_keys_differ();
    }
    options.add_static(String::from_str("y"), String::from_str("Yes, save"));
    assert(options.fixed() =~= save_keys().take(1));
    assert(!has_key(options.fixed(), "n"@));
    options.add_static(String::from_str("n"), String::from_str("No, do not save"));
    assert(options.fixed() =~= save_keys());
    options
}

/// Whether a key of the screen that asks whether to save means yes: nothing, where the screen
/// has no such key.
pub fn save_choice(key: &str) -> (save: Option<bool>)
    ensures
        save == if key@ == "y"@ {
            Some(true)
        } else if key@ == "n"@ {
            Some(false)
        } else {
            None::<bool>
        },
{
    if same(key, "y") {
        Some(true)
    } else if same(key, "n") {
        Some(false)
    } else {
        None
    }
}

} // verus!
