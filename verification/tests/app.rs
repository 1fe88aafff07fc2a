use oxideux_rs::app::{App, AppError, Command, State};

struct Counter {
    visits: Vec<String>,
}

enum Handler {
    Stay(&'static str),
    GoTo(&'static str, &'static str),
    Leave(&'static str),
}

impl State<Counter> for Handler {
    fn run(&self, data: &mut Counter, command: &mut Command) {
        match self {
            Handler::Stay(tag) => {
                data.visits.push(tag.to_string());
            }
            Handler::GoTo(tag, next) => {
                data.visits.push(tag.to_string());
                command.queue_state(next.to_string());
            }
            Handler::Leave(tag) => {
                data.visits.push(tag.to_string());
                command.exit();
            }
        }
    }
}

struct Probe;

impl State<Vec<String>> for Probe {
    fn run(&self, data: &mut Vec<String>, command: &mut Command) {
        data.push(format!("{:?}", command));
    }
}

fn fresh() -> App<Counter, Handler> {
    App::new(Counter { visits: Vec::new() })
}

struct Log;

impl State<Counter> for Log {
    fn run(&self, data: &mut Counter, command: &mut Command) {
        data.visits.push("log".to_string());
        command.nothing();
    }
}

#[test]
fn commands_are_set() {
    let mut command = Command::Exit;
    command.nothing();
    assert_eq!(command, Command::Nothing);
    command.queue_state("menu".to_string());
    assert_eq!(command, Command::QueueState("menu".to_string()));
    command.exit();
    assert_eq!(command, Command::Exit);
}

#[test]
fn new_app_has_nothing_to_run() {
    let mut app = fresh();
    assert_eq!(app.update(), Ok(false));
    assert_eq!(app.update(), Ok(false));
}

#[test]
fn unknown_state_is_an_error() {
    let mut app = fresh();
    assert_eq!(
        app.trigger_state("missing"),
        Err(AppError::UnknownState("missing".to_string()))
    );
    app.queue_state("missing".to_string());
    assert_eq!(app.update(), Err(AppError::UnknownState("missing".to_string())));
    app.register_state("missing".to_string(), Handler::Leave("found"));
    assert_eq!(app.update(), Ok(true));
    assert_eq!(app.update(), Ok(false));
}

#[test]
fn states_run_in_the_order_they_queue() {
    let mut app = fresh();
    app.register_state("first".to_string(), Handler::GoTo("1", "second"));
    app.register_state("second".to_string(), Handler::GoTo("2", "third"));
    app.register_state("third".to_string(), Handler::Leave("3"));
    app.queue_state("first".to_string());
    let mut rounds = 0;
    while app.update().unwrap() {
        rounds += 1;
        assert!(rounds < 10);
    }
    assert_eq!(rounds, 3);
}

#[test]
fn a_state_that_says_nothing_stays_queued() {
    let mut app = fresh();
    app.register_state("loop".to_string(), Handler::Stay("again"));
    app.queue_state("loop".to_string());
    for _ in 0..5 {
        assert_eq!(app.update(), Ok(true));
    }
}

#[test]
fn triggering_a_state_takes_its_command() {
    let mut app = fresh();
    app.register_state("jump".to_string(), Handler::GoTo("j", "end"));
    app.register_state("end".to_string(), Handler::Leave("e"));
    assert_eq!(app.update(), Ok(false));
    assert_eq!(app.trigger_state("jump"), Ok(()));
    assert_eq!(app.update(), Ok(true));
    assert_eq!(app.update(), Ok(false));
}

#[test]
fn registering_a_name_again_replaces_the_state() {
    let mut app = fresh();
    app.register_state("s".to_string(), Handler::Stay("old"));
    app.register_state("s".to_string(), Handler::Leave("new"));
    app.queue_state("s".to_string());
    assert_eq!(app.update(), Ok(true));
    assert_eq!(app.update(), Ok(false));
}

#[test]
fn apply_follows_the_command() {
    let mut app = fresh();
    app.register_state("a".to_string(), Handler::Leave("a"));
    app.apply(Command::QueueState("a".to_string()));
    app.apply(Command::Nothing);
    assert_eq!(app.update(), Ok(true));
    app.apply(Command::QueueState("a".to_string()));
    app.apply(Command::Exit);
    assert_eq!(app.update(), Ok(false));
}

#[test]
fn a_state_starts_with_the_command_nothing() {
    let mut app: App<Vec<String>, Probe> = App::new(Vec::new());
    app.register_state("probe".to_string(), Probe);
    app.queue_state("probe".to_string());
    assert_eq!(app.update(), Ok(true));
    assert_eq!(app.update(), Ok(true));
}

#[test]
fn handlers_of_another_type_work_too() {
    let mut app: App<Counter, Log> = App::new(Counter { visits: Vec::new() });
    app.register_state("log".to_string(), Log);
    assert_eq!(app.trigger_state("log"), Ok(()));
    assert_eq!(app.update(), Ok(false));
}

#[test]
fn app_error_names_the_state() {
    assert_eq!(
        AppError::UnknownState("pick_profile".to_string()).message(),
        "State 'pick_profile' does not exist or is not registered."
    );
    assert_eq!(
        AppError::UnknownState(String::new()).message(),
        "State '' does not exist or is not registered."
    );
    let mut app = fresh();
    assert_eq!(
        app.trigger_state("change_mask").unwrap_err().message(),
        "State 'change_mask' does not exist or is not registered."
    );
}

#[test]
fn an_unknown_state_changes_nothing() {
    let mut app = fresh();
    app.register_state("known".to_string(), Handler::Leave("k"));
    app.queue_state("known".to_string());
    assert!(app.trigger_state("unknown").is_err());
    assert_eq!(app.update(), Ok(true));
    assert_eq!(app.update(), Ok(false));
}

#[test]
fn a_state_that_exits_is_not_run_again() {
    let mut app: App<u8, Bump> = App::new(0u8);
    app.register_state("a".to_string(), Bump);
    app.queue_state("a".to_string());
    assert_eq!(app.update(), Ok(true));
    assert_eq!(app.update(), Ok(false));
    assert_eq!(app.update(), Ok(false));
    app.register_state("count".to_string(), Bump);
    assert_eq!(app.trigger_state("count"), Ok(()));
    assert_eq!(app.update(), Ok(false));
}

struct Bump;

impl State<u8> for Bump {
    fn run(&self, data: &mut u8, command: &mut Command) {
        *data += 1;
        assert_eq!(*data, 1, "the state ran more than once in a row");
        *data = 0;
        command.exit();
    }
}
