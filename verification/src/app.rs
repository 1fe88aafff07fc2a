//! A controller that runs named states one after another.
//!
//! Each state is a piece of the caller's program. It receives the shared data and a command, and
//! by the command it tells the controller what to run next. The controller keeps the states by
//! name and remembers which one is queued.

use vstd::prelude::*;
use vstd::string::*;

verus! {

/// What a state tells the controller to do once it has returned.
#[derive(Debug, Clone, PartialEq, Eq)]
pub enum Command {
    /// Keep what is queued.
    Nothing,
    /// Queue the state of this name.
    QueueState(String),
    /// Queue nothing: the program is over.
    Exit,
}

/// A command as a mathematical value.
pub enum CommandView {
    Nothing,
    QueueState(Seq<char>),
    Exit,
}

impl View for Command {
    type V = CommandView;

    open spec fn view(&self) -> CommandView {
        match *self {
            Command::Nothing => CommandView::Nothing,
            Command::QueueState(name) => CommandView::QueueState(name@),
            Command::Exit => CommandView::Exit,
        }
    }
}

impl Command {
    pub fn nothing(&mut self)
        ensures
            final(self)@ == CommandView::Nothing,
    {
        *self = Command::Nothing;
    }

    pub fn queue_state(&mut self, state_name: String)
        ensures
            final(self)@ == CommandView::QueueState(state_name@),
    {
        *self = Command::QueueState(state_name);
    }

    pub fn exit(&mut self)
        ensures
            final(self)@ == CommandView::Exit,
    {
        *self = Command::Exit;
    }
}

/// What the controller runs next.
enum ControlMode {
    State(String),
    Exit,
}

/// A state: a piece of the program that works on the data and leaves a command.
pub trait State<T> {
    /// Whether this state, run on the data `before` with a command that says `Nothing`, can
    /// leave the data as `after` and the command as `left`. A state that says nothing of
    /// itself can leave anything.
    open spec fn ran(&self, before: T, after: T, left: CommandView) -> bool {
        true
    }

    fn run(&self, data: &mut T, command: &mut Command)
        ensures
            old(command)@ is Nothing ==> self.ran(*old(data), *final(data), final(command)@),
    ;
}

/// Why the controller could not go on.
#[derive(Debug, Clone, PartialEq, Eq)]
pub enum AppError {
    /// This name belongs to no registered state.
    UnknownState(String),
}

/// An error as a mathematical value.
pub enum AppErrorView {
    UnknownState(Seq<char>),
}

impl View for AppError {
    type V = AppErrorView;

    open spec fn view(&self) -> AppErrorView {
        match *self {
            AppError::UnknownState(name) => AppErrorView::UnknownState(name@),
        }
    }
}

/// The words in which an error is reported: they name the state that is unknown.
pub open spec fn app_message(error: AppErrorView) -> Seq<char> {
    match error {
        AppErrorView::UnknownState(name) => "State '"@ + name
            + "' does not exist or is not registered."@,
    }
}

impl AppError {
    /// The words in which the error is reported.
    pub fn message(&self) -> (text: String)
        ensures
            text@ == app_message(self@),
    {
        match self {
            AppError::UnknownState(name) => {
                let mut text = String::from_str("State '");
                text.append(name.as_str());
                text.append("' does not exist or is not registered.");
                text
            },
        }
    }
}

/// The controller: the data, the states by name, and the name that is queued.
pub struct App<T, H: State<T>> {
    data: T,
    states: Vec<(String, H)>,
    control_mode: ControlMode,
}

/// What is queued after `command`, where `queued` was queued before.
pub open spec fn queued_after(queued: Option<Seq<char>>, command: CommandView) -> Option<
    Seq<char>,
> {
    match command {
        CommandView::Nothing => queued,
        CommandView::QueueState(name) => Some(name),
        CommandView::Exit => None,
    }
}

impl<T, H: State<T>> App<T, H> {
    /// The names of the registered states, in the order of their first registration.
    pub closed spec fn names(&self) -> Seq<Seq<char>> {
        Seq::new(self.states@.len(), |i: int| self.states@[i].0@)
    }

    /// The states that stand under the names, in the same order.
    pub closed spec fn handlers(&self) -> Seq<H> {
        Seq::new(self.states@.len(), |i: int| self.states@[i].1)
    }

    /// The name that is queued, if any.
    pub closed spec fn queued(&self) -> Option<Seq<char>> {
        match self.control_mode {
            ControlMode::State(name) => Some(name@),
            ControlMode::Exit => None,
        }
    }

    /// The shared data.
    pub closed spec fn data(&self) -> T {
        self.data
    }

    /// No name is registered twice.
    pub open spec fn wf(&self) -> bool {
        &&& self.names().len() == self.handlers().len()
        &&& forall|i: int, j: int|
            0 <= i < j < self.names().len() ==> self.names()[i] != self.names()[j]
    }

    /// A controller with no state and nothing queued.
    pub fn new(data: T) -> (app: Self)
        ensures
            app.wf(),
            app.names() == Seq::<Seq<char>>::empty(),
            app.queued() == None::<Seq<char>>,
            app.data() == data,
    {
        let app = Self { data, states: Vec::new(), control_mode: ControlMode::Exit };
        assert(app.names() =~= Seq::<Seq<char>>::empty());
        app
    }

    /// The position of the state registered under `name`, if there is one.
    fn find(&self, name: &String) -> (found: Option<usize>)
        ensures
            match found {
                Some(i) => i < self.names().len() && self.names()[i as int] == name@,
                None => !self.names().contains(name@),
            },
    {
        let mut i: usize = 0;
        while i < self.states.len()
            invariant
                i <= self.states.len(),
                forall|k: int| 0 <= k < i ==> self.names()[k] != name@,
            decreases self.states.len() - i,
        {
            if self.states[i].0 == *name {
                return Some(i);
            }
            i = i + 1;
        }
        None
    }

    /// Whether `after` holds the states of this controller and `handler` under `name`: a name
    /// that is registered keeps its place and gets the new state, a new name comes last.
    pub open spec fn registered(&self, after: Self, name: Seq<char>, handler: H) -> bool {
        if self.names().contains(name) {
            &&& after.names() == self.names()
            &&& exists|i: int|
                0 <= i < self.names().len() && self.names()[i] == name && after.handlers()
                    == self.handlers().update(i, handler)
        } else {
            &&& after.names() == self.names().push(name)
            &&& after.handlers() == self.handlers().push(handler)
        }
    }

    /// Registers `handler` under `state_name`. A state that was registered under the name before
    /// gives way to it and the name keeps its place; a new name comes last.
    pub fn register_state(&mut self, state_name: String, handler: H)
        requires
            old(self).wf(),
        ensures
            final(self).wf(),
            final(self).queued() == old(self).queued(),
            final(self).data() == old(self).data(),
            old(self).registered(*final(self), state_name@, handler),
    {
        match self.find(&state_name) {
            Some(i) => {
                let ghost before = self.states@;
                self.states.set(i, (state_name, handler));
                assert(self.names() =~= old(self).names());
                assert(self.handlers() =~= old(self).handlers().update(i as int, handler));
            },
            None => {
                self.states.push((state_name, handler));
                assert(self.names() =~= old(self).names().push(state_name@));
                assert(self.handlers() =~= old(self).handlers().push(handler));
            },
        }
    }

    /// Queues the state of this name: the next `update` runs it.
    pub fn queue_state(&mut self, state_name: String)
        ensures
            final(self).queued() == Some(state_name@),
            final(self).names() == old(self).names(),
            final(self).handlers() == old(self).handlers(),
            final(self).data() == old(self).data(),
    {
        self.control_mode = ControlMode::State(state_name);
    }

    /// Takes the command that a state has left.
    pub fn apply(&mut self, command: Command)
        ensures
            final(self).queued() == queued_after(old(self).queued(), command@),
            final(self).names() == old(self).names(),
            final(self).handlers() == old(self).handlers(),
            final(self).data() == old(self).data(),
    {
        match command {
            Command::Nothing => {},
            Command::QueueState(name) => {
                self.control_mode = ControlMode::State(name);
            },
            Command::Exit => {
                self.control_mode = ControlMode::Exit;
            },
        }
    }

    /// Whether `after` is what this controller becomes when the state registered under `name`
    /// runs once, on the data and with a command that says `Nothing`: the data is as the state
    /// left it, and what is queued follows the command that the state left.
    pub open spec fn triggered(&self, after: Self, name: Seq<char>) -> bool {
        exists|i: int, left: CommandView|
            0 <= i < self.names().len() && self.names()[i] == name && i < self.handlers().len()
                && (#[trigger] self.handlers()[i].ran(self.data(), after.data(), left))
                && after.queued() == queued_after(self.queued(), left)
    }

    /// Runs the state registered under `state_name` once, on the data and with a command that
    /// says `Nothing`, and then takes the command as the state has left it. Where no state
    /// stands under the name, nothing runs and nothing changes, and the error names the state.
    pub fn trigger_state(&mut self, state_name: &str) -> (outcome: Result<(), AppError>)
        ensures
            final(self).names() == old(self).names(),
            final(self).handlers() == old(self).handlers(),
            old(self).names().contains(state_name@) ==> {
                &&& outcome is Ok
                &&& old(self).triggered(*final(self), state_name@)
            },
            !old(self).names().contains(state_name@) ==> {
                &&& outcome is Err
                &&& outcome->Err_0@ == AppErrorView::UnknownState(state_name@)
                &&& final(self).queued() == old(self).queued()
                &&& final(self).data() == old(self).data()
            },
    {
        let name = String::from_str(state_name);
        let i = match self.find(&name) {
            None => { return Err(AppError::UnknownState(name)); },
            Some(i) => i,
        };
        let mut command = Command::Nothing;
        self.states[i].1.run(&mut self.data, &mut command);
        let ghost left = command@;
        self.apply(command);
        proof {
            assert(old(self).handlers()[i as int] == old(self).states@[i as int].1);
            assert(old(self).handlers()[i as int].ran(old(self).data(), self.data(), left));
            assert(self.queued() == queued_after(old(self).queued(), left));
        }
        Ok(())
    }

    /// Runs the queued state, if there is one, and says whether there was: `false` means that
    /// the program is over. See `triggered` for what running the state does.
    pub fn update(&mut self) -> (outcome: Result<bool, AppError>)
        ensures
            final(self).names() == old(self).names(),
            final(self).handlers() == old(self).handlers(),
            old(self).queued() is None ==> {
                &&& outcome == Ok::<bool, AppError>(false)
                &&& final(self).queued() is None
                &&& final(self).data() == old(self).data()
            },
            old(self).queued() matches Some(name) ==> if old(self).names().contains(name) {
                &&& outcome == Ok::<bool, AppError>(true)
                &&& old(self).triggered(*final(self), name)
            } else {
                &&& outcome is Err
                &&& outcome->Err_0@ == AppErrorView::UnknownState(name)
                &&& final(self).queued() == old(self).queued()
                &&& final(self).data() == old(self).data()
            },
    {
        let name = match &self.control_mode {
            ControlMode::Exit => { return Ok(false); },
            ControlMode::State(name) => name.clone(),
        };
        match self.trigger_state(name.as_str()) {
            Err(e) => Err(e),
            Ok(_) => Ok(true),
        }
    }
}

} // verus!
