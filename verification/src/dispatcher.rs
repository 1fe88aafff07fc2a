//! The server's side of one connection.
//!
//! The dispatcher is the state machine that leads the caller through one connection: read the
//! request, gather what it needs, carry out the steps of the reply one by one, wait for the
//! client's acknowledgment where the reply says so, and end. The caller reports what happened,
//! and the dispatcher says what to do next; it never touches the connection or the disk itself.

use vstd::prelude::*;
use crate::error::{Error, ProtocolError};
use crate::parity::Entry;
use crate::request::{
    lemma_result_round_trip, parse_request, parse_result, result_payload, result_tag, Request,
    RequestResult, RequestView,
};
use crate::server::{
    lookup_for, lookup_of, plan_for, respond, step_views, Facts, Lookup, LookupView, Step,
    StepView,
};
use crate::wire::{decode_u32, lemma_le_bytes_len, parse_u32};

verus! {

/// What the dispatcher asks of the caller.
#[derive(Debug, PartialEq, Eq)]
pub enum Action {
    /// Read this many bytes from the client and report them with `Bytes`. Where the client
    /// closes before they have all come, report those that came: the connection then ends with
    /// `Truncated`.
    Read(usize),
    /// Find this out from the file system and report it with `Found`.
    Gather(Lookup),
    /// Write these bytes to the client, then report `Done`.
    Send(Vec<u8>),
    /// Copy the first `length` bytes of the entry's file to the client, then report `Done`.
    Stream(Entry),
    /// Close both directions of the connection, then report `Done`.
    Shutdown,
    /// Nothing more: the request has ended, and the connection with it.
    Finish(Result<(), Error>),
}

/// An action as a mathematical value.
pub enum ActionView {
    Read(usize),
    Gather(LookupView),
    Send(Seq<u8>),
    Stream(Entry),
    Shutdown,
    Finish(Result<(), Error>),
}

impl View for Action {
    type V = ActionView;

    open spec fn view(&self) -> ActionView {
        match *self {
            Action::Read(count) => ActionView::Read(count),
            Action::Gather(lookup) => ActionView::Gather(lookup@),
            Action::Send(bytes) => ActionView::Send(bytes@),
            Action::Stream(entry) => ActionView::Stream(entry),
            Action::Shutdown => ActionView::Shutdown,
            Action::Finish(result) => ActionView::Finish(result),
        }
    }
}

/// What the caller reports to the dispatcher.
#[derive(Debug, PartialEq, Eq)]
pub enum Event {
    /// A client has connected.
    Begin,
    /// The bytes that were asked for.
    Bytes(Vec<u8>),
    /// What the file system told.
    Found(Facts),
    /// The bytes were written, the file was copied, or the connection was closed.
    Done,
    /// The connection or the disk failed.
    Failed,
}

/// An event as a mathematical value.
pub enum EventView {
    Begin,
    Bytes(Seq<u8>),
    Found(Facts),
    Done,
    Failed,
}

impl View for Event {
    type V = EventView;

    open spec fn view(&self) -> EventView {
        match *self {
            Event::Begin => EventView::Begin,
            Event::Bytes(bytes) => EventView::Bytes(bytes@),
            Event::Found(facts) => EventView::Found(facts),
            Event::Done => EventView::Done,
            Event::Failed => EventView::Failed,
        }
    }
}

/// Where the dispatcher stands with its connection.
#[derive(Clone, Copy, Debug, PartialEq, Eq, Structural)]
pub enum Stage {
    /// No client yet.
    Idle,
    /// Awaiting the request: the length of its frame.
    RequestHeader,
    /// Awaiting the request: its payload, of this length.
    RequestBody(u32),
    /// The request is known; the file system is being asked.
    Dispatch,
    /// A step of the reply is being carried out.
    Replying,
    /// Awaiting an acknowledgment: the length of its frame.
    AckHeader,
    /// Awaiting an acknowledgment: its payload, of this length.
    AckBody(u32),
    /// The connection has ended.
    Closed,
}

/// A dispatcher as a mathematical value.
pub struct DispatcherView {
    pub stage: Stage,
    /// The request, once it has been read.
    pub request: Option<RequestView>,
    /// The steps of the reply that are still to be carried out.
    pub remaining: Seq<StepView>,
    /// How the request ends once they are done.
    pub outcome: Result<(), Error>,
}

/// The dispatcher before a client has connected.
pub open spec fn idle() -> DispatcherView {
    DispatcherView {
        stage: Stage::Idle,
        request: None,
        remaining: Seq::empty(),
        outcome: Ok(()),
    }
}

/// The connection ends with `result`.
pub open spec fn halt(s: DispatcherView, result: Result<(), Error>) -> (
    DispatcherView,
    ActionView,
) {
    (DispatcherView { stage: Stage::Closed, ..s }, ActionView::Finish(result))
}

/// The dispatcher takes up the next step of the reply, or ends where none is left. A step that
/// waits for an acknowledgment asks for the length of its frame.
pub open spec fn proceed(s: DispatcherView) -> (DispatcherView, ActionView) {
    if s.remaining.len() == 0 {
        halt(s, s.outcome)
    } else {
        let rest = DispatcherView {
            stage: Stage::Replying,
            remaining: s.remaining.drop_first(),
            ..s
        };
        match s.remaining[0] {
            StepView::Send(bytes) => (rest, ActionView::Send(bytes)),
            StepView::Stream(entry) => (rest, ActionView::Stream(entry)),
            StepView::Shutdown => (rest, ActionView::Shutdown),
            StepView::AwaitAck => (
                DispatcherView { stage: Stage::AckHeader, ..rest },
                ActionView::Read(4),
            ),
        }
    }
}

/// The dispatcher that follows `s` on `event`, and what it asks of the caller.
///
/// It reads one request, asks for what the request needs, and then carries out the reply step
/// by step. An acknowledgment is read and decoded; which result it states does not matter. A
/// failure that the caller reports, and an event that the dispatcher did not ask for, end the
/// connection with an I/O error; so does every event after the end.
pub open spec fn next(s: DispatcherView, event: EventView) -> (DispatcherView, ActionView) {
    match (s.stage, event) {
        (Stage::Idle, EventView::Begin) => (
            DispatcherView { stage: Stage::RequestHeader, ..s },
            ActionView::Read(4),
        ),
        (Stage::RequestHeader, EventView::Bytes(bytes)) => match parse_u32(bytes) {
            Err(e) => halt(s, Err(Error::Protocol(e))),
            Ok(length) => (
                DispatcherView { stage: Stage::RequestBody(length), ..s },
                ActionView::Read(length as usize),
            ),
        },
        (Stage::RequestBody(length), EventView::Bytes(bytes)) => if bytes.len() != length {
            halt(s, Err(Error::Protocol(ProtocolError::Truncated)))
        } else {
            match parse_request(bytes) {
                Err(e) => halt(s, Err(Error::Protocol(e))),
                Ok(request) => (
                    DispatcherView { stage: Stage::Dispatch, request: Some(request), ..s },
                    ActionView::Gather(lookup_of(request)),
                ),
            }
        },
        (Stage::Dispatch, EventView::Found(facts)) => match s.request {
            None => halt(s, Err(Error::Io)),
            Some(request) => {
                let plan = plan_for(request, facts);
                proceed(DispatcherView { remaining: plan.steps, outcome: plan.outcome, ..s })
            },
        },
        (Stage::Replying, EventView::Done) => proceed(s),
        (Stage::AckHeader, EventView::Bytes(bytes)) => match parse_u32(bytes) {
            Err(e) => halt(s, Err(Error::Protocol(e))),
            Ok(length) => (
                DispatcherView { stage: Stage::AckBody(length), ..s },
                ActionView::Read(length as usize),
            ),
        },
        (Stage::AckBody(length), EventView::Bytes(bytes)) => if bytes.len() != length {
            halt(s, Err(Error::Protocol(ProtocolError::Truncated)))
        } else {
            match parse_result(bytes) {
                Err(e) => halt(s, Err(Error::Protocol(e))),
                Ok(_) => proceed(s),
            }
        },
        _ => halt(s, Err(Error::Io)),
    }
}

/// The steps in the opposite order.
fn reversed(steps: Vec<Step>) -> (turned: Vec<Step>)
    ensures
        step_views(turned@) == step_views(steps@).reverse(),
{
    let mut steps = steps;
    let ghost all = step_views(steps@);
    let mut turned: Vec<Step> = Vec::new();
    while steps.len() > 0
        invariant
            steps@.len() <= all.len(),
            step_views(steps@) == all.take(steps@.len() as int),
            step_views(turned@) == all.skip(steps@.len() as int).reverse(),
        decreases steps.len(),
    {
        let ghost before = step_views(turned@);
        let ghost held = steps@;
        let ghost n = steps@.len();
        match steps.pop() {
            Some(step) => {
                turned.push(step);
                assert(step_views(held)[n - 1] == held[n - 1]@);
                assert(all.take(n as int)[n - 1] == all[n - 1]);
                assert(step_views(steps@) =~= all.take(n - 1));
                assert(step_views(turned@) =~= before.push(all[n - 1]));
                assert(before.push(all[n - 1]) =~= all.skip(n - 1).reverse());
            },
            None => {},
        }
    }
    assert(all.skip(0) =~= all);
    turned
}

/// The server's side of one connection.
pub struct Dispatcher {
    stage: Stage,
    request: Option<Request>,
    /// The steps still to be carried out, the next one last.
    pending: Vec<Step>,
    outcome: Result<(), Error>,
}

impl View for Dispatcher {
    type V = DispatcherView;

    closed spec fn view(&self) -> DispatcherView {
        DispatcherView {
            stage: self.stage,
            request: match self.request {
                Some(request) => Some(request@),
                None => None,
            },
            remaining: step_views(self.pending@).reverse(),
            outcome: self.outcome,
        }
    }
}

impl Dispatcher {
    /// A dispatcher that waits for a client.
    pub fn new() -> (dispatcher: Dispatcher)
        ensures
            dispatcher@ == idle(),
    {
        let dispatcher = Dispatcher {
            stage: Stage::Idle,
            request: None,
            pending: Vec::new(),
            outcome: Ok(()),
        };
        assert(dispatcher@.remaining =~= Seq::<StepView>::empty());
        dispatcher
    }

    /// Where the dispatcher stands.
    pub fn stage(&self) -> (stage: Stage)
        ensures
            stage == self@.stage,
    {
        self.stage
    }

    /// Whether the connection has ended.
    pub fn is_closed(&self) -> (closed: bool)
        ensures
            closed <==> self@.stage == Stage::Closed,
    {
        match self.stage {
            Stage::Closed => true,
            _ => false,
        }
    }

    fn halt(&mut self, result: Result<(), Error>) -> (action: Action)
        ensures
            (final(self)@, action@) == halt(old(self)@, result),
    {
        self.stage = Stage::Closed;
        Action::Finish(result)
    }

    fn ask(&mut self, stage: Stage, count: usize) -> (action: Action)
        ensures
            final(self)@ == (DispatcherView { stage, ..old(self)@ }),
            action@ == ActionView::Read(count),
    {
        self.stage = stage;
        Action::Read(count)
    }

    fn proceed(&mut self) -> (action: Action)
        ensures
            (final(self)@, action@) == proceed(old(self)@),
    {
        let ghost before = step_views(self.pending@);
        match self.pending.pop() {
            None => {
                assert(before.reverse() =~= Seq::<StepView>::empty());
                let outcome = self.outcome;
                self.halt(outcome)
            },
            Some(step) => {
                proof {
                    let after = step_views(self.pending@);
                    assert(before.reverse()[0] == step@);
                    assert(after.reverse() =~= before.reverse().drop_first());
                }
                self.stage = Stage::Replying;
                match step {
                    Step::Send(bytes) => Action::Send(bytes),
                    Step::Stream(entry) => Action::Stream(entry),
                    Step::Shutdown => Action::Shutdown,
                    Step::AwaitAck => {
                        self.stage = Stage::AckHeader;
                        Action::Read(4)
                    },
                }
            },
        }
    }

    /// Takes what the caller reports and says what to do next.
    pub fn step(&mut self, event: Event) -> (action: Action)
        ensures
            (final(self)@, action@) == next(old(self)@, event@),
    {
        match (self.stage, event) {
            (Stage::Idle, Event::Begin) => self.ask(Stage::RequestHeader, 4),
            (Stage::RequestHeader, Event::Bytes(bytes)) => match decode_u32(bytes.as_slice()) {
                Err(e) => self.halt(Err(Error::Protocol(e))),
                Ok(length) => self.ask(Stage::RequestBody(length), length as usize),
            },
            (Stage::RequestBody(length), Event::Bytes(bytes)) => {
                if bytes.len() != length as usize {
                    self.halt(Err(Error::Protocol(ProtocolError::Truncated)))
                } else {
                    match Request::from_payload(bytes.as_slice()) {
                        Err(e) => self.halt(Err(Error::Protocol(e))),
                        Ok(request) => {
                            let lookup = lookup_for(&request);
                            self.request = Some(request);
                            self.stage = Stage::Dispatch;
                            Action::Gather(lookup)
                        },
                    }
                }
            },
            (Stage::Dispatch, Event::Found(facts)) => {
                let response = match &self.request {
                    None => { return self.halt(Err(Error::Io)); },
                    Some(request) => respond(request, &facts),
                };
                self.outcome = response.outcome;
                self.pending = reversed(response.steps);
                proof {
                    let steps = step_views(response.steps@);
                    assert(steps.reverse().reverse() =~= steps);
                }
                self.proceed()
            },
            (Stage::Replying, Event::Done) => self.proceed(),
            (Stage::AckHeader, Event::Bytes(bytes)) => match decode_u32(bytes.as_slice()) {
                Err(e) => self.halt(Err(Error::Protocol(e))),
                Ok(length) => self.ask(Stage::AckBody(length), length as usize),
            },
            (Stage::AckBody(length), Event::Bytes(bytes)) => {
                if bytes.len() != length as usize {
                    self.halt(Err(Error::Protocol(ProtocolError::Truncated)))
                } else {
                    match RequestResult::from_payload(bytes.as_slice()) {
                        Err(e) => self.halt(Err(Error::Protocol(e))),
                        Ok(_) => self.proceed(),
                    }
                }
            },
            _ => self.halt(Err(Error::Io)),
        }
    }
}

/// While the dispatcher waits for an acknowledgment, nothing but the acknowledgment moves it on:
/// whatever else is reported ends the connection, and no further file is sent. Any result that
/// is well formed serves as the acknowledgment.
pub proof fn law_only_the_acknowledgment_releases_the_next_file(
    s: DispatcherView,
    event: EventView,
    ack: RequestResult,
)
    requires
        s.stage == Stage::AckHeader || s.stage == Stage::AckBody(4),
    ensures
        !(event is Bytes) ==> next(s, event) == halt(s, Err(Error::Io)),
        s.stage == Stage::AckBody(4) ==> next(s, EventView::Bytes(result_payload(ack))) == proceed(
            s,
        ),
{
    lemma_le_bytes_len(result_tag(ack) as nat, 4);
    lemma_result_round_trip(ack, Seq::empty());
    assert(result_payload(ack) + Seq::<u8>::empty() =~= result_payload(ack));
}

/// What carrying out a step asks of the caller. The wait for an acknowledgment starts with
/// reading the length of its frame.
pub open spec fn action_of(step: StepView) -> ActionView {
    match step {
        StepView::Send(bytes) => ActionView::Send(bytes),
        StepView::Stream(entry) => ActionView::Stream(entry),
        StepView::Shutdown => ActionView::Shutdown,
        StepView::AwaitAck => ActionView::Read(4),
    }
}

/// The dispatcher carries out the reply as it stands, one step at a time and in order. Once it
/// is told what the file system holds, it takes up the first step of the reply to its request;
/// each time it is told that a step is done, it takes up the next one, and it ends with the
/// reply's outcome when none is left. So what holds of the order of the steps in a reply holds
/// of what the server does on the connection.
pub proof fn law_the_reply_is_carried_out_in_order(s: DispatcherView, facts: Facts)
    ensures
        s.remaining.len() > 0 ==> {
            &&& proceed(s).1 == action_of(s.remaining[0])
            &&& proceed(s).0.remaining == s.remaining.drop_first()
            &&& proceed(s).0.outcome == s.outcome
            &&& !(proceed(s).0.stage == Stage::Closed)
        },
        s.remaining.len() == 0 ==> proceed(s) == halt(s, s.outcome),
        s.stage == Stage::Replying ==> next(s, EventView::Done) == proceed(s),
        s.stage == Stage::Dispatch && s.request is Some ==> next(s, EventView::Found(facts))
            == proceed(
            DispatcherView {
                remaining: plan_for(s.request->Some_0, facts).steps,
                outcome: plan_for(s.request->Some_0, facts).outcome,
                ..s
            },
        ),
{
}

} // verus!
