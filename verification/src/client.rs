//! The client's side of one connection.
//!
//! The client sends one request and then consumes the reply that belongs to it. What it has to
//! read next depends on what it has read so far, so its side is a state machine: the caller
//! reports what happened, and the session says what to do next. The session never touches the
//! connection or the disk itself.

use vstd::prelude::*;
use vstd::string::*;
use vstd::utf8::*;
use crate::error::{Error, ProtocolError, ProtocolRejection};
use crate::request::{
    lemma_result_round_trip, parse_result, request_payload, result_payload, result_tag, Request,
    RequestResult, RequestView,
};
use crate::transfer::{Transfer, CHUNK_SIZE};
use crate::wire::{
    decode_text, decode_u32, frame_of, lemma_le_bytes_len, parse_text, parse_u32, MAX_PAYLOAD,
};

verus! {

/// How a request ended well.
#[derive(Clone, Copy, Debug, PartialEq, Eq, Structural)]
pub enum Outcome {
    /// The connection was given up as asked.
    Disconnected,
    /// The server serves this many files.
    FileCount(u32),
    /// This many files were received and written.
    Downloaded(u32),
}

/// What the caller has to do next.
#[derive(Debug, PartialEq, Eq)]
pub enum Action {
    /// Write these bytes to the server, then report `Done`.
    Send(Vec<u8>),
    /// Read this many bytes from the server and report them with `Bytes`. Where the server
    /// closes before they have all come, report those that came: the session then ends with
    /// `Truncated`.
    Read(usize),
    /// Create the file of this name in the download directory, empty, then report `Done`.
    Create(String),
    /// Read at most this many bytes from the server, append them to the file created last, and
    /// report their number with `Moved`.
    Receive(usize),
    /// Nothing more: the request has ended.
    Finish(Result<Outcome, Error>),
}

/// An action as a mathematical value.
pub enum ActionView {
    Send(Seq<u8>),
    Read(usize),
    Create(Seq<char>),
    Receive(usize),
    Finish(Result<Outcome, Error>),
}

impl View for Action {
    type V = ActionView;

    open spec fn view(&self) -> ActionView {
        match *self {
            Action::Send(bytes) => ActionView::Send(bytes@),
            Action::Read(count) => ActionView::Read(count),
            Action::Create(name) => ActionView::Create(name@),
            Action::Receive(limit) => ActionView::Receive(limit),
            Action::Finish(result) => ActionView::Finish(result),
        }
    }
}

/// What the caller reports.
#[derive(Debug, PartialEq, Eq)]
pub enum Event {
    /// The connection stands: the session may begin.
    Begin,
    /// The bytes were written, or the file was created.
    Done,
    /// The bytes that were asked for.
    Bytes(Vec<u8>),
    /// This many bytes went from the connection to the file.
    Moved(usize),
    /// The connection or the disk failed.
    Failed,
}

/// An event as a mathematical value.
pub enum EventView {
    Begin,
    Done,
    Bytes(Seq<u8>),
    Moved(usize),
    Failed,
}

impl View for Event {
    type V = EventView;

    open spec fn view(&self) -> EventView {
        match *self {
            Event::Begin => EventView::Begin,
            Event::Done => EventView::Done,
            Event::Bytes(bytes) => EventView::Bytes(bytes@),
            Event::Moved(count) => EventView::Moved(count),
            Event::Failed => EventView::Failed,
        }
    }
}

/// Where a session stands: what it has asked for and not yet been told.
#[derive(Clone, Copy, Debug, PartialEq, Eq, Structural)]
pub enum Phase {
    /// Nothing yet.
    Idle,
    /// The request is being written.
    Opening,
    /// The length of the verdict's frame.
    VerdictHeader,
    /// The verdict's payload, of this length.
    VerdictBody(u32),
    /// The number of files.
    Count,
    /// The length of a name's frame.
    NameHeader,
    /// A name's payload, of this length.
    NameBody(u32),
    /// The length of a file.
    FileLength,
    /// The file is being created.
    Creating,
    /// A chunk of the file.
    Receiving,
    /// The acknowledgment is being written.
    Acking,
    /// The request has ended.
    Closed,
}

/// A session as a mathematical value.
pub struct SessionView {
    pub request: RequestView,
    pub phase: Phase,
    /// The number of files that the reply holds, as far as it is known.
    pub total: u32,
    /// The number of those files that are not yet complete.
    pub pending: u32,
    /// The name of the file in passage.
    pub name: Seq<char>,
    /// The announced length of the file in passage.
    pub expected: nat,
    /// The number of its bytes that are written.
    pub moved: nat,
}

/// The session of a request before anything has happened.
pub open spec fn start(request: RequestView) -> SessionView {
    SessionView {
        request,
        phase: Phase::Idle,
        total: 0,
        pending: 0,
        name: Seq::empty(),
        expected: 0,
        moved: 0,
    }
}

/// The request ends with `result`.
pub open spec fn stop(s: SessionView, result: Result<Outcome, Error>) -> (SessionView, ActionView) {
    (SessionView { phase: Phase::Closed, ..s }, ActionView::Finish(result))
}

/// The session asks for `count` bytes and moves to `phase`.
pub open spec fn ask(s: SessionView, phase: Phase, count: usize) -> (SessionView, ActionView) {
    (SessionView { phase, ..s }, ActionView::Read(count))
}

/// The size of the next chunk of the file in passage.
pub open spec fn chunk_of(s: SessionView) -> nat {
    let left = (s.expected - s.moved) as nat;
    if left < CHUNK_SIZE {
        left
    } else {
        CHUNK_SIZE as nat
    }
}

/// What follows the verdict `Okay`: the count, a name, or a file's length, by the request.
pub open spec fn after_verdict(s: SessionView) -> (SessionView, ActionView) {
    match s.request {
        RequestView::Disconnect => stop(s, Err(Error::Io)),
        RequestView::GetFileCount => ask(s, Phase::Count, 4),
        RequestView::DownloadAllFiles => ask(s, Phase::Count, 4),
        RequestView::DownloadFileByIndex(_) => ask(
            SessionView { total: 1, pending: 1, ..s },
            Phase::NameHeader,
            4,
        ),
        RequestView::DownloadFileByName(name) => ask(
            SessionView { total: 1, pending: 1, name, ..s },
            Phase::FileLength,
            4,
        ),
    }
}

/// What follows a complete file: in a bulk download the acknowledgment, else the end.
pub open spec fn after_file(s: SessionView) -> (SessionView, ActionView) {
    let pending = if s.pending > 0 {
        (s.pending - 1) as u32
    } else {
        0u32
    };
    let t = SessionView { pending, ..s };
    if s.request is DownloadAllFiles {
        (
            SessionView { phase: Phase::Acking, ..t },
            ActionView::Send(frame_of(result_payload(RequestResult::Okay))),
        )
    } else {
        stop(t, Ok(Outcome::Downloaded((t.total - t.pending) as u32)))
    }
}

/// What follows a step of a file's passage: its end where every byte is written, else the next
/// chunk.
pub open spec fn after_chunk(s: SessionView) -> (SessionView, ActionView) {
    if s.moved == s.expected {
        after_file(s)
    } else {
        (SessionView { phase: Phase::Receiving, ..s }, ActionView::Receive(chunk_of(s) as usize))
    }
}

/// The verdict that arrived is judged: a refusal ends the request with the refusal.
pub open spec fn on_verdict(s: SessionView, length: u32, bytes: Seq<u8>) -> (
    SessionView,
    ActionView,
) {
    if bytes.len() != length {
        stop(s, Err(Error::Protocol(ProtocolError::Truncated)))
    } else {
        match parse_result(bytes) {
            Err(e) => stop(s, Err(Error::Protocol(e))),
            Ok(RequestResult::Okay) => after_verdict(s),
            Ok(RequestResult::ErrUnauthorizedAccess) => stop(
                s,
                Err(Error::Rejected(ProtocolRejection::UnauthorizedAccess)),
            ),
            Ok(RequestResult::ErrIndexOutOfBounds) => stop(
                s,
                Err(Error::Rejected(ProtocolRejection::IndexOutOfBounds)),
            ),
        }
    }
}

/// The count that arrived is the answer to `GetFileCount`, or the number of files to come.
pub open spec fn on_count(s: SessionView, bytes: Seq<u8>) -> (SessionView, ActionView) {
    match parse_u32(bytes) {
        Err(e) => stop(s, Err(Error::Protocol(e))),
        Ok(count) => if s.request is GetFileCount {
            stop(s, Ok(Outcome::FileCount(count)))
        } else if count == 0 {
            stop(s, Ok(Outcome::Downloaded(0)))
        } else {
            ask(SessionView { total: count, pending: count, ..s }, Phase::NameHeader, 4)
        },
    }
}

/// The session that follows `s` on `event`, and what it asks of the caller.
///
/// A failure that the caller reports, and an event that the session did not ask for, end the
/// request with an I/O error. So does every event after the end.
pub open spec fn next(s: SessionView, event: EventView) -> (SessionView, ActionView) {
    match (s.phase, event) {
        (Phase::Idle, EventView::Begin) => if request_payload(s.request).len() > MAX_PAYLOAD {
            stop(s, Err(Error::Protocol(ProtocolError::Oversize)))
        } else {
            (
                SessionView { phase: Phase::Opening, ..s },
                ActionView::Send(frame_of(request_payload(s.request))),
            )
        },
        (Phase::Opening, EventView::Done) => if s.request is Disconnect {
            stop(s, Ok(Outcome::Disconnected))
        } else {
            ask(s, Phase::VerdictHeader, 4)
        },
        (Phase::VerdictHeader, EventView::Bytes(bytes)) => match parse_u32(bytes) {
            Err(e) => stop(s, Err(Error::Protocol(e))),
            Ok(length) => ask(s, Phase::VerdictBody(length), length as usize),
        },
        (Phase::VerdictBody(length), EventView::Bytes(bytes)) => on_verdict(s, length, bytes),
        (Phase::Count, EventView::Bytes(bytes)) => on_count(s, bytes),
        (Phase::NameHeader, EventView::Bytes(bytes)) => match parse_u32(bytes) {
            Err(e) => stop(s, Err(Error::Protocol(e))),
            Ok(length) => ask(s, Phase::NameBody(length), length as usize),
        },
        (Phase::NameBody(length), EventView::Bytes(bytes)) => if bytes.len() != length {
            stop(s, Err(Error::Protocol(ProtocolError::Truncated)))
        } else {
            match parse_text(bytes) {
                Err(e) => stop(s, Err(Error::Protocol(e))),
                Ok(name) => ask(SessionView { name, ..s }, Phase::FileLength, 4),
            }
        },
        (Phase::FileLength, EventView::Bytes(bytes)) => match parse_u32(bytes) {
            Err(e) => stop(s, Err(Error::Protocol(e))),
            Ok(length) => (
                SessionView { phase: Phase::Creating, expected: length as nat, moved: 0, ..s },
                ActionView::Create(s.name),
            ),
        },
        (Phase::Creating, EventView::Done) => after_chunk(s),
        (Phase::Receiving, EventView::Moved(count)) => if 0 < count <= chunk_of(s) {
            after_chunk(SessionView { moved: s.moved + count as nat, ..s })
        } else {
            stop(s, Err(Error::Io))
        },
        (Phase::Acking, EventView::Done) => if s.pending == 0 {
            stop(s, Ok(Outcome::Downloaded(s.total)))
        } else {
            ask(s, Phase::NameHeader, 4)
        },
        _ => stop(s, Err(Error::Io)),
    }
}

/// The client's side of one request.
pub struct Session {
    request: Request,
    phase: Phase,
    total: u32,
    pending: u32,
    name: String,
    transfer: Transfer,
}

impl View for Session {
    type V = SessionView;

    closed spec fn view(&self) -> SessionView {
        SessionView {
            request: self.request@,
            phase: self.phase,
            total: self.total,
            pending: self.pending,
            name: self.name@,
            expected: self.transfer.expected(),
            moved: self.transfer.moved(),
        }
    }
}

impl Session {
    #[verifier::type_invariant]
    spec fn counted(self) -> bool {
        self.pending <= self.total
    }

    /// The session of `request`, before anything has happened.
    pub fn new(request: Request) -> (session: Session)
        ensures
            session@ == start(request@),
    {
        Session {
            request,
            phase: Phase::Idle,
            total: 0,
            pending: 0,
            name: String::new(),
            transfer: Transfer::new(0),
        }
    }

    /// Where the session stands.
    pub fn phase(&self) -> (phase: Phase)
        ensures
            phase == self@.phase,
    {
        self.phase
    }

    /// The number of files that the reply holds, as far as it is known.
    pub fn total(&self) -> (total: u32)
        ensures
            total == self@.total,
    {
        self.total
    }

    /// The number of those files that are not yet complete.
    pub fn pending(&self) -> (pending: u32)
        ensures
            pending == self@.pending,
    {
        self.pending
    }

    /// The announced length of the file in passage.
    pub fn file_length(&self) -> (length: u32)
        ensures
            length == self@.expected,
    {
        self.transfer.length()
    }

    /// Whether the request has ended.
    pub fn is_closed(&self) -> (closed: bool)
        ensures
            closed <==> self@.phase == Phase::Closed,
    {
        match self.phase {
            Phase::Closed => true,
            _ => false,
        }
    }

    fn stop(&mut self, result: Result<Outcome, Error>) -> (action: Action)
        ensures
            (final(self)@, action@) == stop(old(self)@, result),
    {
        proof {
            use_type_invariant(&*self);
        }
        self.phase = Phase::Closed;
        Action::Finish(result)
    }

    fn ask(&mut self, phase: Phase, count: usize) -> (action: Action)
        ensures
            (final(self)@, action@) == ask(old(self)@, phase, count),
    {
        proof {
            use_type_invariant(&*self);
        }
        self.phase = phase;
        Action::Read(count)
    }

    fn after_verdict(&mut self) -> (action: Action)
        ensures
            (final(self)@, action@) == after_verdict(old(self)@),
    {
        proof {
            use_type_invariant(&*self);
        }
        match &self.request {
            Request::Disconnect => self.stop(Err(Error::Io)),
            Request::GetFileCount => self.ask(Phase::Count, 4),
            Request::DownloadAllFiles => self.ask(Phase::Count, 4),
            Request::DownloadFileByIndex(_) => {
                self.pending = 0;
                self.total = 1;
                self.pending = 1;
                self.ask(Phase::NameHeader, 4)
            },
            Request::DownloadFileByName(name) => {
                let wanted = name.clone();
                self.pending = 0;
                self.total = 1;
                self.pending = 1;
                self.name = wanted;
                self.ask(Phase::FileLength, 4)
            },
        }
    }

    fn after_file(&mut self) -> (action: Action)
        ensures
            (final(self)@, action@) == after_file(old(self)@),
    {
        proof {
            use_type_invariant(&*self);
        }
        if self.pending > 0 {
            self.pending = self.pending - 1;
        }
        match &self.request {
            Request::DownloadAllFiles => {
                self.phase = Phase::Acking;
                Action::Send(RequestResult::Okay.to_frame())
            },
            _ => {
                let written: u32 = self.total - self.pending;
                self.stop(Ok(Outcome::Downloaded(written)))
            },
        }
    }

    fn after_chunk(&mut self) -> (action: Action)
        ensures
            (final(self)@, action@) == after_chunk(old(self)@),
    {
        proof {
            use_type_invariant(&*self);
        }
        let size = self.transfer.next_chunk();
        if size == 0 {
            self.after_file()
        } else {
            self.phase = Phase::Receiving;
            Action::Receive(size)
        }
    }

    fn on_verdict(&mut self, length: u32, bytes: &Vec<u8>) -> (action: Action)
        ensures
            (final(self)@, action@) == on_verdict(old(self)@, length, bytes@),
    {
        proof {
            use_type_invariant(&*self);
        }
        if bytes.len() != length as usize {
            return self.stop(Err(Error::Protocol(ProtocolError::Truncated)));
        }
        match RequestResult::from_payload(bytes.as_slice()) {
            Err(e) => self.stop(Err(Error::Protocol(e))),
            Ok(verdict) => match verdict.naturalize() {
                Ok(()) => self.after_verdict(),
                Err(rejection) => self.stop(Err(Error::Rejected(rejection))),
            },
        }
    }

    fn on_count(&mut self, bytes: &Vec<u8>) -> (action: Action)
        ensures
            (final(self)@, action@) == on_count(old(self)@, bytes@),
    {
        proof {
            use_type_invariant(&*self);
        }
        match decode_u32(bytes.as_slice()) {
            Err(e) => self.stop(Err(Error::Protocol(e))),
            Ok(count) => {
                let counting = match &self.request {
                    Request::GetFileCount => true,
                    _ => false,
                };
                if counting {
                    self.stop(Ok(Outcome::FileCount(count)))
                } else if count == 0 {
                    self.stop(Ok(Outcome::Downloaded(0)))
                } else {
                    self.pending = 0;
                    self.total = count;
                    self.pending = count;
                    self.ask(Phase::NameHeader, 4)
                }
            },
        }
    }

    /// Takes what the caller reports and says what to do next.
    pub fn step(&mut self, event: Event) -> (action: Action)
        ensures
            (final(self)@, action@) == next(old(self)@, event@),
    {
        proof {
            use_type_invariant(&*self);
        }
        match (self.phase, event) {
            (Phase::Idle, Event::Begin) => match self.request.to_frame() {
                Err(_) => self.stop(Err(Error::Protocol(ProtocolError::Oversize))),
                Ok(framed) => {
                    self.phase = Phase::Opening;
                    Action::Send(framed)
                },
            },
            (Phase::Opening, Event::Done) => {
                let leaving = match &self.request {
                    Request::Disconnect => true,
                    _ => false,
                };
                if leaving {
                    self.stop(Ok(Outcome::Disconnected))
                } else {
                    self.ask(Phase::VerdictHeader, 4)
                }
            },
            (Phase::VerdictHeader, Event::Bytes(bytes)) => match decode_u32(bytes.as_slice()) {
                Err(e) => self.stop(Err(Error::Protocol(e))),
                Ok(length) => self.ask(Phase::VerdictBody(length), length as usize),
            },
            (Phase::VerdictBody(length), Event::Bytes(bytes)) => self.on_verdict(length, &bytes),
            (Phase::Count, Event::Bytes(bytes)) => self.on_count(&bytes),
            (Phase::NameHeader, Event::Bytes(bytes)) => match decode_u32(bytes.as_slice()) {
                Err(e) => self.stop(Err(Error::Protocol(e))),
                Ok(length) => self.ask(Phase::NameBody(length), length as usize),
            },
            (Phase::NameBody(length), Event::Bytes(bytes)) => {
                if bytes.len() != length as usize {
                    self.stop(Err(Error::Protocol(ProtocolError::Truncated)))
                } else {
                    match decode_text(bytes) {
                        Err(e) => self.stop(Err(Error::Protocol(e))),
                        Ok(name) => {
                            self.name = name;
                            self.ask(Phase::FileLength, 4)
                        },
                    }
                }
            },
            (Phase::FileLength, Event::Bytes(bytes)) => match decode_u32(bytes.as_slice()) {
                Err(e) => self.stop(Err(Error::Protocol(e))),
                Ok(length) => {
                    self.transfer = Transfer::new(length);
                    self.phase = Phase::Creating;
                    Action::Create(self.name.clone())
                },
            },
            (Phase::Creating, Event::Done) => self.after_chunk(),
            (Phase::Receiving, Event::Moved(count)) => match self.transfer.advance(count) {
                Err(_) => self.stop(Err(Error::Io)),
                Ok(_) => self.after_chunk(),
            },
            (Phase::Acking, Event::Done) => {
                if self.pending == 0 {
                    let written: u32 = self.total;
                    self.stop(Ok(Outcome::Downloaded(written)))
                } else {
                    self.ask(Phase::NameHeader, 4)
                }
            },
            _ => self.stop(Err(Error::Io)),
        }
    }
}

/// A verdict other than `Okay` ends the request with the refusal that it states: nothing more
/// is read, and nothing is written to the disk.
pub proof fn law_refusal_ends_the_request(s: SessionView, verdict: RequestResult)
    requires
        s.phase == Phase::VerdictBody(4),
        verdict != RequestResult::Okay,
    ensures
        next(s, EventView::Bytes(result_payload(verdict))) == stop(
            s,
            Err(
                Error::Rejected(
                    if verdict == RequestResult::ErrUnauthorizedAccess {
                        ProtocolRejection::UnauthorizedAccess
                    } else {
                        ProtocolRejection::IndexOutOfBounds
                    },
                ),
            ),
        ),
{
    lemma_le_bytes_len(result_tag(verdict) as nat, 4);
    lemma_result_round_trip(verdict, Seq::empty());
    assert(result_payload(verdict) + Seq::<u8>::empty() =~= result_payload(verdict));
}

/// The client's half of the pacing of a bulk download. When the last bytes of a file are
/// written, the client sends the acknowledgment `Okay`, and it asks for the next name only after
/// that has been written.
pub proof fn law_each_file_is_acknowledged(s: SessionView, count: usize)
    requires
        s.request is DownloadAllFiles,
        s.phase == Phase::Receiving,
        0 < count <= chunk_of(s),
        s.moved + count == s.expected,
    ensures
        ({
            let (acking, action) = next(s, EventView::Moved(count));
            let (after, then) = next(acking, EventView::Done);
            &&& action == ActionView::Send(frame_of(result_payload(RequestResult::Okay)))
            &&& acking.phase == Phase::Acking
            &&& acking.pending == if s.pending > 0 {
                (s.pending - 1) as u32
            } else {
                0u32
            }
            &&& acking.pending > 0 ==> then == ActionView::Read(4) && after.phase
                == Phase::NameHeader
            &&& acking.pending == 0 ==> then == ActionView::Finish(
                Ok(Outcome::Downloaded(s.total)),
            )
        }),
{
}

/// Once a request has ended, nothing revives it.
pub proof fn law_the_end_is_final(s: SessionView, event: EventView)
    requires
        s.phase == Phase::Closed,
    ensures
        next(s, event) == stop(s, Err(Error::Io)),
        next(s, event).0 == s,
{
}

} // verus!
