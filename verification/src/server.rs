//! The server's reply to one request.
//!
//! A connection carries one request. The server gathers what the request needs from the file
//! system and then replies with a sequence of steps that depends on the request and on what was
//! gathered alone. This module computes that sequence; the dispatcher leads the caller through
//! it.

use vstd::prelude::*;
use vstd::string::*;
use vstd::utf8::*;
use crate::error::{Error, ProtocolError, ProtocolRejection};
use crate::parity::{
    catalog, components, entry_of, get_file_entries, get_file_entry, is_within, lemma_catalog_len,
    lies_under, listed_count, DirItem, Entry, ItemKind,
};
use crate::request::{result_payload, Request, RequestResult, RequestView};
use crate::wire::{
    append_bytes, encode_text, encode_u32, frame_of, le_bytes, lemma_u32_round_trip, parse_u32,
    text_frame, MAX_PAYLOAD,
};

verus! {

/// What the server has to find out before it can reply.
#[derive(Clone, Debug, PartialEq, Eq)]
pub enum Lookup {
    /// Nothing: the reply does not depend on the file system.
    Nothing,
    /// The children of the parity root.
    Scan,
    /// Where the name leads from the parity root, and what lies there.
    Resolve(String),
}

/// Where a name led. `root` and `target` are the components of the parity root and of the named
/// path, both after the file system has resolved links and `..` in them.
#[derive(Clone, Debug, PartialEq, Eq)]
pub struct Resolution {
    pub root: Vec<String>,
    pub target: Vec<String>,
    pub item: DirItem,
}

/// What the server found out.
#[derive(Clone, Debug, PartialEq, Eq)]
pub enum Facts {
    Nothing,
    Listing(Vec<DirItem>),
    Resolved(Resolution),
    /// The file system refused to tell.
    Unavailable,
}

/// One step of a reply.
#[derive(Clone, Debug, PartialEq, Eq)]
pub enum Step {
    /// Write these bytes to the client.
    Send(Vec<u8>),
    /// Copy the first `length` bytes of the entry's file to the client, unframed.
    Stream(Entry),
    /// Read one result frame from the client and go on only when it has come.
    AwaitAck,
    /// Close both directions of the connection.
    Shutdown,
}

/// A step as a mathematical value.
pub enum StepView {
    Send(Seq<u8>),
    Stream(Entry),
    AwaitAck,
    Shutdown,
}

impl View for Step {
    type V = StepView;

    open spec fn view(&self) -> StepView {
        match *self {
            Step::Send(bytes) => StepView::Send(bytes@),
            Step::Stream(entry) => StepView::Stream(entry),
            Step::AwaitAck => StepView::AwaitAck,
            Step::Shutdown => StepView::Shutdown,
        }
    }
}

/// A reply: the steps to carry out, and how the request ends once they are done.
#[derive(Debug, PartialEq, Eq)]
pub struct Response {
    pub steps: Vec<Step>,
    pub outcome: Result<(), Error>,
}

/// A reply as a mathematical value.
pub struct Plan {
    pub steps: Seq<StepView>,
    pub outcome: Result<(), Error>,
}

/// The views of a sequence of steps.
pub open spec fn step_views(steps: Seq<Step>) -> Seq<StepView> {
    Seq::new(steps.len(), |i: int| steps[i]@)
}

impl View for Response {
    type V = Plan;

    open spec fn view(&self) -> Plan {
        Plan { steps: step_views(self.steps@), outcome: self.outcome }
    }
}

/// The frame of a verdict.
pub open spec fn verdict(result: RequestResult) -> Seq<u8> {
    frame_of(result_payload(result))
}

/// A reply that sends nothing and fails.
pub open spec fn failure(error: Error) -> Plan {
    Plan { steps: Seq::empty(), outcome: Err(error) }
}

/// A reply that states a refusal and fails with it.
pub open spec fn refusal(result: RequestResult, rejection: ProtocolRejection) -> Plan {
    Plan { steps: seq![StepView::Send(verdict(result))], outcome: Err(Error::Rejected(rejection)) }
}

/// Whether an entry's name can travel in a frame.
pub open spec fn name_fits(entry: Entry) -> bool {
    encode_utf8(entry.name@).len() <= MAX_PAYLOAD
}

/// The reply to `GetFileCount`: the verdict and the number of entries. A snapshot of more
/// entries than a raw count can state is not announced.
pub open spec fn count_plan(entries: Seq<Entry>) -> Plan {
    if entries.len() > u32::MAX {
        failure(Error::Protocol(ProtocolError::Oversize))
    } else {
        Plan {
            steps: seq![
                StepView::Send(verdict(RequestResult::Okay) + le_bytes(entries.len(), 4)),
            ],
            outcome: Ok(()),
        }
    }
}

/// The reply to `DownloadFileByIndex`: a refusal where the index is not below the number of
/// entries, else the verdict, the entry's name and its file.
pub open spec fn index_plan(index: u64, entries: Seq<Entry>) -> Plan {
    if index >= entries.len() {
        refusal(RequestResult::ErrIndexOutOfBounds, ProtocolRejection::IndexOutOfBounds)
    } else {
        let entry = entries[index as int];
        if !name_fits(entry) {
            failure(Error::Protocol(ProtocolError::Oversize))
        } else {
            Plan {
                steps: seq![
                    StepView::Send(
                        verdict(RequestResult::Okay) + text_frame(entry.name@) + le_bytes(
                            entry.length as nat,
                            4,
                        ),
                    ),
                    StepView::Stream(entry),
                ],
                outcome: Ok(()),
            }
        }
    }
}

/// The reply to `DownloadFileByName`: a refusal where the name leads out of the root, an I/O
/// error where it leads to no regular file, else the verdict and the file. The name is not sent
/// back.
pub open spec fn name_plan(found: Resolution) -> Plan {
    if !lies_under(components(found.target@), components(found.root@)) {
        refusal(RequestResult::ErrUnauthorizedAccess, ProtocolRejection::UnauthorizedAccess)
    } else if found.item.kind != ItemKind::File {
        failure(Error::Io)
    } else {
        let entry = entry_of(found.item);
        Plan {
            steps: seq![
                StepView::Send(verdict(RequestResult::Okay) + le_bytes(entry.length as nat, 4)),
                StepView::Stream(entry),
            ],
            outcome: Ok(()),
        }
    }
}

/// The three steps that serve one entry of a bulk download: its name and length, its file, and
/// the wait for the client's acknowledgment.
pub open spec fn served(entry: Entry) -> Seq<StepView> {
    seq![
        StepView::Send(text_frame(entry.name@) + le_bytes(entry.length as nat, 4)),
        StepView::Stream(entry),
        StepView::AwaitAck,
    ]
}

/// The steps that serve the entries of a bulk download in their order. They end before the first
/// entry whose name cannot travel, and the reply then fails.
pub open spec fn batch_plan(entries: Seq<Entry>) -> Plan
    decreases entries.len(),
{
    if entries.len() == 0 {
        Plan { steps: Seq::empty(), outcome: Ok(()) }
    } else {
        let before = batch_plan(entries.drop_last());
        if before.outcome is Err {
            before
        } else if !name_fits(entries.last()) {
            Plan { steps: before.steps, outcome: Err(Error::Protocol(ProtocolError::Oversize)) }
        } else {
            Plan { steps: before.steps + served(entries.last()), outcome: Ok(()) }
        }
    }
}

/// The reply to `DownloadAllFiles`: the verdict and the number of entries, then every entry in
/// the snapshot's order.
pub open spec fn all_plan(entries: Seq<Entry>) -> Plan {
    if entries.len() > u32::MAX {
        failure(Error::Protocol(ProtocolError::Oversize))
    } else {
        let batch = batch_plan(entries);
        Plan {
            steps: seq![
                StepView::Send(verdict(RequestResult::Okay) + le_bytes(entries.len(), 4)),
            ] + batch.steps,
            outcome: batch.outcome,
        }
    }
}

/// The reply to a request, given what was found out for it. Where the file system refused, or
/// what was found is not what the request needs, the reply sends nothing and fails with an I/O
/// error.
pub open spec fn plan_for(request: RequestView, facts: Facts) -> Plan {
    match (request, facts) {
        (RequestView::Disconnect, _) => Plan {
            steps: seq![StepView::Shutdown],
            outcome: Ok(()),
        },
        (RequestView::GetFileCount, Facts::Listing(listing)) => count_plan(catalog(listing@)),
        (RequestView::DownloadFileByIndex(index), Facts::Listing(listing)) => index_plan(
            index,
            catalog(listing@),
        ),
        (RequestView::DownloadFileByName(_), Facts::Resolved(found)) => name_plan(found),
        (RequestView::DownloadAllFiles, Facts::Listing(listing)) => all_plan(catalog(listing@)),
        _ => failure(Error::Io),
    }
}

/// What the server must find out, as a mathematical value.
pub enum LookupView {
    Nothing,
    Scan,
    Resolve(Seq<char>),
}

impl View for Lookup {
    type V = LookupView;

    open spec fn view(&self) -> LookupView {
        match *self {
            Lookup::Nothing => LookupView::Nothing,
            Lookup::Scan => LookupView::Scan,
            Lookup::Resolve(name) => LookupView::Resolve(name@),
        }
    }
}

/// What a request needs from the file system: `Disconnect` nothing, a name where it leads, and
/// every other request the children of the root.
pub open spec fn lookup_of(request: RequestView) -> LookupView {
    match request {
        RequestView::Disconnect => LookupView::Nothing,
        RequestView::DownloadFileByName(name) => LookupView::Resolve(name),
        _ => LookupView::Scan,
    }
}

/// Says what the server must find out before it replies to `request`.
pub fn lookup_for(request: &Request) -> (lookup: Lookup)
    ensures
        lookup@ == lookup_of(request@),
{
    match request {
        Request::Disconnect => Lookup::Nothing,
        Request::DownloadFileByName(name) => Lookup::Resolve(name.clone()),
        _ => Lookup::Scan,
    }
}

fn fail(error: Error) -> (response: Response)
    ensures
        response@ == failure(error),
{
    let response = Response { steps: Vec::new(), outcome: Err(error) };
    assert(response@.steps =~= Seq::<StepView>::empty());
    response
}

fn refuse(result: RequestResult, rejection: ProtocolRejection) -> (response: Response)
    ensures
        response@ == refusal(result, rejection),
{
    let mut steps: Vec<Step> = Vec::new();
    steps.push(Step::Send(result.to_frame()));
    let response = Response { steps, outcome: Err(Error::Rejected(rejection)) };
    assert(response@.steps =~= seq![StepView::Send(verdict(result))]);
    response
}

/// The verdict `Okay` followed by a raw count.
fn accept_with(count: u32) -> (bytes: Vec<u8>)
    ensures
        bytes@ == verdict(RequestResult::Okay) + le_bytes(count as nat, 4),
{
    let mut bytes = RequestResult::Okay.to_frame();
    let raw = encode_u32(count);
    append_bytes(&mut bytes, raw.as_slice());
    bytes
}

/// The reply to `GetFileCount` over a snapshot.
pub fn respond_count(entries: &Vec<Entry>) -> (response: Response)
    ensures
        response@ == count_plan(entries@),
{
    if entries.len() > 0xffff_ffff {
        return fail(Error::Protocol(ProtocolError::Oversize));
    }
    let mut steps: Vec<Step> = Vec::new();
    steps.push(Step::Send(accept_with(entries.len() as u32)));
    let response = Response { steps, outcome: Ok(()) };
    assert(response@.steps =~= count_plan(entries@).steps);
    response
}

/// The reply to `DownloadFileByIndex` over a snapshot.
pub fn respond_by_index(index: u64, entries: &Vec<Entry>) -> (response: Response)
    ensures
        response@ == index_plan(index, entries@),
{
    if index >= entries.len() as u64 {
        return refuse(RequestResult::ErrIndexOutOfBounds, ProtocolRejection::IndexOutOfBounds);
    }
    let entry = &entries[index as usize];
    let name = match encode_text(entry.name.as_str()) {
        Err(_) => { return fail(Error::Protocol(ProtocolError::Oversize)); },
        Ok(name) => name,
    };
    let mut head = RequestResult::Okay.to_frame();
    append_bytes(&mut head, name.as_slice());
    let length = encode_u32(entry.length);
    append_bytes(&mut head, length.as_slice());
    let mut steps: Vec<Step> = Vec::new();
    steps.push(Step::Send(head));
    steps.push(Step::Stream(entry.duplicate()));
    let response = Response { steps, outcome: Ok(()) };
    assert(response@.steps =~= index_plan(index, entries@).steps);
    response
}

/// The reply to `DownloadFileByName`, given where the name led.
pub fn respond_by_name(found: &Resolution) -> (response: Response)
    ensures
        response@ == name_plan(*found),
{
    if !is_within(&found.target, &found.root) {
        return refuse(
            RequestResult::ErrUnauthorizedAccess,
            ProtocolRejection::UnauthorizedAccess,
        );
    }
    match get_file_entry(&found.item) {
        Err(_) => fail(Error::Io),
        Ok(entry) => {
            let head = accept_with(entry.length);
            let mut steps: Vec<Step> = Vec::new();
            steps.push(Step::Send(head));
            steps.push(Step::Stream(entry));
            let response = Response { steps, outcome: Ok(()) };
            assert(response@.steps =~= name_plan(*found).steps);
            response
        },
    }
}

/// The reply to `DownloadAllFiles` over a snapshot.
pub fn respond_all(entries: &Vec<Entry>) -> (response: Response)
    ensures
        response@ == all_plan(entries@),
{
    if entries.len() > 0xffff_ffff {
        return fail(Error::Protocol(ProtocolError::Oversize));
    }
    let ghost first = seq![
        StepView::Send(verdict(RequestResult::Okay) + le_bytes(entries@.len(), 4)),
    ];
    let mut steps: Vec<Step> = Vec::new();
    steps.push(Step::Send(accept_with(entries.len() as u32)));
    let mut outcome: Result<(), Error> = Ok(());
    let mut i: usize = 0;
    assert(step_views(steps@) =~= first + batch_plan(entries@.take(0)).steps);
    while i < entries.len()
        invariant
            i <= entries.len() <= u32::MAX,
            first == seq![
                StepView::Send(verdict(RequestResult::Okay) + le_bytes(entries@.len(), 4)),
            ],
            outcome is Ok,
            outcome == batch_plan(entries@.take(i as int)).outcome,
            step_views(steps@) == first + batch_plan(entries@.take(i as int)).steps,
        decreases entries.len() - i,
    {
        let entry = &entries[i];
        proof {
            assert(entries@.take(i + 1).drop_last() =~= entries@.take(i as int));
            assert(entries@.take(i + 1).last() == entries@[i as int]);
        }
        let mut head = match encode_text(entry.name.as_str()) {
            Err(_) => {
                outcome = Err(Error::Protocol(ProtocolError::Oversize));
                let response = Response { steps, outcome };
                proof {
                    let cut = batch_plan(entries@.take(i + 1));
                    assert(!name_fits(entries@[i as int]));
                    assert(cut.steps == batch_plan(entries@.take(i as int)).steps);
                    assert(cut.outcome == outcome);
                    lemma_batch_stays_failed(entries@, i + 1);
                    assert(response@.steps == all_plan(entries@).steps);
                }
                return response;
            },
            Ok(head) => head,
        };
        let length = encode_u32(entry.length);
        append_bytes(&mut head, length.as_slice());
        let ghost before = step_views(steps@);
        steps.push(Step::Send(head));
        steps.push(Step::Stream(entry.duplicate()));
        steps.push(Step::AwaitAck);
        assert(step_views(steps@) =~= before + served(entries@[i as int]));
        assert(before + served(entries@[i as int]) =~= first + (batch_plan(
            entries@.take(i as int),
        ).steps + served(entries@[i as int])));
        i = i + 1;
    }
    assert(entries@.take(entries.len() as int) =~= entries@);
    Response { steps, outcome }
}

/// Once the steps of a bulk download have ended in failure, later entries change nothing.
pub proof fn lemma_batch_stays_failed(entries: Seq<Entry>, k: int)
    requires
        0 <= k <= entries.len(),
        batch_plan(entries.take(k)).outcome is Err,
    ensures
        batch_plan(entries) == batch_plan(entries.take(k)),
    decreases entries.len(),
{
    if k < entries.len() {
        assert(entries.drop_last().take(k) =~= entries.take(k));
        lemma_batch_stays_failed(entries.drop_last(), k);
    } else {
        assert(entries.take(k) =~= entries);
    }
}

/// The reply to `request`, given what was found out for it.
pub fn respond(request: &Request, facts: &Facts) -> (response: Response)
    ensures
        response@ == plan_for(request@, *facts),
{
    match request {
        Request::Disconnect => {
            let mut steps: Vec<Step> = Vec::new();
            steps.push(Step::Shutdown);
            let response = Response { steps, outcome: Ok(()) };
            assert(response@.steps =~= seq![StepView::Shutdown]);
            response
        },
        Request::GetFileCount => match facts {
            Facts::Listing(listing) => respond_count(&get_file_entries(listing)),
            _ => fail(Error::Io),
        },
        Request::DownloadFileByIndex(index) => match facts {
            Facts::Listing(listing) => respond_by_index(*index, &get_file_entries(listing)),
            _ => fail(Error::Io),
        },
        Request::DownloadFileByName(_) => match facts {
            Facts::Resolved(found) => respond_by_name(found),
            _ => fail(Error::Io),
        },
        Request::DownloadAllFiles => match facts {
            Facts::Listing(listing) => respond_all(&get_file_entries(listing)),
            _ => fail(Error::Io),
        },
    }
}

/// The reply to `GetFileCount` states the number of the root's children that are no
/// directories, whatever else the root holds, and a reader gets that number back from it.
pub proof fn law_count_is_number_of_files(listing: Vec<DirItem>)
    requires
        listed_count(listing@) <= u32::MAX,
    ensures
        plan_for(RequestView::GetFileCount, Facts::Listing(listing)) == (Plan {
            steps: seq![
                StepView::Send(
                    verdict(RequestResult::Okay) + le_bytes(listed_count(listing@), 4),
                ),
            ],
            outcome: Ok(()),
        }),
        parse_u32(le_bytes(listed_count(listing@), 4)) == Ok::<u32, ProtocolError>(
            listed_count(listing@) as u32,
        ),
{
    lemma_catalog_len(listing@);
    lemma_u32_round_trip(listed_count(listing@) as u32, Seq::empty());
    assert(le_bytes(listed_count(listing@), 4) + Seq::<u8>::empty() =~= le_bytes(
        listed_count(listing@),
        4,
    ));
}

/// An index that is not below the number of servable files, the number itself included, is
/// answered with `ErrIndexOutOfBounds` and nothing else: no name and no file follow.
pub proof fn law_index_past_the_end_is_refused(index: u64, listing: Vec<DirItem>)
    requires
        index >= listed_count(listing@),
    ensures
        plan_for(RequestView::DownloadFileByIndex(index), Facts::Listing(listing)) == (Plan {
            steps: seq![StepView::Send(verdict(RequestResult::ErrIndexOutOfBounds))],
            outcome: Err(Error::Rejected(ProtocolRejection::IndexOutOfBounds)),
        }),
{
    lemma_catalog_len(listing@);
}

/// A name that leads out of the root is answered with `ErrUnauthorizedAccess` and nothing else.
pub proof fn law_escape_is_refused(name: Seq<char>, found: Resolution)
    requires
        !lies_under(components(found.target@), components(found.root@)),
    ensures
        plan_for(RequestView::DownloadFileByName(name), Facts::Resolved(found)) == (Plan {
            steps: seq![StepView::Send(verdict(RequestResult::ErrUnauthorizedAccess))],
            outcome: Err(Error::Rejected(ProtocolRejection::UnauthorizedAccess)),
        }),
{
}

/// The number of entries that a bulk download serves: all of them, or those before the first
/// whose name cannot travel.
pub open spec fn served_count(entries: Seq<Entry>) -> nat
    decreases entries.len(),
{
    if entries.len() == 0 {
        0
    } else {
        let before = served_count(entries.drop_last());
        if before == entries.len() - 1 && name_fits(entries.last()) {
            before + 1
        } else {
            before
        }
    }
}

/// A bulk download serves the entries in the snapshot's order, three steps each, and ends well
/// exactly when it has served them all.
pub proof fn lemma_batch_shape(entries: Seq<Entry>)
    ensures
        served_count(entries) <= entries.len(),
        batch_plan(entries).outcome is Ok <==> served_count(entries) == entries.len(),
        batch_plan(entries).steps.len() == 3 * served_count(entries),
        forall|k: int|
            0 <= k < served_count(entries) ==> #[trigger] batch_plan(entries).steps.subrange(
                3 * k,
                3 * k + 3,
            ) == served(entries[k]),
    decreases entries.len(),
{
    if entries.len() > 0 {
        let front = entries.drop_last();
        lemma_batch_shape(front);
        let steps = batch_plan(entries).steps;
        let before = batch_plan(front).steps;
        assert forall|k: int| 0 <= k < served_count(entries) implies #[trigger] steps.subrange(
            3 * k,
            3 * k + 3,
        ) == served(entries[k]) by {
            if k < served_count(front) {
                assert(front[k] == entries[k]);
                assert(steps.subrange(3 * k, 3 * k + 3) =~= before.subrange(3 * k, 3 * k + 3));
            } else {
                assert(steps.subrange(3 * k, 3 * k + 3) =~= served(entries.last()));
            }
        }
    }
}

/// Where every name can travel, a bulk download serves every entry.
pub proof fn lemma_all_served(entries: Seq<Entry>)
    requires
        forall|k: int| 0 <= k < entries.len() ==> name_fits(#[trigger] entries[k]),
    ensures
        served_count(entries) == entries.len(),
    decreases entries.len(),
{
    if entries.len() > 0 {
        let front = entries.drop_last();
        assert(forall|k: int| 0 <= k < front.len() ==> front[k] == entries[k]);
        lemma_all_served(front);
        assert(name_fits(entries.last()));
    }
}

/// The shape of the reply to a bulk download. After the opening step, which states the number
/// of files, the reply serves the files in the snapshot's order: for each the name and the
/// length, then the file, then the wait for the client's acknowledgment, the last file
/// included. A snapshot that a raw count cannot state is not served at all.
pub proof fn law_bulk_download_serves_in_order(listing: Vec<DirItem>, k: int)
    requires
        0 <= k < served_count(catalog(listing@)),
    ensures
        ({
            let plan = plan_for(RequestView::DownloadAllFiles, Facts::Listing(listing));
            let entries = catalog(listing@);
            if entries.len() > u32::MAX {
                plan.steps.len() == 0 && plan.outcome is Err
            } else {
                &&& plan.outcome is Ok <==> served_count(entries) == entries.len()
                &&& plan.steps.len() == 1 + 3 * served_count(entries)
                &&& plan.steps[0] == StepView::Send(
                    verdict(RequestResult::Okay) + le_bytes(entries.len(), 4),
                )
                &&& plan.steps[1 + 3 * k] == StepView::Send(
                    text_frame(entries[k].name@) + le_bytes(entries[k].length as nat, 4),
                )
                &&& plan.steps[2 + 3 * k] == StepView::Stream(entries[k])
                &&& plan.steps[3 + 3 * k] == StepView::AwaitAck
            }
        }),
{
    let entries = catalog(listing@);
    lemma_batch_shape(entries);
    let batch = batch_plan(entries).steps;
    let part = batch.subrange(3 * k, 3 * k + 3);
    assert(part == served(entries[k]));
    assert(part[0] == batch[3 * k]);
    assert(part[1] == batch[3 * k + 1]);
    assert(part[2] == batch[3 * k + 2]);
}

/// The pacing of a bulk download, whatever the root holds. In the reply, every step that sends
/// a file is followed at once by the wait for the client's acknowledgment, and every step that
/// sends a name, but that of the first file, comes right after such a wait. So the server is
/// never more than one file ahead of the client, and it waits once for each file that it sends.
pub proof fn law_bulk_download_is_paced(listing: Vec<DirItem>, i: int)
    requires
        0 <= i < plan_for(RequestView::DownloadAllFiles, Facts::Listing(listing)).steps.len(),
    ensures
        ({
            let steps = plan_for(RequestView::DownloadAllFiles, Facts::Listing(listing)).steps;
            &&& steps[i] is Stream ==> i + 1 < steps.len() && steps[i + 1] == StepView::AwaitAck
            &&& steps[i] is Send && i >= 2 ==> steps[i - 1] == StepView::AwaitAck
            &&& steps[i] is AwaitAck ==> i >= 1 && steps[i - 1] is Stream
            &&& !(steps[i] is Shutdown)
        }),
{
    let entries = catalog(listing@);
    lemma_batch_shape(entries);
    let batch = batch_plan(entries).steps;
    if i >= 1 {
        let j = i - 1;
        let k = j / 3;
        let part = batch.subrange(3 * k, 3 * k + 3);
        assert(part == served(entries[k]));
        assert(part[j - 3 * k] == batch[j]);
        if j - 3 * k == 0 && j >= 1 {
            let earlier = batch.subrange(3 * (k - 1), 3 * (k - 1) + 3);
            assert(earlier == served(entries[k - 1]));
            assert(earlier[2] == batch[j - 1]);
        }
        if j - 3 * k == 1 {
            assert(part[2] == batch[j + 1]);
        }
        if j - 3 * k == 2 {
            assert(part[1] == batch[j - 1]);
        }
    }
}

/// The reply is a function of the request and of what the file system told: over an unchanged
/// directory two connections get the same reply, and so the same count.
pub proof fn law_unchanged_directory_same_reply(
    request: RequestView,
    first: Vec<DirItem>,
    second: Vec<DirItem>,
)
    requires
        first@ == second@,
    ensures
        plan_for(request, Facts::Listing(first)) == plan_for(request, Facts::Listing(second)),
{
}

} // verus!
