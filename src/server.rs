//! The service's side of one connection: a state machine from what arrives
//! (frames, end of stream, answers about storage) to what must be done.

use vstd::prelude::*;
use vstd::utf8::*;
use crate::protocol::{
    Acknowledgment, AckModel, Command, CommandModel, ack_bytes, command_bytes, error_text,
    lemma_command_round_trip, parse_command,
};
use crate::text::{joined, utf8_text};

verus! {

broadcast use group_utf8_lib;

/// How many bytes of the published file each download frame carries at most.
pub const DOWNLOAD_CHUNK: usize = 1572864;

/// Where a connection stands.
#[derive(Debug, PartialEq, Eq)]
pub enum Phase {
    /// Nothing has arrived yet; the first frame will be read as the command.
    AwaitingCommand,
    /// An upload was asked for; waiting to learn whether the name is published.
    CheckingUpload { filename: String },
    /// A download was asked for; waiting to learn whether the name is published.
    CheckingGet { filename: String },
    /// Every frame that arrives is appended to the staging file.
    Uploading { filename: String },
    /// The published file is being sent, one chunk per frame.
    Downloading { filename: String },
    /// Nothing more happens on this connection.
    Closed,
}

/// What the connection learns next.
#[derive(Debug, PartialEq, Eq)]
pub enum Event {
    /// One frame from the peer.
    Frame(Vec<u8>),
    /// The peer closed its sending side.
    EndOfStream,
    /// A read or write on the socket or on storage failed.
    Failure,
    /// Whether the filename in question exists in the published root.
    Published(bool),
    /// One read from the published file; empty at its end.
    Chunk(Vec<u8>),
}

/// What the connection asks of its runtime, in order.
#[derive(Debug, PartialEq, Eq)]
pub enum Action {
    /// Send one frame to the peer.
    Send(Vec<u8>),
    /// Find out whether the file is in the published root; answer with `Published`.
    CheckPublished(String),
    /// Create the file under the staging root, empty.
    CreateStaging(String),
    /// Append bytes to the staging file that was created.
    Append(Vec<u8>),
    /// Open the file in the published root for reading.
    OpenPublished(String),
    /// Read the next chunk of the open file; answer with `Chunk`.
    ReadChunk,
    /// Hand the filename to the transcode queue.
    Enqueue(String),
    /// Tear the connection down.
    Close,
}

/// A phase, with its filename as text.
pub enum PhaseModel {
    AwaitingCommand,
    CheckingUpload(Seq<char>),
    CheckingGet(Seq<char>),
    Uploading(Seq<char>),
    Downloading(Seq<char>),
    Closed,
}

/// An event, with its bytes as a sequence.
pub enum EventModel {
    Frame(Seq<u8>),
    EndOfStream,
    Failure,
    Published(bool),
    Chunk(Seq<u8>),
}

/// An action, with its bytes and filename as sequences.
pub enum ActionModel {
    Send(Seq<u8>),
    CheckPublished(Seq<char>),
    CreateStaging(Seq<char>),
    Append(Seq<u8>),
    OpenPublished(Seq<char>),
    ReadChunk,
    Enqueue(Seq<char>),
    Close,
}

impl View for Phase {
    type V = PhaseModel;

    open spec fn view(&self) -> PhaseModel {
        match self {
            Phase::AwaitingCommand => PhaseModel::AwaitingCommand,
            Phase::CheckingUpload { filename } => PhaseModel::CheckingUpload(filename@),
            Phase::CheckingGet { filename } => PhaseModel::CheckingGet(filename@),
            Phase::Uploading { filename } => PhaseModel::Uploading(filename@),
            Phase::Downloading { filename } => PhaseModel::Downloading(filename@),
            Phase::Closed => PhaseModel::Closed,
        }
    }
}

impl View for Event {
    type V = EventModel;

    open spec fn view(&self) -> EventModel {
        match self {
            Event::Frame(b) => EventModel::Frame(b@),
            Event::EndOfStream => EventModel::EndOfStream,
            Event::Failure => EventModel::Failure,
            Event::Published(p) => EventModel::Published(*p),
            Event::Chunk(b) => EventModel::Chunk(b@),
        }
    }
}

impl View for Action {
    type V = ActionModel;

    open spec fn view(&self) -> ActionModel {
        match self {
            Action::Send(b) => ActionModel::Send(b@),
            Action::CheckPublished(f) => ActionModel::CheckPublished(f@),
            Action::CreateStaging(f) => ActionModel::CreateStaging(f@),
            Action::Append(b) => ActionModel::Append(b@),
            Action::OpenPublished(f) => ActionModel::OpenPublished(f@),
            Action::ReadChunk => ActionModel::ReadChunk,
            Action::Enqueue(f) => ActionModel::Enqueue(f@),
            Action::Close => ActionModel::Close,
        }
    }
}

/// The views of a list of actions.
pub open spec fn actions_view(v: Seq<Action>) -> Seq<ActionModel> {
    v.map_values(|a: Action| a@)
}

/// The reply to an upload of a name that is already published.
pub open spec fn already_exists() -> Seq<char> {
    "file already exists"@
}

/// The reply to a download of a name that is not published.
pub open spec fn does_not_exist() -> Seq<char> {
    "file does not exist"@
}

/// The next phase of a connection, and what it asks for, when `e` arrives in phase `p`.
pub open spec fn next(p: PhaseModel, e: EventModel) -> (PhaseModel, Seq<ActionModel>) {
    let close = (PhaseModel::Closed, seq![ActionModel::Close]);
    match p {
        PhaseModel::AwaitingCommand => match e {
            EventModel::Frame(b) => if !valid_utf8(b) {
                close
            } else {
                match parse_command(b) {
                    Err(err) => (
                        PhaseModel::Closed,
                        seq![
                            ActionModel::Send(ack_bytes(AckModel::Rejected(error_text(err)))),
                            ActionModel::Close,
                        ],
                    ),
                    Ok(CommandModel::Upload(f)) => (
                        PhaseModel::CheckingUpload(f),
                        seq![ActionModel::CheckPublished(f)],
                    ),
                    Ok(CommandModel::Get(f)) => (
                        PhaseModel::CheckingGet(f),
                        seq![ActionModel::CheckPublished(f)],
                    ),
                }
            },
            _ => close,
        },
        PhaseModel::CheckingUpload(f) => match e {
            EventModel::Published(true) => (
                PhaseModel::Closed,
                seq![
                    ActionModel::Send(ack_bytes(AckModel::Rejected(already_exists()))),
                    ActionModel::Close,
                ],
            ),
            EventModel::Published(false) => (
                PhaseModel::Uploading(f),
                seq![ActionModel::Send(ack_bytes(AckModel::Accepted)), ActionModel::CreateStaging(f)],
            ),
            _ => close,
        },
        PhaseModel::Uploading(f) => match e {
            EventModel::Frame(b) => (PhaseModel::Uploading(f), seq![ActionModel::Append(b)]),
            EventModel::EndOfStream => (
                PhaseModel::Closed,
                seq![ActionModel::Enqueue(f), ActionModel::Close],
            ),
            _ => close,
        },
        PhaseModel::CheckingGet(f) => match e {
            EventModel::Published(true) => (
                PhaseModel::Downloading(f),
                seq![
                    ActionModel::Send(ack_bytes(AckModel::Accepted)),
                    ActionModel::OpenPublished(f),
                    ActionModel::ReadChunk,
                ],
            ),
            EventModel::Published(false) => (
                PhaseModel::Closed,
                seq![
                    ActionModel::Send(ack_bytes(AckModel::Rejected(does_not_exist()))),
                    ActionModel::Close,
                ],
            ),
            _ => close,
        },
        PhaseModel::Downloading(f) => match e {
            EventModel::Chunk(b) => if b.len() == 0 {
                close
            } else {
                (PhaseModel::Downloading(f), seq![ActionModel::Send(b), ActionModel::ReadChunk])
            },
            _ => close,
        },
        PhaseModel::Closed => (PhaseModel::Closed, seq![]),
    }
}

/// The phase reached, and all that was asked for, when `events` arrive in
/// order at a connection in phase `p`.
pub open spec fn run(p: PhaseModel, events: Seq<EventModel>) -> (PhaseModel, Seq<ActionModel>)
    decreases events.len(),
{
    if events.len() == 0 {
        (p, seq![])
    } else {
        let before = run(p, events.drop_last());
        let last = next(before.0, events.last());
        (last.0, before.1 + last.1)
    }
}

/// All bytes that `acts` append to the staging file, in order.
pub open spec fn appended(acts: Seq<ActionModel>) -> Seq<u8>
    decreases acts.len(),
{
    if acts.len() == 0 {
        seq![]
    } else {
        appended(acts.drop_last()) + match acts.last() {
            ActionModel::Append(b) => b,
            _ => seq![],
        }
    }
}

/// All bytes that `acts` send to the peer, in order.
pub open spec fn sent(acts: Seq<ActionModel>) -> Seq<u8>
    decreases acts.len(),
{
    if acts.len() == 0 {
        seq![]
    } else {
        sent(acts.drop_last()) + match acts.last() {
            ActionModel::Send(b) => b,
            _ => seq![],
        }
    }
}

/// Each chunk arriving as a frame.
pub open spec fn frames(chunks: Seq<Seq<u8>>) -> Seq<EventModel> {
    chunks.map_values(|c: Seq<u8>| EventModel::Frame(c))
}

/// Each chunk arriving as a read of the published file.
pub open spec fn reads(chunks: Seq<Seq<u8>>) -> Seq<EventModel> {
    chunks.map_values(|c: Seq<u8>| EventModel::Chunk(c))
}

/// What an upload asks for while `chunks` arrive.
pub open spec fn appends(chunks: Seq<Seq<u8>>) -> Seq<ActionModel> {
    chunks.map_values(|c: Seq<u8>| ActionModel::Append(c))
}

/// What a download asks for while `chunks` are read: send each, read on.
pub open spec fn relays(chunks: Seq<Seq<u8>>) -> Seq<ActionModel>
    decreases chunks.len(),
{
    if chunks.len() == 0 {
        seq![]
    } else {
        relays(chunks.drop_last()) + seq![ActionModel::Send(chunks.last()), ActionModel::ReadChunk]
    }
}

proof fn lemma_run_split(p: PhaseModel, e1: Seq<EventModel>, e2: Seq<EventModel>)
    ensures
        run(p, e1 + e2) == (run(run(p, e1).0, e2).0, run(p, e1).1 + run(run(p, e1).0, e2).1),
    decreases e2.len(),
{
    if e2.len() == 0 {
        assert(e1 + e2 =~= e1);
        assert(run(p, e1).1 + seq![] =~= run(p, e1).1);
    } else {
        assert((e1 + e2).drop_last() =~= e1 + e2.drop_last());
        assert((e1 + e2).last() == e2.last());
        lemma_run_split(p, e1, e2.drop_last());
        let q = run(p, e1).0;
        let mid = run(q, e2.drop_last());
        let last = next(mid.0, e2.last());
        assert(run(p, e1).1 + mid.1 + last.1 =~= run(p, e1).1 + (mid.1 + last.1));
    }
}

proof fn lemma_run_closed(events: Seq<EventModel>)
    ensures
        run(PhaseModel::Closed, events) == (PhaseModel::Closed, Seq::<ActionModel>::empty()),
    decreases events.len(),
{
    if events.len() > 0 {
        lemma_run_closed(events.drop_last());
        assert(Seq::<ActionModel>::empty() + seq![] =~= Seq::<ActionModel>::empty());
    }
}

proof fn lemma_appended_split(a: Seq<ActionModel>, b: Seq<ActionModel>)
    ensures
        appended(a + b) == appended(a) + appended(b),
    decreases b.len(),
{
    if b.len() == 0 {
        assert(a + b =~= a);
        assert(appended(a) + seq![] =~= appended(a));
    } else {
        assert((a + b).drop_last() =~= a + b.drop_last());
        lemma_appended_split(a, b.drop_last());
        let tail = match b.last() {
            ActionModel::Append(x) => x,
            _ => seq![],
        };
        assert(appended(a) + appended(b.drop_last()) + tail =~= appended(a) + (appended(
            b.drop_last(),
        ) + tail));
    }
}

proof fn lemma_sent_split(a: Seq<ActionModel>, b: Seq<ActionModel>)
    ensures
        sent(a + b) == sent(a) + sent(b),
    decreases b.len(),
{
    if b.len() == 0 {
        assert(a + b =~= a);
        assert(sent(a) + seq![] =~= sent(a));
    } else {
        assert((a + b).drop_last() =~= a + b.drop_last());
        lemma_sent_split(a, b.drop_last());
        let tail = match b.last() {
            ActionModel::Send(x) => x,
            _ => seq![],
        };
        assert(sent(a) + sent(b.drop_last()) + tail =~= sent(a) + (sent(b.drop_last()) + tail));
    }
}

proof fn lemma_uploading(f: Seq<char>, chunks: Seq<Seq<u8>>)
    ensures
        run(PhaseModel::Uploading(f), frames(chunks)) == (PhaseModel::Uploading(f), appends(chunks)),
        appended(appends(chunks)) == joined(chunks),
        sent(appends(chunks)) == Seq::<u8>::empty(),
    decreases chunks.len(),
{
    if chunks.len() > 0 {
        lemma_uploading(f, chunks.drop_last());
        assert(frames(chunks).drop_last() =~= frames(chunks.drop_last()));
        assert(appends(chunks).drop_last() =~= appends(chunks.drop_last()));
        assert(appends(chunks.drop_last()) + seq![ActionModel::Append(chunks.last())] =~= appends(
            chunks,
        ));
        assert(sent(appends(chunks.drop_last())) + seq![] =~= Seq::<u8>::empty());
    }
}

proof fn lemma_downloading(f: Seq<char>, chunks: Seq<Seq<u8>>)
    requires
        forall|i: int| 0 <= i < chunks.len() ==> (#[trigger] chunks[i]).len() > 0,
    ensures
        run(PhaseModel::Downloading(f), reads(chunks)) == (PhaseModel::Downloading(f), relays(chunks)),
        sent(relays(chunks)) == joined(chunks),
        appended(relays(chunks)) == Seq::<u8>::empty(),
        forall|i: int|
            0 <= i < relays(chunks).len() ==> (#[trigger] relays(chunks)[i] is Send) || relays(
                chunks,
            )[i] is ReadChunk,
    decreases chunks.len(),
{
    if chunks.len() > 0 {
        lemma_downloading(f, chunks.drop_last());
        let prev = relays(chunks.drop_last());
        let pair0 = seq![ActionModel::Send(chunks.last()), ActionModel::ReadChunk];
        assert forall|i: int| 0 <= i < relays(chunks).len() implies (#[trigger] relays(
            chunks,
        )[i] is Send) || relays(chunks)[i] is ReadChunk by {
            if i < prev.len() {
                assert(relays(chunks)[i] == prev[i]);
            } else {
                assert(relays(chunks)[i] == pair0[i - prev.len()]);
            }
        }
        assert(reads(chunks).drop_last() =~= reads(chunks.drop_last()));
        assert(chunks.last() == chunks[chunks.len() - 1]);
        let pair = seq![ActionModel::Send(chunks.last()), ActionModel::ReadChunk];
        reveal_with_fuel(sent, 3);
        reveal_with_fuel(appended, 3);
        lemma_sent_split(relays(chunks.drop_last()), pair);
        lemma_appended_split(relays(chunks.drop_last()), pair);
        assert(pair.drop_last() =~= seq![ActionModel::Send(chunks.last())]);
        assert(pair.drop_last().drop_last() =~= Seq::<ActionModel>::empty());
        assert(sent(pair) =~= chunks.last());
        assert(appended(pair) =~= Seq::<u8>::empty());
        assert(Seq::<u8>::empty() + Seq::<u8>::empty() =~= Seq::<u8>::empty());
    }
}

proof fn lemma_run_one(p: PhaseModel, e: EventModel)
    ensures
        run(p, seq![e]) == next(p, e),
{
    assert(seq![e].drop_last() =~= Seq::<EventModel>::empty());
    reveal_with_fuel(run, 2);
    assert(Seq::<ActionModel>::empty() + next(p, e).1 =~= next(p, e).1);
}

proof fn lemma_run_pair(p: PhaseModel, e1: EventModel, e2: EventModel)
    ensures
        run(p, seq![e1, e2]) == (
            next(next(p, e1).0, e2).0,
            next(p, e1).1 + next(next(p, e1).0, e2).1,
        ),
{
    let head = seq![e1, e2];
    assert(head.drop_last() =~= seq![e1]);
    assert(head.drop_last().drop_last() =~= Seq::<EventModel>::empty());
    reveal_with_fuel(run, 3);
    assert(Seq::<ActionModel>::empty() + next(p, e1).1 =~= next(p, e1).1);
}

/// An upload of a name that is not published is accepted, and once the
/// peer closes, the staging file holds exactly the bytes of the frames that
/// followed the command, in order; then the name is queued and the
/// connection closes.
pub proof fn upload_stages_what_was_sent(f: Seq<char>, chunks: Seq<Seq<u8>>)
    ensures
        ({
            let events = seq![
                EventModel::Frame(command_bytes(CommandModel::Upload(f))),
                EventModel::Published(false),
            ] + frames(chunks) + seq![EventModel::EndOfStream];
            let (end, acts) = run(PhaseModel::AwaitingCommand, events);
            &&& end == PhaseModel::Closed
            &&& acts == seq![
                ActionModel::CheckPublished(f),
                ActionModel::Send(ack_bytes(AckModel::Accepted)),
                ActionModel::CreateStaging(f),
            ] + appends(chunks) + seq![ActionModel::Enqueue(f), ActionModel::Close]
            &&& appended(acts) == joined(chunks)
            &&& sent(acts) == ack_bytes(AckModel::Accepted)
        }),
{
    lemma_command_round_trip(CommandModel::Upload(f));
    let head = seq![
        EventModel::Frame(command_bytes(CommandModel::Upload(f))),
        EventModel::Published(false),
    ];
    let tail = seq![EventModel::EndOfStream];
    let opening = seq![
        ActionModel::CheckPublished(f),
        ActionModel::Send(ack_bytes(AckModel::Accepted)),
        ActionModel::CreateStaging(f),
    ];
    let closing = seq![ActionModel::Enqueue(f), ActionModel::Close];
    lemma_run_pair(PhaseModel::AwaitingCommand, head[0], head[1]);
    assert(head =~= seq![head[0], head[1]]);
    assert(run(PhaseModel::AwaitingCommand, head) == (PhaseModel::Uploading(f), opening)) by {
        assert(seq![ActionModel::CheckPublished(f)] + seq![
            ActionModel::Send(ack_bytes(AckModel::Accepted)),
            ActionModel::CreateStaging(f),
        ] =~= opening);
    }
    lemma_uploading(f, chunks);
    lemma_run_split(PhaseModel::AwaitingCommand, head, frames(chunks));
    lemma_run_one(PhaseModel::Uploading(f), EventModel::EndOfStream);
    assert(run(PhaseModel::Uploading(f), tail) == (PhaseModel::Closed, closing));
    lemma_run_split(PhaseModel::AwaitingCommand, head + frames(chunks), tail);
    lemma_appended_split(opening, appends(chunks));
    lemma_appended_split(opening + appends(chunks), closing);
    lemma_sent_split(opening, appends(chunks));
    lemma_sent_split(opening + appends(chunks), closing);
    assert(appended(opening) =~= Seq::<u8>::empty() && sent(opening) =~= ack_bytes(
        AckModel::Accepted,
    )) by {
        reveal_with_fuel(sent, 4);
        reveal_with_fuel(appended, 4);
        assert(opening.drop_last() =~= seq![opening[0], opening[1]]);
        assert(opening.drop_last().drop_last() =~= seq![opening[0]]);
        assert(opening.drop_last().drop_last().drop_last() =~= Seq::<ActionModel>::empty());
    }
    assert(appended(closing) =~= Seq::<u8>::empty() && sent(closing) =~= Seq::<u8>::empty()) by {
        reveal_with_fuel(sent, 3);
        reveal_with_fuel(appended, 3);
        assert(closing.drop_last() =~= seq![closing[0]]);
        assert(closing.drop_last().drop_last() =~= Seq::<ActionModel>::empty());
    }
    assert(Seq::<u8>::empty() + joined(chunks) + Seq::<u8>::empty() =~= joined(chunks));
    assert(ack_bytes(AckModel::Accepted) + Seq::<u8>::empty() + Seq::<u8>::empty() =~= ack_bytes(
        AckModel::Accepted,
    ));
}

/// An upload of a name that is already published is refused with
/// `file already exists`, and nothing that arrives afterwards creates or
/// changes a staging file: the connection asks for nothing more.
pub proof fn upload_of_published_name_is_refused(f: Seq<char>, later: Seq<EventModel>)
    ensures
        run(
            PhaseModel::AwaitingCommand,
            seq![
                EventModel::Frame(command_bytes(CommandModel::Upload(f))),
                EventModel::Published(true),
            ] + later,
        ) == (
            PhaseModel::Closed,
            seq![
                ActionModel::CheckPublished(f),
                ActionModel::Send(ack_bytes(AckModel::Rejected(already_exists()))),
                ActionModel::Close,
            ],
        ),
{
    lemma_command_round_trip(CommandModel::Upload(f));
    let head = seq![
        EventModel::Frame(command_bytes(CommandModel::Upload(f))),
        EventModel::Published(true),
    ];
    lemma_run_pair(PhaseModel::AwaitingCommand, head[0], head[1]);
    assert(head =~= seq![head[0], head[1]]);
    lemma_run_split(PhaseModel::AwaitingCommand, head, later);
    lemma_run_closed(later);
    assert(seq![ActionModel::CheckPublished(f)] + seq![
        ActionModel::Send(ack_bytes(AckModel::Rejected(already_exists()))),
        ActionModel::Close,
    ] + Seq::<ActionModel>::empty() =~= seq![
        ActionModel::CheckPublished(f),
        ActionModel::Send(ack_bytes(AckModel::Rejected(already_exists()))),
        ActionModel::Close,
    ]);
}

/// A download of a published name is accepted: the first frame sent is `OK `
/// alone, the frames after it are the file's reads, in order, until the
/// first empty read, and then the connection closes. No further inbound
/// frame is read, nothing is staged and nothing is queued.
pub proof fn download_sends_whole_file(f: Seq<char>, chunks: Seq<Seq<u8>>)
    requires
        forall|i: int| 0 <= i < chunks.len() ==> (#[trigger] chunks[i]).len() > 0,
    ensures
        ({
            let events = seq![
                EventModel::Frame(command_bytes(CommandModel::Get(f))),
                EventModel::Published(true),
            ] + reads(chunks) + seq![EventModel::Chunk(Seq::<u8>::empty())];
            let (end, acts) = run(PhaseModel::AwaitingCommand, events);
            &&& end == PhaseModel::Closed
            &&& acts == seq![
                ActionModel::CheckPublished(f),
                ActionModel::Send(ack_bytes(AckModel::Accepted)),
                ActionModel::OpenPublished(f),
                ActionModel::ReadChunk,
            ] + relays(chunks) + seq![ActionModel::Close]
            &&& forall|i: int|
                0 <= i < acts.len() ==> !(#[trigger] acts[i] is Enqueue) && !(acts[i] is CreateStaging)
                    && !(acts[i] is Append)
            &&& acts.last() == ActionModel::Close
            &&& sent(acts) == ack_bytes(AckModel::Accepted) + joined(chunks)
            &&& appended(acts) == Seq::<u8>::empty()
        }),
{
    lemma_command_round_trip(CommandModel::Get(f));
    let head = seq![
        EventModel::Frame(command_bytes(CommandModel::Get(f))),
        EventModel::Published(true),
    ];
    let tail = seq![EventModel::Chunk(Seq::<u8>::empty())];
    let opening = seq![
        ActionModel::CheckPublished(f),
        ActionModel::Send(ack_bytes(AckModel::Accepted)),
        ActionModel::OpenPublished(f),
        ActionModel::ReadChunk,
    ];
    let closing = seq![ActionModel::Close];
    lemma_run_pair(PhaseModel::AwaitingCommand, head[0], head[1]);
    assert(head =~= seq![head[0], head[1]]);
    assert(run(PhaseModel::AwaitingCommand, head) == (PhaseModel::Downloading(f), opening)) by {
        assert(seq![ActionModel::CheckPublished(f)] + seq![
            ActionModel::Send(ack_bytes(AckModel::Accepted)),
            ActionModel::OpenPublished(f),
            ActionModel::ReadChunk,
        ] =~= opening);
    }
    lemma_downloading(f, chunks);
    lemma_run_split(PhaseModel::AwaitingCommand, head, reads(chunks));
    lemma_run_one(PhaseModel::Downloading(f), EventModel::Chunk(Seq::<u8>::empty()));
    assert(run(PhaseModel::Downloading(f), tail) == (PhaseModel::Closed, closing));
    lemma_run_split(PhaseModel::AwaitingCommand, head + reads(chunks), tail);
    lemma_appended_split(opening, relays(chunks));
    lemma_appended_split(opening + relays(chunks), closing);
    lemma_sent_split(opening, relays(chunks));
    lemma_sent_split(opening + relays(chunks), closing);
    assert(appended(opening) =~= Seq::<u8>::empty() && sent(opening) =~= ack_bytes(
        AckModel::Accepted,
    )) by {
        reveal_with_fuel(sent, 5);
        reveal_with_fuel(appended, 5);
        assert(opening.drop_last() =~= seq![opening[0], opening[1], opening[2]]);
        assert(opening.drop_last().drop_last() =~= seq![opening[0], opening[1]]);
        assert(opening.drop_last().drop_last().drop_last() =~= seq![opening[0]]);
        assert(opening.drop_last().drop_last().drop_last().drop_last()
            =~= Seq::<ActionModel>::empty());
    }
    assert(appended(closing) =~= Seq::<u8>::empty() && sent(closing) =~= Seq::<u8>::empty()) by {
        reveal_with_fuel(sent, 2);
        reveal_with_fuel(appended, 2);
        assert(closing.drop_last() =~= Seq::<ActionModel>::empty());
    }
    assert(Seq::<u8>::empty() + Seq::<u8>::empty() + Seq::<u8>::empty() =~= Seq::<u8>::empty());
    assert(ack_bytes(AckModel::Accepted) + joined(chunks) + Seq::<u8>::empty() =~= ack_bytes(
        AckModel::Accepted,
    ) + joined(chunks));
    let acts = opening + relays(chunks) + closing;
    assert forall|i: int| 0 <= i < acts.len() implies !(#[trigger] acts[i] is Enqueue) && !(
    acts[i] is CreateStaging) && !(acts[i] is Append) by {
        if i < opening.len() {
            assert(acts[i] == opening[i]);
        } else if i < opening.len() + relays(chunks).len() {
            assert(acts[i] == relays(chunks)[i - opening.len()]);
        } else {
            assert(acts[i] == closing[i - opening.len() - relays(chunks).len()]);
        }
    }
}

/// A download of a name that is not published is refused with
/// `file does not exist`, and no payload frame follows.
pub proof fn download_of_missing_name_is_refused(f: Seq<char>, later: Seq<EventModel>)
    ensures
        run(
            PhaseModel::AwaitingCommand,
            seq![
                EventModel::Frame(command_bytes(CommandModel::Get(f))),
                EventModel::Published(false),
            ] + later,
        ) == (
            PhaseModel::Closed,
            seq![
                ActionModel::CheckPublished(f),
                ActionModel::Send(ack_bytes(AckModel::Rejected(does_not_exist()))),
                ActionModel::Close,
            ],
        ),
{
    lemma_command_round_trip(CommandModel::Get(f));
    let head = seq![
        EventModel::Frame(command_bytes(CommandModel::Get(f))),
        EventModel::Published(false),
    ];
    lemma_run_pair(PhaseModel::AwaitingCommand, head[0], head[1]);
    assert(head =~= seq![head[0], head[1]]);
    lemma_run_split(PhaseModel::AwaitingCommand, head, later);
    lemma_run_closed(later);
    assert(seq![ActionModel::CheckPublished(f)] + seq![
        ActionModel::Send(ack_bytes(AckModel::Rejected(does_not_exist()))),
        ActionModel::Close,
    ] + Seq::<ActionModel>::empty() =~= seq![
        ActionModel::CheckPublished(f),
        ActionModel::Send(ack_bytes(AckModel::Rejected(does_not_exist()))),
        ActionModel::Close,
    ]);
}

/// The service's state for one accepted connection.
pub struct ConnectionHandler {
    phase: Phase,
}

impl View for ConnectionHandler {
    type V = PhaseModel;

    closed spec fn view(&self) -> PhaseModel {
        self.phase@
    }
}

fn closing() -> (r: Vec<Action>)
    ensures
        actions_view(r@) == seq![ActionModel::Close],
{
    let r = vec![Action::Close];
    assert(actions_view(r@) =~= seq![ActionModel::Close]);
    r
}

fn reject(message: String) -> (r: Vec<Action>)
    ensures
        actions_view(r@) == seq![
            ActionModel::Send(ack_bytes(AckModel::Rejected(message@))),
            ActionModel::Close,
        ],
{
    let reply = Acknowledgment::Rejected { message }.encode();
    let r = vec![Action::Send(reply), Action::Close];
    assert(actions_view(r@) =~= seq![
        ActionModel::Send(ack_bytes(AckModel::Rejected(message@))),
        ActionModel::Close,
    ]);
    r
}

impl ConnectionHandler {
    /// A freshly accepted connection, waiting for its command.
    pub fn new() -> (r: ConnectionHandler)
        ensures
            r@ == PhaseModel::AwaitingCommand,
    {
        ConnectionHandler { phase: Phase::AwaitingCommand }
    }

    /// Where the connection stands.
    pub fn phase(&self) -> (r: &Phase)
        ensures
            r@ == self@,
    {
        &self.phase
    }

    /// Whether nothing more happens on this connection.
    pub fn is_closed(&self) -> (r: bool)
        ensures
            r == (self@ == PhaseModel::Closed),
    {
        match self.phase {
            Phase::Closed => true,
            _ => false,
        }
    }

    /// Takes in what happened and returns what must be done next, in order.
    pub fn step(&mut self, event: Event) -> (r: Vec<Action>)
        ensures
            (final(self)@, actions_view(r@)) == next(old(self)@, event@),
    {
        let mut phase = Phase::Closed;
        core::mem::swap(&mut self.phase, &mut phase);
        match phase {
            Phase::AwaitingCommand => match event {
                Event::Frame(b) => match utf8_text(b.as_slice()) {
                    None => closing(),
                    Some(text) => match Command::parse(text) {
                        Err(err) => reject(err.message()),
                        Ok(Command::Upload { filename }) => {
                            let r = vec![Action::CheckPublished(filename.clone())];
                            self.phase = Phase::CheckingUpload { filename };
                            assert(actions_view(r@) =~= seq![ActionModel::CheckPublished(self@->CheckingUpload_0)]);
                            r
                        },
                        Ok(Command::Get { filename }) => {
                            let r = vec![Action::CheckPublished(filename.clone())];
                            self.phase = Phase::CheckingGet { filename };
                            assert(actions_view(r@) =~= seq![ActionModel::CheckPublished(self@->CheckingGet_0)]);
                            r
                        },
                    },
                },
                _ => closing(),
            },
            Phase::CheckingUpload { filename } => match event {
                Event::Published(true) => reject(String::from_str("file already exists")),
                Event::Published(false) => {
                    let r = vec![
                        Action::Send(Acknowledgment::Accepted.encode()),
                        Action::CreateStaging(filename.clone()),
                    ];
                    self.phase = Phase::Uploading { filename };
                    assert(actions_view(r@) =~= seq![
                        ActionModel::Send(ack_bytes(AckModel::Accepted)),
                        ActionModel::CreateStaging(self@->Uploading_0),
                    ]);
                    r
                },
                _ => closing(),
            },
            Phase::Uploading { filename } => match event {
                Event::Frame(b) => {
                    let ghost bv = b@;
                    let r = vec![Action::Append(b)];
                    self.phase = Phase::Uploading { filename };
                    assert(actions_view(r@) =~= seq![ActionModel::Append(bv)]);
                    r
                },
                Event::EndOfStream => {
                    let ghost f = filename@;
                    let r = vec![Action::Enqueue(filename), Action::Close];
                    assert(actions_view(r@) =~= seq![ActionModel::Enqueue(f), ActionModel::Close]);
                    r
                },
                _ => closing(),
            },
            Phase::CheckingGet { filename } => match event {
                Event::Published(true) => {
                    let r = vec![
                        Action::Send(Acknowledgment::Accepted.encode()),
                        Action::OpenPublished(filename.clone()),
                        Action::ReadChunk,
                    ];
                    self.phase = Phase::Downloading { filename };
                    assert(actions_view(r@) =~= seq![
                        ActionModel::Send(ack_bytes(AckModel::Accepted)),
                        ActionModel::OpenPublished(self@->Downloading_0),
                        ActionModel::ReadChunk,
                    ]);
                    r
                },
                Event::Published(false) => reject(String::from_str("file does not exist")),
                _ => closing(),
            },
            Phase::Downloading { filename } => match event {
                Event::Chunk(b) => {
                    if b.len() == 0 {
                        closing()
                    } else {
                        let ghost bv = b@;
                        let r = vec![Action::Send(b), Action::ReadChunk];
                        self.phase = Phase::Downloading { filename };
                        assert(actions_view(r@) =~= seq![ActionModel::Send(bv), ActionModel::ReadChunk]);
                        r
                    }
                },
                _ => closing(),
            },
            Phase::Closed => {
                let r: Vec<Action> = Vec::new();
                assert(actions_view(r@) =~= seq![]);
                r
            },
        }
    }
}

} // verus!
