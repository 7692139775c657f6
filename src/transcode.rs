//! Where files live, and the single worker that turns staged uploads into
//! published files, one job at a time.

use vstd::prelude::*;
use vstd::string::*;

verus! {

/// `filename` under directory `root`.
pub open spec fn path_in(root: Seq<char>, filename: Seq<char>) -> Seq<char> {
    root + seq!['/'] + filename
}

/// The two directories of the service, both keyed by flat filename.
#[derive(Debug, PartialEq, Eq)]
pub struct Storage {
    /// Uploads land here, before they are transcoded.
    pub staging_root: String,
    /// Finished files are read from here.
    pub published_root: String,
}

fn join_path(root: &String, filename: &str) -> (r: String)
    ensures
        r@ == path_in(root@, filename@),
{
    proof {
        reveal_strlit("/");
    }
    root.clone().concat("/").concat(filename)
}

impl Storage {
    /// The directories that the service uses when run from its own directory.
    pub fn default_roots() -> (r: Storage)
        ensures
            r.staging_root@ == "./tmp"@,
            r.published_root@ == "./dist"@,
    {
        Storage {
            staging_root: String::from_str("./tmp"),
            published_root: String::from_str("./dist"),
        }
    }

    /// Where an upload of `filename` is staged.
    pub fn staging_path(&self, filename: &str) -> (r: String)
        ensures
            r@ == path_in(self.staging_root@, filename@),
    {
        join_path(&self.staging_root, filename)
    }

    /// Where `filename` is published.
    pub fn published_path(&self, filename: &str) -> (r: String)
        ensures
            r@ == path_in(self.published_root@, filename@),
    {
        join_path(&self.published_root, filename)
    }
}

/// The external tool that transcodes.
pub open spec fn transcoder() -> Seq<char> {
    "ffmpeg"@
}

/// The arguments that transcode `source` into `dest` at 30 frames per
/// second and 960x540 pixels.
pub open spec fn transcode_args(source: Seq<char>, dest: Seq<char>) -> Seq<Seq<char>> {
    seq!["-i"@, source, "-r"@, "30"@, "-s"@, "960x540"@, dest]
}

/// The views of a list of strings.
pub open spec fn strings_view(v: Seq<String>) -> Seq<Seq<char>> {
    v.map_values(|s: String| s@)
}

/// The argument list of the transcoder for one job.
pub fn transcode_command(source: &str, dest: &str) -> (r: Vec<String>)
    ensures
        strings_view(r@) == transcode_args(source@, dest@),
{
    let r = vec![
        String::from_str("-i"),
        source.to_owned(),
        String::from_str("-r"),
        String::from_str("30"),
        String::from_str("-s"),
        String::from_str("960x540"),
        dest.to_owned(),
    ];
    assert(strings_view(r@) =~= transcode_args(source@, dest@));
    r
}

/// Where the worker stands.
#[derive(Debug, PartialEq, Eq)]
pub enum WorkerPhase {
    /// Waiting for the next job from the queue.
    Waiting,
    /// The transcoder runs on this job.
    Transcoding { filename: String },
    /// The job is published; its staging copy is being deleted.
    Removing { filename: String },
    /// The worker takes no more jobs.
    Stopped,
}

/// What the worker learns next.
#[derive(Debug, PartialEq, Eq)]
pub enum WorkerEvent {
    /// The next job, or `None` once the queue is closed and empty.
    Dequeued(Option<String>),
    /// The transcoder is done: `true` when it started and exited with success.
    Transcoded(bool),
    /// Whether the staging copy was deleted.
    Removed(bool),
}

/// What the worker asks of its runtime.
#[derive(Debug, PartialEq, Eq)]
pub enum WorkerAction {
    /// Run `program` with `args` and wait for it; answer with `Transcoded`.
    Run { program: String, args: Vec<String> },
    /// Delete the staging copy at this path; answer with `Removed`.
    RemoveStaging(String),
    /// Take the next job from the queue; answer with `Dequeued`.
    AwaitJob,
    /// Stop: no job is taken any more.
    Halt,
}

/// A worker phase, with its filename as text.
pub enum WorkerPhaseModel {
    Waiting,
    Transcoding(Seq<char>),
    Removing(Seq<char>),
    Stopped,
}

/// A worker event, with its filename as text.
pub enum WorkerEventModel {
    Dequeued(Option<Seq<char>>),
    Transcoded(bool),
    Removed(bool),
}

/// A worker action: program and arguments, or a path, as text.
pub enum WorkerActionModel {
    Run(Seq<char>, Seq<Seq<char>>),
    RemoveStaging(Seq<char>),
    AwaitJob,
    Halt,
}

impl View for WorkerPhase {
    type V = WorkerPhaseModel;

    open spec fn view(&self) -> WorkerPhaseModel {
        match self {
            WorkerPhase::Waiting => WorkerPhaseModel::Waiting,
            WorkerPhase::Transcoding { filename } => WorkerPhaseModel::Transcoding(filename@),
            WorkerPhase::Removing { filename } => WorkerPhaseModel::Removing(filename@),
            WorkerPhase::Stopped => WorkerPhaseModel::Stopped,
        }
    }
}

impl View for WorkerEvent {
    type V = WorkerEventModel;

    open spec fn view(&self) -> WorkerEventModel {
        match self {
            WorkerEvent::Dequeued(Some(f)) => WorkerEventModel::Dequeued(Some(f@)),
            WorkerEvent::Dequeued(None) => WorkerEventModel::Dequeued(None),
            WorkerEvent::Transcoded(ok) => WorkerEventModel::Transcoded(*ok),
            WorkerEvent::Removed(ok) => WorkerEventModel::Removed(*ok),
        }
    }
}

impl View for WorkerAction {
    type V = WorkerActionModel;

    open spec fn view(&self) -> WorkerActionModel {
        match self {
            WorkerAction::Run { program, args } => WorkerActionModel::Run(
                program@,
                strings_view(args@),
            ),
            WorkerAction::RemoveStaging(p) => WorkerActionModel::RemoveStaging(p@),
            WorkerAction::AwaitJob => WorkerActionModel::AwaitJob,
            WorkerAction::Halt => WorkerActionModel::Halt,
        }
    }
}

/// The worker's next phase, and what it asks for, when `e` arrives in phase
/// `p`, with staging root `staging` and published root `published`. Any
/// failure stops the worker for good.
pub open spec fn worker_next(
    staging: Seq<char>,
    published: Seq<char>,
    p: WorkerPhaseModel,
    e: WorkerEventModel,
) -> (WorkerPhaseModel, WorkerActionModel) {
    let halt = (WorkerPhaseModel::Stopped, WorkerActionModel::Halt);
    match (p, e) {
        (WorkerPhaseModel::Waiting, WorkerEventModel::Dequeued(Some(f))) => (
            WorkerPhaseModel::Transcoding(f),
            WorkerActionModel::Run(
                transcoder(),
                transcode_args(path_in(staging, f), path_in(published, f)),
            ),
        ),
        (WorkerPhaseModel::Transcoding(f), WorkerEventModel::Transcoded(true)) => (
            WorkerPhaseModel::Removing(f),
            WorkerActionModel::RemoveStaging(path_in(staging, f)),
        ),
        (WorkerPhaseModel::Removing(f), WorkerEventModel::Removed(true)) => (
            WorkerPhaseModel::Waiting,
            WorkerActionModel::AwaitJob,
        ),
        _ => halt,
    }
}

/// The one consumer of the transcode queue.
pub struct TranscodeWorker {
    storage: Storage,
    phase: WorkerPhase,
}

impl TranscodeWorker {
    pub closed spec fn staging_root(&self) -> Seq<char> {
        self.storage.staging_root@
    }

    pub closed spec fn published_root(&self) -> Seq<char> {
        self.storage.published_root@
    }

    pub closed spec fn phase_model(&self) -> WorkerPhaseModel {
        self.phase@
    }

    /// A worker over `storage`, waiting for its first job.
    pub fn new(storage: Storage) -> (r: TranscodeWorker)
        ensures
            r.staging_root() == storage.staging_root@,
            r.published_root() == storage.published_root@,
            r.phase_model() == WorkerPhaseModel::Waiting,
    {
        TranscodeWorker { storage, phase: WorkerPhase::Waiting }
    }

    /// Whether the worker takes no more jobs.
    pub fn is_stopped(&self) -> (r: bool)
        ensures
            r == (self.phase_model() == WorkerPhaseModel::Stopped),
    {
        match self.phase {
            WorkerPhase::Stopped => true,
            _ => false,
        }
    }

    /// Takes in what happened and returns what must be done next.
    pub fn step(&mut self, event: WorkerEvent) -> (r: WorkerAction)
        ensures
            final(self).staging_root() == old(self).staging_root(),
            final(self).published_root() == old(self).published_root(),
            (final(self).phase_model(), r@) == worker_next(
                old(self).staging_root(),
                old(self).published_root(),
                old(self).phase_model(),
                event@,
            ),
    {
        let mut phase = WorkerPhase::Stopped;
        core::mem::swap(&mut self.phase, &mut phase);
        match (phase, event) {
            (WorkerPhase::Waiting, WorkerEvent::Dequeued(Some(filename))) => {
                let source = self.storage.staging_path(filename.as_str());
                let dest = self.storage.published_path(filename.as_str());
                let args = transcode_command(source.as_str(), dest.as_str());
                self.phase = WorkerPhase::Transcoding { filename };
                WorkerAction::Run { program: String::from_str("ffmpeg"), args }
            },
            (WorkerPhase::Transcoding { filename }, WorkerEvent::Transcoded(true)) => {
                let source = self.storage.staging_path(filename.as_str());
                self.phase = WorkerPhase::Removing { filename };
                WorkerAction::RemoveStaging(source)
            },
            (WorkerPhase::Removing { .. }, WorkerEvent::Removed(true)) => {
                self.phase = WorkerPhase::Waiting;
                WorkerAction::AwaitJob
            },
            _ => WorkerAction::Halt,
        }
    }
}

} // verus!
