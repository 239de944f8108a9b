//! The crash-safe store of one document under a file path.
//!
//! A save writes the document's text to a temporary sibling and then renames
//! it over the document's path: the rename is the one commit point, so the
//! path always holds a whole document. A load that finds no document stores
//! and returns the default; one that finds a document it cannot read or decode
//! first renames it aside to the backup sibling, so its bytes are kept.
//!
//! The store is a [`StoreMachine`]: each step answers the caller's report of
//! the last file operation with the next operation to perform. Encoding and
//! decoding of documents is the caller's.

use vstd::prelude::*;
use crate::error::AppError;
use crate::text::concat;

verus! {

/// Which document a store holds; it decides how failures are reported.
#[derive(Clone, Copy, PartialEq, Eq, Structural, Debug)]
pub enum DocumentKind {
    Config,
    History,
}

/// What a finished operation produced.
#[derive(Clone, Copy, PartialEq, Eq, Structural, Debug)]
pub enum Loaded {
    /// The stored document decoded: it is the result of the load.
    Stored,
    /// There was no usable document: the default was stored and is the result.
    Fresh,
    /// The document was saved.
    Saved,
}

/// The stage of a store operation.
#[derive(Clone, Copy, PartialEq, Eq, Structural, Debug)]
pub enum Phase {
    Probing,
    Reading,
    Decoding,
    Quarantining,
    Writing,
    Committing,
    CleaningUp,
    Over,
}

/// A failed save: whether the failure came at the commit (the rename) or
/// before it (writing the temporary file), and the cause.
pub struct StoreFailure {
    pub at_commit: bool,
    pub cause: Seq<char>,
}

/// A failed save, as returned to the caller.
#[derive(Debug)]
pub struct StoreError {
    pub at_commit: bool,
    pub cause: String,
}

impl View for StoreError {
    type V = StoreFailure;

    open spec fn view(&self) -> StoreFailure {
        StoreFailure { at_commit: self.at_commit, cause: self.cause@ }
    }
}

/// The file operation a store asks for next.
pub enum StoreOp {
    /// Report whether this path exists.
    CheckExists(String),
    /// Read this file's text (none when it cannot be read).
    Read(String),
    /// Report whether this text decodes to a document, and keep the document.
    Decode(String),
    /// Write the text (second) to the path (first).
    Write(String, String),
    /// Rename the first path to the second, replacing what is there.
    Rename(String, String),
    /// Remove this path; the outcome does not matter.
    Remove(String),
    /// The operation is over.
    Done(Result<Loaded, StoreError>),
}

/// A [`StoreOp`] as character sequences.
pub enum OpView {
    CheckExists(Seq<char>),
    Read(Seq<char>),
    Decode(Seq<char>),
    Write(Seq<char>, Seq<char>),
    Rename(Seq<char>, Seq<char>),
    Remove(Seq<char>),
    Done(Result<Loaded, StoreFailure>),
}

impl View for StoreOp {
    type V = OpView;

    open spec fn view(&self) -> OpView {
        match self {
            StoreOp::CheckExists(p) => OpView::CheckExists(p@),
            StoreOp::Read(p) => OpView::Read(p@),
            StoreOp::Decode(t) => OpView::Decode(t@),
            StoreOp::Write(p, t) => OpView::Write(p@, t@),
            StoreOp::Rename(a, b) => OpView::Rename(a@, b@),
            StoreOp::Remove(p) => OpView::Remove(p@),
            StoreOp::Done(Ok(l)) => OpView::Done(Ok(*l)),
            StoreOp::Done(Err(e)) => OpView::Done(Err(e@)),
        }
    }
}

/// The caller's report of the last file operation.
pub enum StoreReply {
    Exists(bool),
    Text(Option<String>),
    Decoded(bool),
    Wrote(Result<(), String>),
    Renamed(Result<(), String>),
    Removed,
}

/// A [`StoreReply`] as character sequences.
pub enum ReplyView {
    Exists(bool),
    Text(Option<Seq<char>>),
    Decoded(bool),
    Wrote(Result<(), Seq<char>>),
    Renamed(Result<(), Seq<char>>),
    Removed,
}

impl View for StoreReply {
    type V = ReplyView;

    open spec fn view(&self) -> ReplyView {
        match self {
            StoreReply::Exists(b) => ReplyView::Exists(*b),
            StoreReply::Text(Some(t)) => ReplyView::Text(Some(t@)),
            StoreReply::Text(None) => ReplyView::Text(None),
            StoreReply::Decoded(b) => ReplyView::Decoded(*b),
            StoreReply::Wrote(Ok(())) => ReplyView::Wrote(Ok(())),
            StoreReply::Wrote(Err(m)) => ReplyView::Wrote(Err(m@)),
            StoreReply::Renamed(Ok(())) => ReplyView::Renamed(Ok(())),
            StoreReply::Renamed(Err(m)) => ReplyView::Renamed(Err(m@)),
            StoreReply::Removed => ReplyView::Removed,
        }
    }
}

/// The state of a store operation.
pub struct StoreState {
    pub phase: Phase,
    pub canonical: Seq<char>,
    pub temp: Seq<char>,
    pub backup: Seq<char>,
    /// The text to store: the default for a load, the document for a save.
    pub text: Seq<char>,
    /// The text read from the document, while it is being decoded.
    pub held: Seq<char>,
    /// What a successful commit means.
    pub success: Loaded,
    /// The failure being reported once the temporary file is removed.
    pub failure: StoreFailure,
    /// The result, once over.
    pub result: Result<Loaded, StoreFailure>,
}

/// The operation that a state waits on.
pub open spec fn pending(s: StoreState) -> OpView {
    match s.phase {
        Phase::Probing => OpView::CheckExists(s.canonical),
        Phase::Reading => OpView::Read(s.canonical),
        Phase::Decoding => OpView::Decode(s.held),
        Phase::Quarantining => OpView::Rename(s.canonical, s.backup),
        Phase::Writing => OpView::Write(s.temp, s.text),
        Phase::Committing => OpView::Rename(s.temp, s.canonical),
        Phase::CleaningUp => OpView::Remove(s.temp),
        Phase::Over => OpView::Done(s.result),
    }
}

/// `s` moved to phase `p`.
pub open spec fn enter(s: StoreState, p: Phase) -> StoreState {
    StoreState { phase: p, ..s }
}

/// The next state and operation after reply `r`. A reply that does not
/// answer the pending operation leaves the state as it is.
pub open spec fn next(s: StoreState, r: ReplyView) -> (StoreState, OpView) {
    let moved = match (s.phase, r) {
        (Phase::Probing, ReplyView::Exists(true)) => Some(enter(s, Phase::Reading)),
        (Phase::Probing, ReplyView::Exists(false)) => Some(enter(s, Phase::Writing)),
        (Phase::Reading, ReplyView::Text(Some(t))) => Some(
            StoreState { phase: Phase::Decoding, held: t, ..s },
        ),
        (Phase::Reading, ReplyView::Text(None)) => Some(enter(s, Phase::Quarantining)),
        (Phase::Decoding, ReplyView::Decoded(true)) => Some(
            StoreState { phase: Phase::Over, result: Ok(Loaded::Stored), ..s },
        ),
        (Phase::Decoding, ReplyView::Decoded(false)) => Some(enter(s, Phase::Quarantining)),
        (Phase::Quarantining, ReplyView::Renamed(_)) => Some(enter(s, Phase::Writing)),
        (Phase::Writing, ReplyView::Wrote(Ok(()))) => Some(enter(s, Phase::Committing)),
        (Phase::Writing, ReplyView::Wrote(Err(m))) => Some(
            StoreState {
                phase: Phase::Over,
                result: Err(StoreFailure { at_commit: false, cause: m }),
                ..s
            },
        ),
        (Phase::Committing, ReplyView::Renamed(Ok(()))) => Some(
            StoreState { phase: Phase::Over, result: Ok(s.success), ..s },
        ),
        (Phase::Committing, ReplyView::Renamed(Err(m))) => Some(
            StoreState {
                phase: Phase::CleaningUp,
                failure: StoreFailure { at_commit: true, cause: m },
                ..s
            },
        ),
        (Phase::CleaningUp, ReplyView::Removed) => Some(
            StoreState { phase: Phase::Over, result: Err(s.failure), ..s },
        ),
        _ => None,
    };
    match moved {
        Some(t) => (t, pending(t)),
        None => (s, pending(s)),
    }
}

/// The state that starts a load with default text `default_text`.
pub open spec fn load_state(
    canonical: Seq<char>,
    temp: Seq<char>,
    backup: Seq<char>,
    default_text: Seq<char>,
) -> StoreState {
    StoreState {
        phase: Phase::Probing,
        canonical,
        temp,
        backup,
        text: default_text,
        held: Seq::empty(),
        success: Loaded::Fresh,
        failure: StoreFailure { at_commit: false, cause: Seq::empty() },
        result: Ok(Loaded::Fresh),
    }
}

/// The state that starts a save of `text`.
pub open spec fn save_state(
    canonical: Seq<char>,
    temp: Seq<char>,
    backup: Seq<char>,
    text: Seq<char>,
) -> StoreState {
    StoreState {
        phase: Phase::Writing,
        canonical,
        temp,
        backup,
        text,
        held: Seq::empty(),
        success: Loaded::Saved,
        failure: StoreFailure { at_commit: false, cause: Seq::empty() },
        result: Ok(Loaded::Saved),
    }
}

/// A store operation in progress.
pub struct StoreMachine {
    phase: Phase,
    canonical: String,
    temp: String,
    backup: String,
    text: String,
    held: String,
    success: Loaded,
    failure: StoreError,
    result: Result<Loaded, StoreError>,
}

impl View for StoreMachine {
    type V = StoreState;

    closed spec fn view(&self) -> StoreState {
        StoreState {
            phase: self.phase,
            canonical: self.canonical@,
            temp: self.temp@,
            backup: self.backup@,
            text: self.text@,
            held: self.held@,
            success: self.success,
            failure: self.failure@,
            result: match self.result {
                Ok(l) => Ok(l),
                Err(e) => Err(e@),
            },
        }
    }
}

impl StoreMachine {
    fn pending_op(&self) -> (op: StoreOp)
        ensures
            op@ == pending(self@),
    {
        match self.phase {
            Phase::Probing => StoreOp::CheckExists(self.canonical.clone()),
            Phase::Reading => StoreOp::Read(self.canonical.clone()),
            Phase::Decoding => StoreOp::Decode(self.held.clone()),
            Phase::Quarantining => StoreOp::Rename(self.canonical.clone(), self.backup.clone()),
            Phase::Writing => StoreOp::Write(self.temp.clone(), self.text.clone()),
            Phase::Committing => StoreOp::Rename(self.temp.clone(), self.canonical.clone()),
            Phase::CleaningUp => StoreOp::Remove(self.temp.clone()),
            Phase::Over => StoreOp::Done(
                match &self.result {
                    Ok(l) => Ok(*l),
                    Err(e) => Err(e.duplicate()),
                },
            ),
        }
    }

    fn starting(paths: &StorePaths, text: String, phase: Phase, success: Loaded) -> (r: (
        StoreMachine,
        StoreOp,
    ))
        ensures
            r.0@ == (StoreState {
                phase,
                canonical: paths.canonical@,
                temp: paths.temp@,
                backup: paths.backup@,
                text: text@,
                held: Seq::empty(),
                success,
                failure: StoreFailure { at_commit: false, cause: Seq::empty() },
                result: Ok(success),
            }),
            r.1@ == pending(r.0@),
    {
        let m = StoreMachine {
            phase,
            canonical: paths.canonical.clone(),
            temp: paths.temp.clone(),
            backup: paths.backup.clone(),
            text,
            held: String::new(),
            success,
            failure: StoreError { at_commit: false, cause: String::new() },
            result: Ok(success),
        };
        let op = m.pending_op();
        (m, op)
    }

    /// Starts a load of the document at `paths`, with `default_text` as the
    /// text of the default document.
    pub fn start_load(paths: &StorePaths, default_text: String) -> (r: (StoreMachine, StoreOp))
        ensures
            r.0@ == load_state(paths.canonical@, paths.temp@, paths.backup@, default_text@),
            r.1@ == pending(r.0@),
    {
        StoreMachine::starting(paths, default_text, Phase::Probing, Loaded::Fresh)
    }

    /// Starts a save of `text` as the document at `paths`.
    pub fn start_save(paths: &StorePaths, text: String) -> (r: (StoreMachine, StoreOp))
        ensures
            r.0@ == save_state(paths.canonical@, paths.temp@, paths.backup@, text@),
            r.1@ == pending(r.0@),
    {
        StoreMachine::starting(paths, text, Phase::Writing, Loaded::Saved)
    }

    /// Takes the report of the last operation and returns the next one.
    pub fn step(&mut self, reply: StoreReply) -> (op: StoreOp)
        ensures
            (final(self)@, op@) == next(old(self)@, reply@),
    {
        let moved = match (self.phase, reply) {
            (Phase::Probing, StoreReply::Exists(true)) => {
                self.phase = Phase::Reading;
                true
            },
            (Phase::Probing, StoreReply::Exists(false)) => {
                self.phase = Phase::Writing;
                true
            },
            (Phase::Reading, StoreReply::Text(Some(t))) => {
                self.phase = Phase::Decoding;
                self.held = t;
                true
            },
            (Phase::Reading, StoreReply::Text(None)) => {
                self.phase = Phase::Quarantining;
                true
            },
            (Phase::Decoding, StoreReply::Decoded(true)) => {
                self.phase = Phase::Over;
                self.result = Ok(Loaded::Stored);
                true
            },
            (Phase::Decoding, StoreReply::Decoded(false)) => {
                self.phase = Phase::Quarantining;
                true
            },
            (Phase::Quarantining, StoreReply::Renamed(_)) => {
                self.phase = Phase::Writing;
                true
            },
            (Phase::Writing, StoreReply::Wrote(Ok(()))) => {
                self.phase = Phase::Committing;
                true
            },
            (Phase::Writing, StoreReply::Wrote(Err(m))) => {
                self.phase = Phase::Over;
                self.result = Err(StoreError { at_commit: false, cause: m });
                true
            },
            (Phase::Committing, StoreReply::Renamed(Ok(()))) => {
                self.phase = Phase::Over;
                self.result = Ok(self.success);
                true
            },
            (Phase::Committing, StoreReply::Renamed(Err(m))) => {
                self.phase = Phase::CleaningUp;
                self.failure = StoreError { at_commit: true, cause: m };
                true
            },
            (Phase::CleaningUp, StoreReply::Removed) => {
                self.phase = Phase::Over;
                self.result = Err(self.failure.duplicate());
                true
            },
            _ => false,
        };
        self.pending_op()
    }
}

/// The paths of one stored document: the document itself, the temporary
/// sibling a save writes first, and the backup sibling a corrupt document is
/// moved to.
pub struct StorePaths {
    pub canonical: String,
    pub temp: String,
    pub backup: String,
}

/// The temporary sibling of a document path.
pub open spec fn temp_path_of(path: Seq<char>) -> Seq<char> {
    path + ".tmp"@
}

/// The backup sibling of a document path.
pub open spec fn backup_path_of(path: Seq<char>) -> Seq<char> {
    path + ".backup"@
}

impl StorePaths {
    /// The paths of the document stored at `path`.
    pub fn for_document(path: &str) -> (r: StorePaths)
        ensures
            r.canonical@ == path@,
            r.temp@ == temp_path_of(path@),
            r.backup@ == backup_path_of(path@),
    {
        StorePaths {
            canonical: path.to_owned(),
            temp: concat(path, ".tmp"),
            backup: concat(path, ".backup"),
        }
    }
}

/// The error reported for a failed save of a document of kind `kind`.
pub open spec fn error_matches(e: AppError, kind: DocumentKind, f: StoreFailure) -> bool {
    match kind {
        DocumentKind::Config => e matches AppError::ConfigError(m) && m@ == (if f.at_commit {
            "无法保存配置文件: "@
        } else {
            "无法写入临时配置文件: "@
        }) + f.cause,
        DocumentKind::History => e matches AppError::FileSystemError(m) && m@ == f.cause,
    }
}

impl StoreError {
    /// A copy of this failure.
    pub fn duplicate(&self) -> (r: StoreError)
        ensures
            r@ == self@,
    {
        StoreError { at_commit: self.at_commit, cause: self.cause.clone() }
    }

    /// The error to report for this failure in a store of kind `kind`.
    pub fn to_app_error(&self, kind: DocumentKind) -> (r: AppError)
        ensures
            error_matches(r, kind, self@),
    {
        match kind {
            DocumentKind::Config => {
                let prefix = if self.at_commit {
                    "无法保存配置文件: "
                } else {
                    "无法写入临时配置文件: "
                };
                AppError::ConfigError(concat(prefix, self.cause.as_str()))
            },
            DocumentKind::History => AppError::FileSystemError(self.cause.clone()),
        }
    }
}

/// What a file system that never fails does for an operation, on files
/// `fs` (path to contents); `decodes` says which texts decode to a document.
pub open spec fn perform(
    fs: Map<Seq<char>, Seq<char>>,
    op: OpView,
    decodes: spec_fn(Seq<char>) -> bool,
) -> (Map<Seq<char>, Seq<char>>, ReplyView) {
    match op {
        OpView::CheckExists(p) => (fs, ReplyView::Exists(fs.contains_key(p))),
        OpView::Read(p) => (
            fs,
            ReplyView::Text(
                if fs.contains_key(p) {
                    Some(fs[p])
                } else {
                    None
                },
            ),
        ),
        OpView::Decode(t) => (fs, ReplyView::Decoded(decodes(t))),
        OpView::Write(p, t) => (fs.insert(p, t), ReplyView::Wrote(Ok(()))),
        OpView::Rename(a, b) => if fs.contains_key(a) {
            (fs.remove(a).insert(b, fs[a]), ReplyView::Renamed(Ok(())))
        } else {
            (fs, ReplyView::Renamed(Err(Seq::empty())))
        },
        OpView::Remove(p) => (fs.remove(p), ReplyView::Removed),
        OpView::Done(_) => (fs, ReplyView::Removed),
    }
}

/// Where a store operation run against a never-failing file system ends.
pub struct RunEnd {
    /// The result, if the operation ended within the steps allowed.
    pub outcome: Option<Result<Loaded, StoreFailure>>,
    /// The files afterwards.
    pub files: Map<Seq<char>, Seq<char>>,
    /// The last text handed out for decoding.
    pub decoded: Option<Seq<char>>,
}

/// Runs a store operation from state `s` with pending operation `op` for at
/// most `fuel` steps against a never-failing file system holding `fs`.
pub open spec fn run(
    s: StoreState,
    op: OpView,
    fs: Map<Seq<char>, Seq<char>>,
    decodes: spec_fn(Seq<char>) -> bool,
    decoded: Option<Seq<char>>,
    fuel: nat,
) -> RunEnd
    decreases fuel,
{
    match op {
        OpView::Done(r) => RunEnd { outcome: Some(r), files: fs, decoded },
        _ => if fuel == 0 {
            RunEnd { outcome: None, files: fs, decoded }
        } else {
            let (fs2, reply) = perform(fs, op, decodes);
            let decoded2 = match op {
                OpView::Decode(t) => Some(t),
                _ => decoded,
            };
            let (s2, op2) = next(s, reply);
            run(s2, op2, fs2, decodes, decoded2, (fuel - 1) as nat)
        },
    }
}

/// A save followed by a load gives back the saved text for decoding, from any
/// starting files, and leaves no temporary file behind. (So repeated saves and
/// loads always give back the last text saved.)
pub proof fn lemma_save_then_load(
    canonical: Seq<char>,
    temp: Seq<char>,
    backup: Seq<char>,
    text: Seq<char>,
    default_text: Seq<char>,
    fs: Map<Seq<char>, Seq<char>>,
    decodes: spec_fn(Seq<char>) -> bool,
)
    requires
        canonical != temp,
        canonical != backup,
        temp != backup,
        decodes(text),
    ensures
        ({
            let s0 = save_state(canonical, temp, backup, text);
            let saved = run(s0, pending(s0), fs, decodes, None, 2);
            let l0 = load_state(canonical, temp, backup, default_text);
            let loaded = run(l0, pending(l0), saved.files, decodes, None, 3);
            &&& saved.outcome == Some(Ok::<Loaded, StoreFailure>(Loaded::Saved))
            &&& saved.files.contains_key(canonical)
            &&& saved.files[canonical] == text
            &&& !saved.files.contains_key(temp)
            &&& loaded.outcome == Some(Ok::<Loaded, StoreFailure>(Loaded::Stored))
            &&& loaded.decoded == Some(text)
            &&& loaded.files == saved.files
        }),
{
    let s0 = save_state(canonical, temp, backup, text);
    let fs1 = fs.insert(temp, text);
    let (s1, op1) = next(s0, ReplyView::Wrote(Ok(())));
    assert(run(s0, pending(s0), fs, decodes, None, 2) == run(s1, op1, fs1, decodes, None, 1));
    let fs2 = fs1.remove(temp).insert(canonical, text);
    let (s2, op2) = next(s1, ReplyView::Renamed(Ok(())));
    assert(run(s1, op1, fs1, decodes, None, 1) == run(s2, op2, fs2, decodes, None, 0));
    let saved = run(s0, pending(s0), fs, decodes, None, 2);
    assert(saved.files == fs2);
    let l0 = load_state(canonical, temp, backup, default_text);
    let (l1, o1) = next(l0, ReplyView::Exists(true));
    assert(run(l0, pending(l0), fs2, decodes, None, 3) == run(l1, o1, fs2, decodes, None, 2));
    let (l2, o2) = next(l1, ReplyView::Text(Some(text)));
    assert(run(l1, o1, fs2, decodes, None, 2) == run(l2, o2, fs2, decodes, None, 1));
    let (l3, o3) = next(l2, ReplyView::Decoded(true));
    assert(run(l2, o2, fs2, decodes, None, 1) == run(l3, o3, fs2, decodes, Some(text), 0));
}

/// Loading a document that does not decode moves its bytes, unchanged, to the
/// backup path, stores the default text in its place, and returns the default;
/// no temporary file is left behind.
pub proof fn lemma_corrupt_document_is_set_aside(
    canonical: Seq<char>,
    temp: Seq<char>,
    backup: Seq<char>,
    bad: Seq<char>,
    default_text: Seq<char>,
    fs: Map<Seq<char>, Seq<char>>,
    decodes: spec_fn(Seq<char>) -> bool,
)
    requires
        canonical != temp,
        canonical != backup,
        temp != backup,
        fs.contains_key(canonical),
        fs[canonical] == bad,
        !decodes(bad),
        !fs.contains_key(temp),
    ensures
        ({
            let l0 = load_state(canonical, temp, backup, default_text);
            let r = run(l0, pending(l0), fs, decodes, None, 6);
            &&& r.outcome == Some(Ok::<Loaded, StoreFailure>(Loaded::Fresh))
            &&& r.files.contains_key(backup)
            &&& r.files[backup] == bad
            &&& r.files.contains_key(canonical)
            &&& r.files[canonical] == default_text
            &&& !r.files.contains_key(temp)
        }),
{
    let l0 = load_state(canonical, temp, backup, default_text);
    let (l1, o1) = next(l0, ReplyView::Exists(true));
    assert(run(l0, pending(l0), fs, decodes, None, 6) == run(l1, o1, fs, decodes, None, 5));
    let (l2, o2) = next(l1, ReplyView::Text(Some(bad)));
    assert(run(l1, o1, fs, decodes, None, 5) == run(l2, o2, fs, decodes, None, 4));
    let (l3, o3) = next(l2, ReplyView::Decoded(false));
    assert(run(l2, o2, fs, decodes, None, 4) == run(l3, o3, fs, decodes, Some(bad), 3));
    let fs1 = fs.remove(canonical).insert(backup, bad);
    let (l4, o4) = next(l3, ReplyView::Renamed(Ok(())));
    assert(run(l3, o3, fs, decodes, Some(bad), 3) == run(l4, o4, fs1, decodes, Some(bad), 2));
    let fs2 = fs1.insert(temp, default_text);
    let (l5, o5) = next(l4, ReplyView::Wrote(Ok(())));
    assert(run(l4, o4, fs1, decodes, Some(bad), 2) == run(l5, o5, fs2, decodes, Some(bad), 1));
    let fs3 = fs2.remove(temp).insert(canonical, default_text);
    let (l6, o6) = next(l5, ReplyView::Renamed(Ok(())));
    assert(run(l5, o5, fs2, decodes, Some(bad), 1) == run(l6, o6, fs3, decodes, Some(bad), 0));
    assert(fs3.contains_key(backup) && fs3[backup] == bad);
}

/// When the commit (renaming the temporary file over the document) fails, the
/// store asks only for the temporary file to be removed and then reports the
/// failure: the document's path is not touched again.
pub proof fn lemma_failed_commit_removes_temporary(s: StoreState, cause: Seq<char>)
    requires
        s.phase == Phase::Committing,
    ensures
        ({
            let (s1, op1) = next(s, ReplyView::Renamed(Err(cause)));
            let (s2, op2) = next(s1, ReplyView::Removed);
            &&& op1 == OpView::Remove(s.temp)
            &&& op2 == OpView::Done(
                Err::<Loaded, StoreFailure>(StoreFailure { at_commit: true, cause }),
            )
            &&& forall|r: ReplyView| #[trigger] next(s2, r) == (s2, op2)
        }),
{
}

} // verus!
