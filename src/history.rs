//! The download history: a list of finished downloads, newest first, kept in
//! one stored document.

use vstd::prelude::*;
use crate::paths::{join_path, joined};
use crate::store::{StoreMachine, StoreOp, StorePaths, Loaded, StoreFailure, load_state, save_state, temp_path_of, backup_path_of, pending, run, lemma_save_then_load};

verus! {

/// One finished download.
#[derive(Debug, PartialEq)]
pub struct HistoryItem {
    pub id: String,
    pub title: String,
    pub url: String,
    pub resolution: String,
    pub file_path: String,
    /// The file's size in bytes.
    pub file_size: u64,
    /// When the download finished, in seconds since the epoch.
    pub downloaded_at: i64,
    /// Whether the file was there when the history was last loaded.
    pub file_exists: bool,
}

/// The file name of the history document.
pub const HISTORY_FILE: &'static str = "history.json";

/// The encoding of an empty history.
pub const EMPTY_HISTORY: &'static str = "[]";

/// The store of the history document in one directory.
pub struct HistoryService {
    history_path: String,
}

/// `item` with its existence flag set to `exists`.
pub open spec fn with_flag(item: HistoryItem, exists: bool) -> HistoryItem {
    HistoryItem { file_exists: exists, ..item }
}

impl HistoryService {
    /// The path of the history document.
    pub closed spec fn path(&self) -> Seq<char> {
        self.history_path@
    }

    /// The history store of directory `data_dir` (which the caller has
    /// created).
    pub fn new(data_dir: &str) -> (r: HistoryService)
        ensures
            r.path() == joined(data_dir@, HISTORY_FILE@),
    {
        HistoryService { history_path: join_path(data_dir, HISTORY_FILE) }
    }

    /// The path of the history document.
    pub fn history_path(&self) -> (r: &str)
        ensures
            r@ == self.path(),
    {
        self.history_path.as_str()
    }

    /// The document's path and its temporary and backup siblings.
    pub fn paths(&self) -> (r: StorePaths)
        ensures
            r.canonical@ == self.path(),
            r.temp@ == temp_path_of(self.path()),
            r.backup@ == backup_path_of(self.path()),
    {
        StorePaths::for_document(self.history_path.as_str())
    }

    /// Starts loading the history; an empty history is stored when there is
    /// no usable document.
    pub fn load(&self) -> (r: (StoreMachine, StoreOp))
        ensures
            r.0@ == load_state(
                self.path(),
                temp_path_of(self.path()),
                backup_path_of(self.path()),
                EMPTY_HISTORY@,
            ),
            r.1@ == pending(r.0@),
    {
        StoreMachine::start_load(&self.paths(), EMPTY_HISTORY.to_owned())
    }

    /// Starts saving `text`, the encoded list of items.
    pub fn save_all(&self, text: String) -> (r: (StoreMachine, StoreOp))
        ensures
            r.0@ == save_state(
                self.path(),
                temp_path_of(self.path()),
                backup_path_of(self.path()),
                text@,
            ),
            r.1@ == pending(r.0@),
    {
        StoreMachine::start_save(&self.paths(), text)
    }

    /// Starts clearing the history: an empty list is saved. The downloaded
    /// files are not touched.
    pub fn clear(&self) -> (r: (StoreMachine, StoreOp))
        ensures
            r.0@ == save_state(
                self.path(),
                temp_path_of(self.path()),
                backup_path_of(self.path()),
                EMPTY_HISTORY@,
            ),
            r.1@ == pending(r.0@),
    {
        StoreMachine::start_save(&self.paths(), EMPTY_HISTORY.to_owned())
    }

    /// The list to save when `item` is added to the loaded list `current`:
    /// the new item first, then the others in their order.
    pub fn save(&self, current: Vec<HistoryItem>, item: HistoryItem) -> (r: Vec<HistoryItem>)
        ensures
            r@ == seq![item] + current@,
    {
        let mut r = current;
        r.insert(0, item);
        assert(r@ =~= seq![item] + current@);
        r
    }
}

/// The loaded items with each existence flag replaced by what the file
/// system says now: `exists[i]` for item `i`.
pub fn refresh_existence(items: Vec<HistoryItem>, exists: &Vec<bool>) -> (r: Vec<HistoryItem>)
    requires
        exists@.len() == items@.len(),
    ensures
        r@.len() == items@.len(),
        forall|i: int| 0 <= i < items@.len() ==> r@[i] == with_flag(items@[i], exists@[i]),
{
    let n = items.len();
    let mut rest = items;
    let mut out: Vec<HistoryItem> = Vec::new();
    let mut i: usize = 0;
    while i < n
        invariant
            n == items@.len(),
            exists@.len() == n,
            i <= n,
            rest@ == items@.skip(i as int),
            out@.len() == i,
            forall|j: int| 0 <= j < i ==> out@[j] == with_flag(items@[j], exists@[j]),
        decreases n - i,
    {
        let mut it = rest.remove(0);
        assert(it == items@[i as int]);
        it.file_exists = exists[i];
        out.push(it);
        assert(rest@ =~= items@.skip(i + 1));
        i = i + 1;
    }
    out
}

/// Adding `item` to the loaded history `current`, saving the list (item
/// first, as [`HistoryService::save`] builds it) in the caller's encoding, and
/// loading again gives back for decoding exactly the text saved, which decodes
/// to that list; no temporary file is left. `encode` and `decode` stand for the
/// caller's encoding, which must decode what it encodes; `fs` is any starting
/// set of files, on a file system that never fails. The loaded items then get
/// their existence flags from [`refresh_existence`].
pub proof fn lemma_history_append_then_load(
    h: HistoryService,
    current: Seq<HistoryItem>,
    item: HistoryItem,
    encode: spec_fn(Seq<HistoryItem>) -> Seq<char>,
    decode: spec_fn(Seq<char>) -> Option<Seq<HistoryItem>>,
    fs: Map<Seq<char>, Seq<char>>,
)
    requires
        decode(encode(seq![item] + current)) == Some(seq![item] + current),
    ensures
        ({
            let list = seq![item] + current;
            let text = encode(list);
            let decodes = |t: Seq<char>| decode(t) is Some;
            let (p, t, b) = (h.path(), temp_path_of(h.path()), backup_path_of(h.path()));
            let s0 = save_state(p, t, b, text);
            let saved = run(s0, pending(s0), fs, decodes, None, 2);
            let l0 = load_state(p, t, b, EMPTY_HISTORY@);
            let loaded = run(l0, pending(l0), saved.files, decodes, None, 3);
            &&& saved.outcome == Some(Ok::<Loaded, StoreFailure>(Loaded::Saved))
            &&& !saved.files.contains_key(t)
            &&& loaded.outcome == Some(Ok::<Loaded, StoreFailure>(Loaded::Stored))
            &&& loaded.decoded == Some(text)
            &&& decode(loaded.decoded.unwrap()) == Some(list)
            &&& list[0] == item
            &&& list.skip(1) == current
        }),
{
    reveal_strlit(".tmp");
    reveal_strlit(".backup");
    let list = seq![item] + current;
    let p = h.path();
    assert(temp_path_of(p).len() == p.len() + 4);
    assert(backup_path_of(p).len() == p.len() + 7);
    lemma_save_then_load(
        p,
        temp_path_of(p),
        backup_path_of(p),
        encode(list),
        EMPTY_HISTORY@,
        fs,
        |t: Seq<char>| decode(t) is Some,
    );
    assert(list.skip(1) =~= current);
}

} // verus!
