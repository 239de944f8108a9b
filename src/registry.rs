//! The registry of running download tasks: which task identifiers are live,
//! and the handle of each one's process.
//!
//! Every lookup-and-remove is a single call on the registry, so of a natural
//! completion and a cancellation of the same task exactly one finds it. The
//! registry is generic over the handle type; the caller keeps it behind one
//! lock.

use vstd::prelude::*;
use crate::error::{AppError, message_of};

verus! {

/// The map from task identifiers to handles that a list of entries stands for.
pub open spec fn entries_map<H>(s: Seq<(String, H)>) -> Map<Seq<char>, H>
    decreases s.len(),
{
    if s.len() == 0 {
        Map::empty()
    } else {
        entries_map(s.drop_last()).insert(s.last().0@, s.last().1)
    }
}

/// Whether no two entries share a task identifier.
pub open spec fn keys_unique<H>(s: Seq<(String, H)>) -> bool {
    forall|i: int, j: int| 0 <= i < j < s.len() ==> s[i].0@ != s[j].0@
}

/// What a finished task reports to its caller.
pub enum TaskNotice {
    /// The download finished; the file and its size in bytes.
    Complete { task_id: String, file_path: String, file_size: u64 },
    /// The download failed; the message for the user.
    Failed { task_id: String, message: String },
}

/// The notice for a task that ended with `outcome`, whose output file has
/// `file_size` bytes when that could be read.
pub open spec fn notice_matches(
    n: TaskNotice,
    task_id: Seq<char>,
    outcome: Result<String, AppError>,
    file_size: Option<u64>,
) -> bool {
    match outcome {
        Ok(path) => n matches TaskNotice::Complete { task_id: t, file_path: p, file_size: z } && t@
            == task_id && p@ == path@ && z == match file_size {
            Some(k) => k,
            None => 0,
        },
        Err(e) => n matches TaskNotice::Failed { task_id: t, message: m } && t@ == task_id && m@
            == message_of(e),
    }
}

/// The live tasks and their process handles.
pub struct TaskRegistry<H> {
    entries: Vec<(String, H)>,
}

proof fn lemma_entries_map_contains<H>(s: Seq<(String, H)>, k: Seq<char>)
    requires
        keys_unique(s),
    ensures
        entries_map(s).contains_key(k) <==> exists|i: int| 0 <= i < s.len() && s[i].0@ == k,
        forall|i: int| 0 <= i < s.len() ==> #[trigger] entries_map(s)[s[i].0@] == s[i].1,
    decreases s.len(),
{
    if s.len() > 0 {
        let p = s.drop_last();
        assert(keys_unique(p));
        lemma_entries_map_contains(p, k);
        assert forall|i: int| 0 <= i < s.len() implies #[trigger] entries_map(s)[s[i].0@]
            == s[i].1 by {
            if i < s.len() - 1 {
                assert(p[i] == s[i]);
                assert(s[i].0@ != s.last().0@);
            }
        }
        if entries_map(s).contains_key(k) && k != s.last().0@ {
            let i = choose|i: int| 0 <= i < p.len() && p[i].0@ == k;
            assert(s[i] == p[i]);
        }
        if exists|i: int| 0 <= i < s.len() && s[i].0@ == k {
            let i = choose|i: int| 0 <= i < s.len() && s[i].0@ == k;
            if i < s.len() - 1 {
                assert(p[i] == s[i]);
            }
        }
    }
}

proof fn lemma_entries_map_remove<H>(s: Seq<(String, H)>, i: int)
    requires
        keys_unique(s),
        0 <= i < s.len(),
    ensures
        keys_unique(s.remove(i)),
        entries_map(s.remove(i)) == entries_map(s).remove(s[i].0@),
    decreases s.len(),
{
    let r = s.remove(i);
    assert(keys_unique(r)) by {
        assert forall|a: int, b: int| 0 <= a < b < r.len() implies r[a].0@ != r[b].0@ by {
            let a2 = if a < i { a } else { a + 1 };
            let b2 = if b < i { b } else { b + 1 };
            assert(r[a] == s[a2] && r[b] == s[b2]);
        }
    }
    if i == s.len() - 1 {
        assert(r =~= s.drop_last());
        lemma_entries_map_contains(s.drop_last(), s[i].0@);
        assert(keys_unique(s.drop_last()));
        assert(!entries_map(s.drop_last()).contains_key(s[i].0@)) by {
            if entries_map(s.drop_last()).contains_key(s[i].0@) {
                let j = choose|j: int| 0 <= j < s.drop_last().len() && s.drop_last()[j].0@ == s[i].0@;
                assert(s[j] == s.drop_last()[j]);
            }
        }
        assert(entries_map(r) =~= entries_map(s).remove(s[i].0@));
    } else {
        let p = s.drop_last();
        assert(keys_unique(p));
        lemma_entries_map_remove(p, i);
        assert(r.drop_last() =~= p.remove(i));
        assert(r.last() == s.last());
        assert(s[i] == p[i]);
        assert(s[i].0@ != s.last().0@);
        assert(entries_map(r) =~= entries_map(s).remove(s[i].0@));
    }
}

impl<H> TaskRegistry<H> {
    /// The live tasks, by identifier.
    pub closed spec fn view(&self) -> Map<Seq<char>, H> {
        entries_map(self.entries@)
    }

    /// The registry's invariant: one entry per task identifier.
    pub closed spec fn wf(&self) -> bool {
        keys_unique(self.entries@)
    }

    /// An empty registry.
    pub fn new() -> (r: TaskRegistry<H>)
        ensures
            r.wf(),
            r.view() == Map::<Seq<char>, H>::empty(),
    {
        TaskRegistry { entries: Vec::new() }
    }

    fn find(&self, task_id: &str) -> (r: Option<usize>)
        requires
            self.wf(),
        ensures
            r matches Some(i) ==> i < self.entries@.len() && self.entries@[i as int].0@ == task_id@,
            r is None ==> !self.view().contains_key(task_id@),
    {
        let mut i: usize = 0;
        while i < self.entries.len()
            invariant
                i <= self.entries@.len(),
                forall|j: int| 0 <= j < i ==> self.entries@[j].0@ != task_id@,
            decreases self.entries.len() - i,
        {
            if crate::text::same_text(self.entries[i].0.as_str(), task_id) {
                return Some(i);
            }
            i = i + 1;
        }
        proof {
            lemma_entries_map_contains(self.entries@, task_id@);
        }
        None
    }

    /// Whether a task with this identifier is live.
    pub fn contains(&self, task_id: &str) -> (r: bool)
        requires
            self.wf(),
        ensures
            r == self.view().contains_key(task_id@),
    {
        let found = self.find(task_id);
        proof {
            lemma_entries_map_contains(self.entries@, task_id@);
        }
        found.is_some()
    }

    /// The number of live tasks.
    pub fn len(&self) -> (r: usize)
        requires
            self.wf(),
        ensures
            r == self.view().len(),
    {
        proof {
            lemma_entries_map_len(self.entries@);
        }
        self.entries.len()
    }

    /// Registers the process handle of a newly started task. A task whose
    /// identifier is already live is refused, and its handle is given back.
    pub fn start(&mut self, task_id: String, handle: H) -> (r: Result<(), (AppError, H)>)
        requires
            old(self).wf(),
        ensures
            final(self).wf(),
            old(self).view().contains_key(task_id@) ==> (final(self).view() == old(self).view()
                && r == Err::<(), (AppError, H)>((AppError::TaskAlreadyRunning(task_id), handle))),
            !old(self).view().contains_key(task_id@) ==> r is Ok && final(self).view()
                == old(self).view().insert(task_id@, handle),
    {
        if self.contains(task_id.as_str()) {
            return Err((AppError::TaskAlreadyRunning(task_id), handle));
        }
        let ghost before = self.entries@;
        let ghost key = task_id@;
        self.entries.push((task_id, handle));
        proof {
            assert(self.entries@.drop_last() =~= before);
            lemma_entries_map_contains(before, key);
            assert forall|i: int, j: int|
                0 <= i < j < self.entries@.len() implies self.entries@[i].0@
                != self.entries@[j].0@ by {
                if j == self.entries@.len() - 1 {
                    assert(self.entries@[i] == before[i]);
                } else {
                    assert(self.entries@[i] == before[i] && self.entries@[j] == before[j]);
                }
            }
        }
        Ok(())
    }

    /// Removes a live task and hands back its process handle. This is the
    /// single lookup-and-remove that both cancellation and completion use.
    pub fn take(&mut self, task_id: &str) -> (r: Option<H>)
        requires
            old(self).wf(),
        ensures
            final(self).wf(),
            final(self).view() == old(self).view().remove(task_id@),
            old(self).view().contains_key(task_id@) ==> r == Some(old(self).view()[task_id@]),
            !old(self).view().contains_key(task_id@) ==> r is None,
    {
        match self.find(task_id) {
            Some(i) => {
                let ghost before = self.entries@;
                let (_, h) = self.entries.remove(i);
                proof {
                    lemma_entries_map_contains(before, task_id@);
                    lemma_entries_map_remove(before, i as int);
                    assert(self.entries@ == before.remove(i as int));
                }
                Some(h)
            },
            None => {
                assert(self.view().remove(task_id@) =~= self.view());
                None
            },
        }
    }

    /// Cancels a live task: removes it and hands back its process handle,
    /// which the caller then kills. Fails with `TaskNotFound` when no task
    /// with this identifier is live (it finished, was cancelled, or never was).
    pub fn cancel(&mut self, task_id: &str) -> (r: Result<H, AppError>)
        requires
            old(self).wf(),
        ensures
            final(self).wf(),
            final(self).view() == old(self).view().remove(task_id@),
            old(self).view().contains_key(task_id@) ==> r == Ok::<H, AppError>(
                old(self).view()[task_id@],
            ),
            !old(self).view().contains_key(task_id@) ==> (r matches Err(AppError::TaskNotFound(t))
                && t@ == task_id@),
    {
        match self.take(task_id) {
            Some(h) => Ok(h),
            None => Err(AppError::TaskNotFound(task_id.to_owned())),
        }
    }

    /// Ends a task that ran to its end with `outcome`; `file_size` is the size
    /// of its output file when that could be read. The task leaves the registry
    /// and its notice is returned; a task that is no longer live (it was
    /// cancelled) gives no notice.
    pub fn finish(
        &mut self,
        task_id: &str,
        outcome: Result<String, AppError>,
        file_size: Option<u64>,
    ) -> (r: Option<TaskNotice>)
        requires
            old(self).wf(),
        ensures
            final(self).wf(),
            final(self).view() == old(self).view().remove(task_id@),
            r is Some <==> old(self).view().contains_key(task_id@),
            r matches Some(n) ==> notice_matches(n, task_id@, outcome, file_size),
    {
        match self.take(task_id) {
            None => None,
            Some(_) => Some(
                match outcome {
                    Ok(path) => TaskNotice::Complete {
                        task_id: task_id.to_owned(),
                        file_path: path,
                        file_size: match file_size {
                            Some(k) => k,
                            None => 0,
                        },
                    },
                    Err(e) => TaskNotice::Failed {
                        task_id: task_id.to_owned(),
                        message: e.user_message(),
                    },
                },
            ),
        }
    }
}

proof fn lemma_entries_map_len<H>(s: Seq<(String, H)>)
    requires
        keys_unique(s),
    ensures
        entries_map(s).dom().finite(),
        entries_map(s).len() == s.len(),
    decreases s.len(),
{
    if s.len() > 0 {
        let p = s.drop_last();
        assert(keys_unique(p));
        lemma_entries_map_len(p);
        lemma_entries_map_contains(p, s.last().0@);
        assert(!entries_map(p).contains_key(s.last().0@)) by {
            if entries_map(p).contains_key(s.last().0@) {
                let j = choose|j: int| 0 <= j < p.len() && p[j].0@ == s.last().0@;
                assert(s[j] == p[j]);
            }
        }
    }
}

/// Starting a task and then cancelling it hands back the handle it was started
/// with (the process to kill); cancelling it once more fails with
/// `TaskNotFound`.
pub proof fn lemma_start_then_cancel_twice<H>(
    live: Map<Seq<char>, H>,
    task_id: Seq<char>,
    handle: H,
)
    requires
        !live.contains_key(task_id),
    ensures
        ({
            let started = live.insert(task_id, handle);
            let cancelled = started.remove(task_id);
            &&& started.contains_key(task_id)
            &&& started[task_id] == handle
            &&& !cancelled.contains_key(task_id)
            &&& cancelled == live
        }),
{
    let started = live.insert(task_id, handle);
    assert(started.remove(task_id) =~= live);
}

} // verus!
