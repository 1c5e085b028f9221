//! The decision core of the tile download engine.
//!
//! The host drives an event loop: it asks the store for pending tiles,
//! performs the HTTP requests, and reports every outcome back.  What to do
//! with each outcome — complete, fail, or retry with backoff — and how the
//! per-task counters move is decided here, under contract.

use vstd::prelude::*;
use crate::tiles::backoff_delay_ms;
use crate::types::TileCoord;

verus! {

use vstd::arithmetic::power2::pow2;

/// Smallest allowed worker count.
pub const MIN_WORKERS: u32 = 1;

/// Largest allowed worker count.
pub const MAX_WORKERS: u32 = 32;

/// Live counters of one running task.  `completed` and `failed` only ever
/// grow while the task runs; the stored progress rows are the durable truth.
#[derive(Debug, Clone, Copy, PartialEq, Eq, Structural)]
pub struct DownloaderState {
    pub is_running: bool,
    pub is_paused: bool,
    pub completed: u64,
    pub failed: u64,
    pub thread_count: u32,
    pub current_zoom: u32,
}

impl DownloaderState {
    /// A fresh state: not yet running, nothing counted.
    pub fn new(thread_count: u32) -> (r: DownloaderState)
        ensures
            r == (DownloaderState {
                is_running: false,
                is_paused: false,
                completed: 0,
                failed: 0,
                thread_count,
                current_zoom: 0,
            }),
    {
        DownloaderState {
            is_running: false,
            is_paused: false,
            completed: 0,
            failed: 0,
            thread_count,
            current_zoom: 0,
        }
    }

    /// Counts one finished tile; nothing else moves, and the counter grows.
    pub fn record_completed(&mut self)
        requires
            old(self).completed < u64::MAX,
        ensures
            *final(self) == (DownloaderState { completed: (old(self).completed + 1) as u64, ..*old(self) }),
            final(self).completed > old(self).completed,
            final(self).failed == old(self).failed,
    {
        self.completed = self.completed + 1;
    }

    /// Counts one failed tile; nothing else moves, and the counter grows.
    pub fn record_failed(&mut self)
        requires
            old(self).failed < u64::MAX,
        ensures
            *final(self) == (DownloaderState { failed: (old(self).failed + 1) as u64, ..*old(self) }),
            final(self).failed > old(self).failed,
            final(self).completed == old(self).completed,
    {
        self.failed = self.failed + 1;
    }
}

/// The tracked entries with the given id removed.
pub open spec fn drop_id(states: Seq<(String, DownloaderState)>, id: Seq<char>) -> Seq<
    (String, DownloaderState),
>
    decreases states.len(),
{
    if states.len() == 0 {
        Seq::empty()
    } else {
        drop_id(states.drop_last(), id) + if states.last().0@ == id {
            Seq::empty()
        } else {
            seq![states.last()]
        }
    }
}

/// No entry of the filtered listing carries the dropped id.
pub proof fn lemma_drop_id_gone(states: Seq<(String, DownloaderState)>, id: Seq<char>, k: int)
    requires
        0 <= k < drop_id(states, id).len(),
    ensures
        drop_id(states, id)[k].0@ != id,
    decreases states.len(),
{
    let all = drop_id(states, id);
    let init = drop_id(states.drop_last(), id);
    if k < init.len() {
        lemma_drop_id_gone(states.drop_last(), id, k);
    }
}

/// The verdict of one HTTP attempt on one tile, as the host observed it.
#[derive(Debug, Clone, PartialEq, Eq)]
pub enum TileOutcome {
    /// The provider had no URL for this map type.
    Unsupported,
    /// A successful response whose body was stored without error.
    Saved,
    /// A successful response whose body the storage writer rejected.
    WriteError(String),
    /// A response with a client error status (the 400s): terminal.
    ClientError(u16),
    /// A response with a server error status (the 500s): worth retrying.
    ServerError(u16),
    /// No usable response at all: worth retrying.
    Transport(String),
}

/// What the engine does next with one tile.
#[derive(Debug, Clone, PartialEq, Eq)]
pub enum TileAction {
    /// Mark the tile completed in the store and count it.
    Complete,
    /// Mark the tile failed in the store, with this reason, and count it.
    Fail(String),
    /// Try the same tile again after this many milliseconds.
    Retry { delay_ms: u64 },
}

/// Whether an outcome is retriable at all: server errors and transport
/// failures are, everything else is settled on the spot.
pub open spec fn outcome_retriable(outcome: TileOutcome) -> bool {
    match outcome {
        TileOutcome::ServerError(_) => true,
        TileOutcome::Transport(_) => true,
        _ => false,
    }
}

/// Decides one attempt: a saved body completes the tile; a missing URL, a
/// write error or a client error fails it at once; a server error or a
/// transport failure retries with exponential backoff until the budget
/// `max_retries` is spent, and fails after that.
pub fn tile_attempt_action(outcome: &TileOutcome, retries: u32, max_retries: u32) -> (r:
    TileAction)
    ensures
        outcome == TileOutcome::Saved ==> r == TileAction::Complete,
        !(outcome == TileOutcome::Saved) && !outcome_retriable(*outcome) ==> r matches
            TileAction::Fail(_),
        outcome_retriable(*outcome) && retries >= max_retries ==> r matches TileAction::Fail(_),
        outcome_retriable(*outcome) && retries < max_retries ==> r == (TileAction::Retry {
            delay_ms: (1000 * pow2(
                if retries + 1 <= 4 {
                    (retries + 1) as nat
                } else {
                    4nat
                },
            )) as u64,
        }),
{
    match outcome {
        TileOutcome::Saved => TileAction::Complete,
        TileOutcome::Unsupported => TileAction::Fail("unsupported map type".to_owned()),
        TileOutcome::WriteError(e) => TileAction::Fail(e.clone()),
        TileOutcome::ClientError(code) => {
            let mut m = "HTTP ".to_owned();
            m.append(crate::text::u64_to_string(*code as u64).as_str());
            TileAction::Fail(m)
        },
        TileOutcome::ServerError(code) => {
            if retries >= max_retries {
                let mut m = "HTTP ".to_owned();
                m.append(crate::text::u64_to_string(*code as u64).as_str());
                TileAction::Fail(m)
            } else {
                TileAction::Retry { delay_ms: backoff_delay_ms(retries + 1) }
            }
        },
        TileOutcome::Transport(e) => {
            if retries >= max_retries {
                TileAction::Fail(e.clone())
            } else {
                TileAction::Retry { delay_ms: backoff_delay_ms(retries + 1) }
            }
        },
    }
}

/// Clamps a requested worker count into the allowed range.
pub fn clamp_workers(count: u32) -> (r: u32)
    ensures
        r == if count < MIN_WORKERS {
            MIN_WORKERS
        } else if count > MAX_WORKERS {
            MAX_WORKERS
        } else {
            count
        },
        MIN_WORKERS <= r <= MAX_WORKERS,
{
    if count < MIN_WORKERS {
        MIN_WORKERS
    } else if count > MAX_WORKERS {
        MAX_WORKERS
    } else {
        count
    }
}

/// The next batch: the first `worker_count` of the pending tiles the store
/// handed over.
pub fn select_batch(pending: &Vec<TileCoord>, worker_count: usize) -> (r: Vec<TileCoord>)
    ensures
        r@ == pending@.take(
            if pending@.len() < worker_count {
                pending@.len() as int
            } else {
                worker_count as int
            },
        ),
{
    let mut r: Vec<TileCoord> = Vec::new();
    let n = if pending.len() < worker_count {
        pending.len()
    } else {
        worker_count
    };
    let mut i: usize = 0;
    while i < n
        invariant
            n <= pending@.len(),
            i <= n,
            r@ == pending@.take(i as int),
        decreases n - i,
    {
        r.push(pending[i]);
        assert(r@ =~= pending@.take(i as int + 1));
        i = i + 1;
    }
    r
}

/// Whether the driver loop is finished: no tile is pending and every tile
/// has been settled one way or the other.
pub fn should_finish(pending_is_empty: bool, completed: u64, failed: u64, total: u64) -> (r:
    bool)
    ensures
        r == (pending_is_empty && completed + failed >= total),
{
    pending_is_empty && (completed >= total || failed >= total - completed)
}

/// Tasks tracked by the engine, keyed by task id.
pub struct TileDownloader {
    pub states: Vec<(String, DownloaderState)>,
}

impl TileDownloader {
    /// Index of a task id, if tracked.
    pub open spec fn idx_of(self, id: Seq<char>) -> Option<int> {
        if exists|i: int| 0 <= i < self.states@.len() && (#[trigger] self.states@[i]).0@ == id {
            Some(
                choose|i: int|
                    0 <= i < self.states@.len() && (#[trigger] self.states@[i]).0@ == id,
            )
        } else {
            None
        }
    }

    /// An empty tracker.
    pub fn new() -> (r: TileDownloader)
        ensures
            r.states@.len() == 0,
    {
        TileDownloader { states: Vec::new() }
    }

    /// The live state of a task, if one is tracked under this id.
    pub fn get_state(&self, task_id: &str) -> (r: Option<DownloaderState>)
        ensures
            r is Some <==> exists|i: int|
                0 <= i < self.states@.len() && (#[trigger] self.states@[i]).0@ == task_id@,
            r is Some ==> exists|i: int|
                0 <= i < self.states@.len() && (#[trigger] self.states@[i]).0@ == task_id@
                    && self.states@[i].1 == r->0,
    {
        let n = self.states.len();
        let mut i: usize = 0;
        while i < n
            invariant
                n == self.states@.len(),
                i <= n,
                forall|j: int| 0 <= j < i ==> (#[trigger] self.states@[j]).0@ != task_id@,
            decreases n - i,
        {
            if crate::text::bytes_eq(self.states[i].0.as_str().as_bytes(), task_id.as_bytes()) {
                proof {
                    crate::text::lemma_utf8_view_eq(self.states@[i as int].0@, task_id@);
                }
                return Some(self.states[i].1);
            }
            proof {
                crate::text::lemma_utf8_view_eq(self.states@[i as int].0@, task_id@);
            }
            i = i + 1;
        }
        None
    }

    /// Starts tracking a task, replacing any state already under the id.
    pub fn create_state(&mut self, task_id: &str, thread_count: u32)
        ensures
            exists|i: int|
                0 <= i < final(self).states@.len() && (#[trigger] final(self).states@[i]).0@
                    == task_id@ && final(self).states@[i].1 == (DownloaderState {
                    is_running: false,
                    is_paused: false,
                    completed: 0,
                    failed: 0,
                    thread_count,
                    current_zoom: 0,
                }),
    {
        let state = DownloaderState::new(thread_count);
        let n = self.states.len();
        let mut i: usize = 0;
        while i < n
            invariant
                n == self.states@.len(),
                self.states@ == old(self).states@,
                i <= n,
                state == (DownloaderState {
                    is_running: false,
                    is_paused: false,
                    completed: 0,
                    failed: 0,
                    thread_count,
                    current_zoom: 0,
                }),
            decreases n - i,
        {
            if crate::text::bytes_eq(self.states[i].0.as_str().as_bytes(), task_id.as_bytes()) {
                proof {
                    crate::text::lemma_utf8_view_eq(self.states@[i as int].0@, task_id@);
                }
                let key = self.states[i].0.clone();
                self.states.set(i, (key, state));
                assert(exists|k: int|
                    0 <= k < self.states@.len() && (#[trigger] self.states@[k]).0@ == task_id@
                        && self.states@[k].1 == state) by {
                    assert((self.states@[i as int]).0@ == task_id@ && self.states@[i as int].1
                        == state);
                }
                return ;
            }
            i = i + 1;
        }
        let mut key = String::new();
        key.append(task_id);
        assert(key@ == task_id@);
        self.states.push((key, state));
        assert(exists|k: int|
            0 <= k < self.states@.len() && (#[trigger] self.states@[k]).0@ == task_id@
                && self.states@[k].1 == state) by {
            assert((self.states@[self.states@.len() - 1]).0@ == task_id@ && self.states@[
            self.states@.len() - 1].1 == state);
        }
    }

    /// Stops tracking a task: its entry leaves the table, every other entry
    /// stays in order.
    pub fn remove_state(&mut self, task_id: &str)
        ensures
            final(self).states@ == drop_id(old(self).states@, task_id@),
    {
        let n = self.states.len();
        let mut kept: Vec<(String, DownloaderState)> = Vec::new();
        let mut i: usize = 0;
        while i < n
            invariant
                n == self.states@.len(),
                self.states@ == old(self).states@,
                i <= n,
                kept@ == drop_id(self.states@.subrange(0, i as int), task_id@),
            decreases n - i,
        {
            proof {
                assert(self.states@.subrange(0, i as int + 1).drop_last() =~= self.states@
                    .subrange(0, i as int));
                assert(self.states@.subrange(0, i as int + 1).last() == self.states@[i as int]);
            }
            let matches_id = crate::text::bytes_eq(
                self.states[i].0.as_str().as_bytes(),
                task_id.as_bytes(),
            );
            proof {
                crate::text::lemma_utf8_view_eq(self.states@[i as int].0@, task_id@);
            }
            if !matches_id {
                let entry = (self.states[i].0.clone(), self.states[i].1);
                assert(entry == self.states@[i as int]);
                kept.push(entry);
                assert(kept@ =~= drop_id(self.states@.subrange(0, i as int + 1), task_id@));
            } else {
                assert(kept@ =~= drop_id(self.states@.subrange(0, i as int + 1), task_id@));
            }
            i = i + 1;
        }
        proof {
            assert(self.states@.subrange(0, n as int) =~= self.states@);
        }
        self.states = kept;
    }

    /// Applies one change to the state under an id; reports whether a state
    /// was there.  Every other task keeps its state.
    fn update_state(&mut self, task_id: &str, make_running: Option<bool>, make_paused: Option<
        bool,
    >, set_threads: Option<u32>) -> (found: bool)
        ensures
            found <==> exists|i: int|
                0 <= i < old(self).states@.len() && (#[trigger] old(self).states@[i]).0@
                    == task_id@,
            final(self).states@.len() == old(self).states@.len(),
            forall|i: int|
                0 <= i < old(self).states@.len() && (#[trigger] old(self).states@[i]).0@
                    != task_id@ ==> final(self).states@[i] == old(self).states@[i],
            forall|i: int|
                0 <= i < old(self).states@.len() && (#[trigger] old(self).states@[i]).0@
                    == task_id@ ==> final(self).states@[i].0 == old(self).states@[i].0 && final(self).states@[i].1 == (DownloaderState {
                    is_running: match make_running {
                        Some(b) => b,
                        None => old(self).states@[i].1.is_running,
                    },
                    is_paused: match make_paused {
                        Some(b) => b,
                        None => old(self).states@[i].1.is_paused,
                    },
                    thread_count: match set_threads {
                        Some(c) => c,
                        None => old(self).states@[i].1.thread_count,
                    },
                    ..old(self).states@[i].1
                }),
    {
        let n = self.states.len();
        let mut i: usize = 0;
        let mut found = false;
        while i < n
            invariant
                n == old(self).states@.len(),
                self.states@.len() == n,
                i <= n,
                found <==> exists|j: int|
                    0 <= j < i && (#[trigger] old(self).states@[j]).0@ == task_id@,
                forall|j: int| i <= j < n ==> self.states@[j] == old(self).states@[j],
                forall|j: int|
                    0 <= j < i && (#[trigger] old(self).states@[j]).0@ != task_id@ ==> self.states@[j] == old(self).states@[j],
                forall|j: int|
                    0 <= j < i && (#[trigger] old(self).states@[j]).0@ == task_id@ ==> self.states@[j].0 == old(self).states@[j].0 && self.states@[j].1 == (
                    DownloaderState {
                        is_running: match make_running {
                            Some(b) => b,
                            None => old(self).states@[j].1.is_running,
                        },
                        is_paused: match make_paused {
                            Some(b) => b,
                            None => old(self).states@[j].1.is_paused,
                        },
                        thread_count: match set_threads {
                            Some(c) => c,
                            None => old(self).states@[j].1.thread_count,
                        },
                        ..old(self).states@[j].1
                    }),
            decreases n - i,
        {
            let matches_id = crate::text::bytes_eq(
                self.states[i].0.as_str().as_bytes(),
                task_id.as_bytes(),
            );
            if matches_id {
                proof {
                    crate::text::lemma_utf8_view_eq(self.states@[i as int].0@, task_id@);
                }
                let key = self.states[i].0.clone();
                let prev = self.states[i].1;
                let next = DownloaderState {
                    is_running: match make_running {
                        Some(b) => b,
                        None => prev.is_running,
                    },
                    is_paused: match make_paused {
                        Some(b) => b,
                        None => prev.is_paused,
                    },
                    thread_count: match set_threads {
                        Some(c) => c,
                        None => prev.thread_count,
                    },
                    ..prev
                };
                self.states.set(i, (key, next));
                found = true;
            } else {
                proof {
                    crate::text::lemma_utf8_view_eq(self.states@[i as int].0@, task_id@);
                }
            }
            i = i + 1;
        }
        found
    }

    /// Pauses a task: the driver keeps looping but downloads nothing more
    /// until resumed.
    pub fn pause(&mut self, task_id: &str) -> (found: bool)
        ensures
            found <==> exists|i: int|
                0 <= i < old(self).states@.len() && (#[trigger] old(self).states@[i]).0@
                    == task_id@,
            final(self).states@.len() == old(self).states@.len(),
            forall|i: int|
                0 <= i < old(self).states@.len() && (#[trigger] old(self).states@[i]).0@
                    != task_id@ ==> final(self).states@[i] == old(self).states@[i],
            forall|i: int|
                0 <= i < old(self).states@.len() && (#[trigger] old(self).states@[i]).0@
                    == task_id@ ==> final(self).states@[i].0 == old(self).states@[i].0 && final(self).states@[i].1 == (DownloaderState { is_paused: true, ..old(self).states@[i].1 }),
    {
        self.update_state(task_id, None, Some(true), None)
    }

    /// Resumes a paused task.
    pub fn resume(&mut self, task_id: &str) -> (found: bool)
        ensures
            found <==> exists|i: int|
                0 <= i < old(self).states@.len() && (#[trigger] old(self).states@[i]).0@
                    == task_id@,
            final(self).states@.len() == old(self).states@.len(),
            forall|i: int|
                0 <= i < old(self).states@.len() && (#[trigger] old(self).states@[i]).0@
                    != task_id@ ==> final(self).states@[i] == old(self).states@[i],
            forall|i: int|
                0 <= i < old(self).states@.len() && (#[trigger] old(self).states@[i]).0@
                    == task_id@ ==> final(self).states@[i].0 == old(self).states@[i].0 && final(self).states@[i].1 == (DownloaderState { is_paused: false, ..old(self).states@[i].1 }),
    {
        self.update_state(task_id, None, Some(false), None)
    }

    /// Stops a task: the driver breaks out of its loop at the next check.
    pub fn stop(&mut self, task_id: &str) -> (found: bool)
        ensures
            found <==> exists|i: int|
                0 <= i < old(self).states@.len() && (#[trigger] old(self).states@[i]).0@
                    == task_id@,
            final(self).states@.len() == old(self).states@.len(),
            forall|i: int|
                0 <= i < old(self).states@.len() && (#[trigger] old(self).states@[i]).0@
                    != task_id@ ==> final(self).states@[i] == old(self).states@[i],
            forall|i: int|
                0 <= i < old(self).states@.len() && (#[trigger] old(self).states@[i]).0@
                    == task_id@ ==> final(self).states@[i].0 == old(self).states@[i].0 && final(self).states@[i].1 == (DownloaderState {
                    is_running: false,
                    is_paused: false,
                    ..old(self).states@[i].1
                }),
    {
        self.update_state(task_id, Some(false), Some(false), None)
    }

    /// Changes the worker count of a running task, clamped to the allowed
    /// range.
    pub fn set_thread_count(&mut self, task_id: &str, count: u32) -> (found: bool)
        ensures
            found <==> exists|i: int|
                0 <= i < old(self).states@.len() && (#[trigger] old(self).states@[i]).0@
                    == task_id@,
            final(self).states@.len() == old(self).states@.len(),
            forall|i: int|
                0 <= i < old(self).states@.len() && (#[trigger] old(self).states@[i]).0@
                    != task_id@ ==> final(self).states@[i] == old(self).states@[i],
            forall|i: int|
                0 <= i < old(self).states@.len() && (#[trigger] old(self).states@[i]).0@
                    == task_id@ ==> final(self).states@[i].0 == old(self).states@[i].0 && final(self).states@[i].1 == (DownloaderState {
                    thread_count: if count < MIN_WORKERS {
                        MIN_WORKERS
                    } else if count > MAX_WORKERS {
                        MAX_WORKERS
                    } else {
                        count
                    },
                    ..old(self).states@[i].1
                }),
    {
        let clamped = clamp_workers(count);
        self.update_state(task_id, None, None, Some(clamped))
    }
}

} // verus!
