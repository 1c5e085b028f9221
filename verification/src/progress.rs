//! Per-tile progress records: the stored truth from which an interrupted
//! task resumes.
//!
//! A task's progress is a list of rows, one per tile, each pending,
//! completed or failed.  The engine only ever downloads tiles whose row is
//! pending, so completed work is never repeated after a restart.

use vstd::prelude::*;
use crate::types::{TileCoord, TileStatus};

verus! {

/// One row of the progress table.
#[derive(Debug, Clone)]
pub struct TileProgressRow {
    pub coord: TileCoord,
    pub status: TileStatus,
    pub retry_count: u32,
    pub error_message: Option<String>,
    pub downloaded_at: Option<String>,
}

/// A copy of an optional string.
fn clone_opt_string(o: &Option<String>) -> (r: Option<String>)
    ensures
        r == *o,
{
    match o {
        Some(s) => Some(s.clone()),
        None => None,
    }
}

/// How many rows of a listing carry the given status.
pub open spec fn count_status(rows: Seq<TileProgressRow>, st: TileStatus) -> nat
    decreases rows.len(),
{
    if rows.len() == 0 {
        0
    } else {
        count_status(rows.drop_last(), st) + if rows.last().status == st {
            1nat
        } else {
            0nat
        }
    }
}

/// A prefix never counts more rows than the whole.
pub proof fn lemma_count_status_prefix(rows: Seq<TileProgressRow>, k: int, st: TileStatus)
    requires
        0 <= k <= rows.len(),
    ensures
        count_status(rows.subrange(0, k), st) <= count_status(rows, st),
    decreases rows.len() - k,
{
    if k == rows.len() {
        assert(rows.subrange(0, k) =~= rows);
    } else {
        lemma_count_status_prefix(rows, k + 1, st);
        assert(rows.subrange(0, k + 1).drop_last() =~= rows.subrange(0, k));
    }
}

/// Extending a prefix by one row adjusts its count by that row alone.
pub proof fn lemma_count_status_step(rows: Seq<TileProgressRow>, k: int, st: TileStatus)
    requires
        0 <= k < rows.len(),
    ensures
        count_status(rows.subrange(0, k + 1), st) == count_status(rows.subrange(0, k), st)
            + if rows[k].status == st {
            1nat
        } else {
            0nat
        },
{
    assert(rows.subrange(0, k + 1).drop_last() =~= rows.subrange(0, k));
    assert(rows.subrange(0, k + 1).last() == rows[k]);
}

/// The coordinates of the rows carrying a given status, in row order.
pub open spec fn coords_with_status(rows: Seq<TileProgressRow>, st: TileStatus) -> Seq<TileCoord>
    decreases rows.len(),
{
    if rows.len() == 0 {
        Seq::empty()
    } else {
        coords_with_status(rows.drop_last(), st) + if rows.last().status == st {
            seq![rows.last().coord]
        } else {
            Seq::empty()
        }
    }
}

/// There are as many filtered coordinates as rows with the status.
pub proof fn lemma_coords_with_status_len(rows: Seq<TileProgressRow>, st: TileStatus)
    ensures
        coords_with_status(rows, st).len() == count_status(rows, st),
    decreases rows.len(),
{
    if rows.len() > 0 {
        lemma_coords_with_status_len(rows.drop_last(), st);
    }
}

/// Extending a prefix by one row appends its coordinate when it matches.
pub proof fn lemma_coords_with_status_step(rows: Seq<TileProgressRow>, k: int, st: TileStatus)
    requires
        0 <= k < rows.len(),
    ensures
        coords_with_status(rows.subrange(0, k + 1), st) == coords_with_status(
            rows.subrange(0, k),
            st,
        ) + if rows[k].status == st {
            seq![rows[k].coord]
        } else {
            Seq::<TileCoord>::empty()
        },
{
    assert(rows.subrange(0, k + 1).drop_last() =~= rows.subrange(0, k));
    assert(rows.subrange(0, k + 1).last() == rows[k]);
}

/// Every filtered coordinate belongs to a row with that status.
pub proof fn lemma_coords_with_status_member(rows: Seq<TileProgressRow>, st: TileStatus, k: int)
    requires
        0 <= k < coords_with_status(rows, st).len(),
    ensures
        exists|i: int|
            0 <= i < rows.len() && (#[trigger] rows[i]).status == st && rows[i].coord
                == coords_with_status(rows, st)[k],
    decreases rows.len(),
{
    let all = coords_with_status(rows, st);
    let init = coords_with_status(rows.drop_last(), st);
    if k < init.len() {
        lemma_coords_with_status_member(rows.drop_last(), st, k);
        let i = choose|i: int|
            0 <= i < rows.drop_last().len() && (#[trigger] rows.drop_last()[i]).status == st
                && rows.drop_last()[i].coord == init[k];
        assert(rows[i].status == st && rows[i].coord == all[k]);
    } else {
        assert(rows[rows.len() - 1].status == st && rows[rows.len() - 1].coord == all[k]);
    }
}

/// A prefix of the rows filters to a prefix of the filtered coordinates.
pub proof fn lemma_coords_with_status_prefix_take(
    rows: Seq<TileProgressRow>,
    k: int,
    st: TileStatus,
)
    requires
        0 <= k <= rows.len(),
    ensures
        coords_with_status(rows.subrange(0, k), st) == coords_with_status(rows, st).take(
            count_status(rows.subrange(0, k), st) as int,
        ),
    decreases rows.len() - k,
{
    lemma_coords_with_status_len(rows.subrange(0, k), st);
    if k == rows.len() {
        assert(rows.subrange(0, k) =~= rows);
        assert(coords_with_status(rows, st).take(count_status(rows, st) as int)
            =~= coords_with_status(rows, st));
    } else {
        lemma_coords_with_status_step(rows, k, st);
        lemma_count_status_step(rows, k, st);
        lemma_coords_with_status_prefix_take(rows, k + 1, st);
        lemma_coords_with_status_len(rows.subrange(0, k + 1), st);
        lemma_coords_with_status_len(rows, st);
        lemma_count_status_prefix(rows, k, st);
        lemma_count_status_prefix(rows, k + 1, st);
        let ck = count_status(rows.subrange(0, k), st) as int;
        let ck1 = count_status(rows.subrange(0, k + 1), st) as int;
        let a = coords_with_status(rows.subrange(0, k + 1), st);
        let full = coords_with_status(rows, st);
        assert(a == full.take(ck1));
        assert(ck <= ck1);
        assert(ck1 <= full.len());
        assert forall|j: int| 0 <= j < ck implies coords_with_status(rows.subrange(0, k), st)[j]
            == full.take(ck)[j] by {
            assert(a == coords_with_status(rows.subrange(0, k), st) + (if rows[k].status == st {
                seq![rows[k].coord]
            } else {
                Seq::<TileCoord>::empty()
            }));
            assert(coords_with_status(rows.subrange(0, k), st)[j] == a[j]);
            assert(a[j] == full.take(ck1)[j]);
            assert(full.take(ck1)[j] == full[j]);
            assert(full.take(ck)[j] == full[j]);
        }
        assert(coords_with_status(rows.subrange(0, k), st) =~= full.take(ck));
    }
}

/// What resumption rests on: every tile handed out for download belongs
/// to a pending row, so in a table without duplicate coordinates no
/// completed tile is ever downloaded again.
pub proof fn lemma_pending_batch_untouched(rows: Seq<TileProgressRow>, k: int)
    requires
        0 <= k < coords_with_status(rows, TileStatus::Pending).len(),
    ensures
        exists|i: int|
            0 <= i < rows.len() && (#[trigger] rows[i]).status == TileStatus::Pending && rows[
                i
            ].coord == coords_with_status(rows, TileStatus::Pending)[k],
{
    lemma_coords_with_status_member(rows, TileStatus::Pending, k);
}

/// Every row has exactly one status, so the three counts partition the rows.
pub proof fn lemma_counts_partition(rows: Seq<TileProgressRow>)
    ensures
        count_status(rows, TileStatus::Pending) + count_status(rows, TileStatus::Completed)
            + count_status(rows, TileStatus::Failed) == rows.len(),
    decreases rows.len(),
{
    if rows.len() > 0 {
        lemma_counts_partition(rows.drop_last());
    }
}

/// Completed and failed tiles together never outnumber the tiles of the
/// task: progress counters stay within the total.
pub proof fn lemma_progress_bounded(rows: Seq<TileProgressRow>)
    ensures
        count_status(rows, TileStatus::Completed) + count_status(rows, TileStatus::Failed)
            <= rows.len(),
{
    lemma_counts_partition(rows);
}

/// The progress table of one task.
#[derive(Debug, Clone)]
pub struct TaskProgress {
    pub rows: Vec<TileProgressRow>,
}

impl TaskProgress {
    /// One row per tile: coordinates are pairwise distinct.
    pub open spec fn wf(self) -> bool {
        forall|i: int, j: int|
            0 <= i < j < self.rows@.len() ==> (#[trigger] self.rows@[i]).coord != (
            #[trigger] self.rows@[j]).coord
    }

    /// A fresh table: one pending row per tile, in tile order.
    pub fn init(tiles: &Vec<TileCoord>) -> (r: TaskProgress)
        requires
            forall|i: int, j: int|
                0 <= i < j < tiles@.len() ==> tiles@[i] != tiles@[j],
        ensures
            r.rows@.len() == tiles@.len(),
            forall|i: int|
                0 <= i < tiles@.len() ==> (#[trigger] r.rows@[i]) == (TileProgressRow {
                    coord: tiles@[i],
                    status: TileStatus::Pending,
                    retry_count: 0,
                    error_message: None,
                    downloaded_at: None,
                }),
            r.wf(),
    {
        let mut rows: Vec<TileProgressRow> = Vec::new();
        let mut i: usize = 0;
        while i < tiles.len()
            invariant
                forall|a: int, b: int|
                    0 <= a < b < tiles@.len() ==> tiles@[a] != tiles@[b],
                i <= tiles@.len(),
                rows@.len() == i,
                forall|a: int|
                    0 <= a < i ==> (#[trigger] rows@[a]) == (TileProgressRow {
                        coord: tiles@[a],
                        status: TileStatus::Pending,
                        retry_count: 0,
                        error_message: None,
                        downloaded_at: None,
                    }),
            decreases tiles@.len() - i,
        {
            rows.push(
                TileProgressRow {
                    coord: tiles[i],
                    status: TileStatus::Pending,
                    retry_count: 0,
                    error_message: None,
                    downloaded_at: None,
                },
            );
            i = i + 1;
        }
        TaskProgress { rows }
    }

    /// Up to `limit` pending tiles, in row order.  Only pending rows are
    /// handed out, so a resumed task never downloads a completed tile again.
    pub fn get_pending_tiles(&self, limit: usize) -> (r: Vec<TileCoord>)
        ensures
            r@ == coords_with_status(self.rows@, TileStatus::Pending).take(
                if count_status(self.rows@, TileStatus::Pending) < limit {
                    count_status(self.rows@, TileStatus::Pending) as int
                } else {
                    limit as int
                },
            ),
            r@.len() == if count_status(self.rows@, TileStatus::Pending) < limit {
                count_status(self.rows@, TileStatus::Pending)
            } else {
                limit as nat
            },
    {
        let rows = &self.rows;
        let mut r: Vec<TileCoord> = Vec::new();
        let mut i: usize = 0;
        while i < rows.len() && r.len() < limit
            invariant
                rows@ == self.rows@,
                i <= rows@.len(),
                r@.len() <= limit,
                r@.len() <= count_status(rows@.subrange(0, i as int), TileStatus::Pending),
                r@ == coords_with_status(rows@.subrange(0, i as int), TileStatus::Pending).take(
                    if count_status(rows@.subrange(0, i as int), TileStatus::Pending) < limit {
                        count_status(rows@.subrange(0, i as int), TileStatus::Pending) as int
                    } else {
                        limit as int
                    },
                ),
            decreases rows@.len() - i,
        {
            proof {
                lemma_count_status_step(rows@, i as int, TileStatus::Pending);
                lemma_coords_with_status_step(rows@, i as int, TileStatus::Pending);
                lemma_coords_with_status_len(
                    rows@.subrange(0, i as int),
                    TileStatus::Pending,
                );
                lemma_coords_with_status_len(
                    rows@.subrange(0, i as int + 1),
                    TileStatus::Pending,
                );
            }
            let row = &rows[i];
            if matches!(row.status, TileStatus::Pending) {
                r.push(row.coord);
                proof {
                    let pc = coords_with_status(rows@.subrange(0, i as int), TileStatus::Pending);
                    let pc1 = coords_with_status(
                        rows@.subrange(0, i as int + 1),
                        TileStatus::Pending,
                    );
                    assert(pc.take(pc.len() as int) =~= pc);
                    assert(pc1.take(pc1.len() as int) =~= pc1);
                    if pc1.len() >= limit {
                        assert(r@ =~= pc1.take(limit as int));
                    }
                }
            } else {
                proof {
                    let pc = coords_with_status(rows@.subrange(0, i as int), TileStatus::Pending);
                    let pc1 = coords_with_status(
                        rows@.subrange(0, i as int + 1),
                        TileStatus::Pending,
                    );
                    assert(pc1 =~= pc);
                }
            }
            i = i + 1;
        }
        proof {
            let full = coords_with_status(self.rows@, TileStatus::Pending);
            lemma_coords_with_status_len(self.rows@, TileStatus::Pending);
            if i == rows@.len() {
                assert(rows@.subrange(0, i as int) =~= rows@);
            } else {
                // stopped because the batch is full
                lemma_count_status_prefix(rows@, i as int, TileStatus::Pending);
                let pfx = coords_with_status(
                    rows@.subrange(0, i as int),
                    TileStatus::Pending,
                );
                lemma_coords_with_status_len(
                    rows@.subrange(0, i as int),
                    TileStatus::Pending,
                );
                lemma_coords_with_status_prefix_take(rows@, i as int, TileStatus::Pending);
                assert(r@ =~= full.take(limit as int));
            }
        }
        r
    }

    /// All tiles whose row is failed, in row order.
    pub fn get_failed_tiles(&self) -> (r: Vec<TileCoord>)
        ensures
            r@ == coords_with_status(self.rows@, TileStatus::Failed),
            r@.len() == count_status(self.rows@, TileStatus::Failed),
    {
        let rows = &self.rows;
        let mut r: Vec<TileCoord> = Vec::new();
        let mut i: usize = 0;
        while i < rows.len()
            invariant
                rows@ == self.rows@,
                i <= rows@.len(),
                r@ == coords_with_status(rows@.subrange(0, i as int), TileStatus::Failed),
            decreases rows@.len() - i,
        {
            proof {
                lemma_coords_with_status_step(rows@, i as int, TileStatus::Failed);
            }
            let row = &rows[i];
            if matches!(row.status, TileStatus::Failed) {
                r.push(row.coord);
                assert(r@ =~= coords_with_status(
                    rows@.subrange(0, i as int + 1),
                    TileStatus::Failed,
                ));
            } else {
                assert(r@ =~= coords_with_status(
                    rows@.subrange(0, i as int + 1),
                    TileStatus::Failed,
                ));
            }
            i = i + 1;
        }
        proof {
            assert(rows@.subrange(0, rows@.len() as int) =~= rows@);
            lemma_coords_with_status_len(self.rows@, TileStatus::Failed);
        }
        r
    }

    /// Marks one tile completed, stamping when it was downloaded.  Every
    /// other row is left exactly as it was.
    pub fn mark_tile_completed(&mut self, coord: &TileCoord, downloaded_at: String)
        ensures
            final(self).rows@.len() == old(self).rows@.len(),
            forall|j: int|
                0 <= j < old(self).rows@.len() && (#[trigger] old(self).rows@[j]).coord != *coord
                    ==> final(self).rows@[j] == old(self).rows@[j],
            forall|j: int|
                0 <= j < old(self).rows@.len() && (#[trigger] old(self).rows@[j]).coord == *coord
                    ==> final(self).rows@[j] == (TileProgressRow {
                    status: TileStatus::Completed,
                    downloaded_at: Some(downloaded_at),
                    ..old(self).rows@[j]
                }),
            old(self).wf() ==> final(self).wf(),
    {
        let n = self.rows.len();
        let mut i: usize = 0;
        while i < n
            invariant
                n == old(self).rows@.len(),
                i <= n,
                self.rows@.len() == n,
                forall|j: int|
                    0 <= j < n && (#[trigger] old(self).rows@[j]).coord != *coord ==> self.rows@[j] == old(self).rows@[j],
                forall|j: int|
                    i <= j < n ==> self.rows@[j] == old(self).rows@[j],
                forall|j: int|
                    0 <= j < i && (#[trigger] old(self).rows@[j]).coord == *coord ==> self.rows@[j] == (TileProgressRow {
                        status: TileStatus::Completed,
                        downloaded_at: Some(downloaded_at),
                        ..old(self).rows@[j]
                    }),
            decreases n - i,
        {
            let same = {
                let row = &self.rows[i];
                row.coord.z == coord.z && row.coord.x == coord.x && row.coord.y == coord.y
            };
            if same {
                let new_row = {
                    let row = &self.rows[i];
                    TileProgressRow {
                        coord: row.coord,
                        status: TileStatus::Completed,
                        retry_count: row.retry_count,
                        error_message: clone_opt_string(&row.error_message),
                        downloaded_at: Some(downloaded_at.clone()),
                    }
                };
                self.rows.set(i, new_row);
            }
            i = i + 1;
        }
        proof {
            lemma_same_coords_wf(old(self).rows@, self.rows@);
        }
    }

    /// Marks one tile failed with its error, counting the attempt.  Every
    /// other row is left exactly as it was.
    pub fn mark_tile_failed(&mut self, coord: &TileCoord, error: String)
        ensures
            final(self).rows@.len() == old(self).rows@.len(),
            forall|j: int|
                0 <= j < old(self).rows@.len() && (#[trigger] old(self).rows@[j]).coord != *coord
                    ==> final(self).rows@[j] == old(self).rows@[j],
            forall|j: int|
                0 <= j < old(self).rows@.len() && (#[trigger] old(self).rows@[j]).coord == *coord
                    ==> final(self).rows@[j] == (TileProgressRow {
                    status: TileStatus::Failed,
                    error_message: Some(error),
                    retry_count: if old(self).rows@[j].retry_count < u32::MAX {
                        (old(self).rows@[j].retry_count + 1) as u32
                    } else {
                        u32::MAX
                    },
                    ..old(self).rows@[j]
                }),
            old(self).wf() ==> final(self).wf(),
    {
        let n = self.rows.len();
        let mut i: usize = 0;
        while i < n
            invariant
                n == old(self).rows@.len(),
                i <= n,
                self.rows@.len() == n,
                forall|j: int|
                    0 <= j < n && (#[trigger] old(self).rows@[j]).coord != *coord ==> self.rows@[j] == old(self).rows@[j],
                forall|j: int|
                    i <= j < n ==> self.rows@[j] == old(self).rows@[j],
                forall|j: int|
                    0 <= j < i && (#[trigger] old(self).rows@[j]).coord == *coord ==> self.rows@[j] == (TileProgressRow {
                        status: TileStatus::Failed,
                        error_message: Some(error),
                        retry_count: if old(self).rows@[j].retry_count < u32::MAX {
                            (old(self).rows@[j].retry_count + 1) as u32
                        } else {
                            u32::MAX
                        },
                        ..old(self).rows@[j]
                    }),
            decreases n - i,
        {
            let same = {
                let row = &self.rows[i];
                row.coord.z == coord.z && row.coord.x == coord.x && row.coord.y == coord.y
            };
            if same {
                let new_row = {
                    let row = &self.rows[i];
                    let bumped = if row.retry_count < u32::MAX {
                        row.retry_count + 1
                    } else {
                        u32::MAX
                    };
                    TileProgressRow {
                        coord: row.coord,
                        status: TileStatus::Failed,
                        retry_count: bumped,
                        error_message: Some(error.clone()),
                        downloaded_at: clone_opt_string(&row.downloaded_at),
                    }
                };
                self.rows.set(i, new_row);
            }
            i = i + 1;
        }
        proof {
            lemma_same_coords_wf(old(self).rows@, self.rows@);
        }
    }

    /// Puts every failed tile back to pending and clears its error; rows
    /// that are pending or completed are untouched, their download stamps
    /// included.  Returns how many rows were reset.
    pub fn reset_failed_tiles(&mut self) -> (n: u64)
        ensures
            n == count_status(old(self).rows@, TileStatus::Failed),
            final(self).rows@.len() == old(self).rows@.len(),
            forall|j: int|
                0 <= j < old(self).rows@.len() && (#[trigger] old(self).rows@[j]).status
                    != TileStatus::Failed ==> final(self).rows@[j] == old(self).rows@[j],
            forall|j: int|
                0 <= j < old(self).rows@.len() && (#[trigger] old(self).rows@[j]).status
                    == TileStatus::Failed ==> final(self).rows@[j] == (TileProgressRow {
                    status: TileStatus::Pending,
                    error_message: None,
                    ..old(self).rows@[j]
                }),
            count_status(final(self).rows@, TileStatus::Completed) == count_status(
                old(self).rows@,
                TileStatus::Completed,
            ),
            count_status(final(self).rows@, TileStatus::Failed) == 0,
            count_status(final(self).rows@, TileStatus::Pending) == count_status(
                old(self).rows@,
                TileStatus::Pending,
            ) + count_status(old(self).rows@, TileStatus::Failed),
            old(self).wf() ==> final(self).wf(),
    {
        let n = self.rows.len();
        let mut count: u64 = 0;
        let mut i: usize = 0;
        while i < n
            invariant
                n == old(self).rows@.len(),
                i <= n,
                self.rows@.len() == n,
                count == count_status(old(self).rows@.subrange(0, i as int), TileStatus::Failed),
                count <= i,
                forall|j: int|
                    i <= j < n ==> self.rows@[j] == old(self).rows@[j],
                forall|j: int|
                    0 <= j < i && (#[trigger] old(self).rows@[j]).status != TileStatus::Failed
                        ==> self.rows@[j] == old(self).rows@[j],
                forall|j: int|
                    0 <= j < i && (#[trigger] old(self).rows@[j]).status == TileStatus::Failed
                        ==> self.rows@[j] == (TileProgressRow {
                        status: TileStatus::Pending,
                        error_message: None,
                        ..old(self).rows@[j]
                    }),
            decreases n - i,
        {
            proof {
                lemma_count_status_step(old(self).rows@, i as int, TileStatus::Failed);
            }
            let is_failed = matches!(self.rows[i].status, TileStatus::Failed);
            if is_failed {
                let new_row = {
                    let row = &self.rows[i];
                    TileProgressRow {
                        coord: row.coord,
                        status: TileStatus::Pending,
                        retry_count: row.retry_count,
                        error_message: None,
                        downloaded_at: clone_opt_string(&row.downloaded_at),
                    }
                };
                self.rows.set(i, new_row);
                count = count + 1;
            }
            i = i + 1;
        }
        proof {
            assert(old(self).rows@.subrange(0, n as int) =~= old(self).rows@);
            lemma_reset_counts(old(self).rows@, self.rows@);
            lemma_same_coords_wf(old(self).rows@, self.rows@);
        }
        count
    }

    /// Counts rows by status: pending, completed, failed.
    pub fn get_tile_stats(&self) -> (r: (u64, u64, u64))
        ensures
            r.0 == count_status(self.rows@, TileStatus::Pending),
            r.1 == count_status(self.rows@, TileStatus::Completed),
            r.2 == count_status(self.rows@, TileStatus::Failed),
            r.0 + r.1 + r.2 == self.rows@.len(),
    {
        let rows = &self.rows;
        let mut pending: u64 = 0;
        let mut completed: u64 = 0;
        let mut failed: u64 = 0;
        let mut i: usize = 0;
        while i < rows.len()
            invariant
                rows@ == self.rows@,
                i <= rows@.len(),
                pending == count_status(rows@.subrange(0, i as int), TileStatus::Pending),
                completed == count_status(rows@.subrange(0, i as int), TileStatus::Completed),
                failed == count_status(rows@.subrange(0, i as int), TileStatus::Failed),
                pending + completed + failed == i,
            decreases rows@.len() - i,
        {
            proof {
                lemma_count_status_step(rows@, i as int, TileStatus::Pending);
                lemma_count_status_step(rows@, i as int, TileStatus::Completed);
                lemma_count_status_step(rows@, i as int, TileStatus::Failed);
            }
            match rows[i].status {
                TileStatus::Pending => {
                    pending = pending + 1;
                },
                TileStatus::Completed => {
                    completed = completed + 1;
                },
                TileStatus::Failed => {
                    failed = failed + 1;
                },
            }
            i = i + 1;
        }
        proof {
            assert(rows@.subrange(0, rows@.len() as int) =~= rows@);
        }
        (pending, completed, failed)
    }
}

/// Rewriting rows in place keeps the coordinate of every row, hence
/// distinctness.
proof fn lemma_same_coords_wf(before: Seq<TileProgressRow>, after: Seq<TileProgressRow>)
    requires
        before.len() == after.len(),
        forall|j: int| 0 <= j < before.len() ==> (#[trigger] after[j]).coord == before[j].coord
            || after[j] == before[j],
    ensures
        (forall|i: int, j: int|
            0 <= i < j < before.len() ==> (#[trigger] before[i]).coord != (
            #[trigger] before[j]).coord) ==> (forall|i: int, j: int|
            0 <= i < j < after.len() ==> (#[trigger] after[i]).coord != (
            #[trigger] after[j]).coord),
{
}

/// A retry reset moves exactly the failed count to pending.
proof fn lemma_reset_counts(before: Seq<TileProgressRow>, after: Seq<TileProgressRow>)
    requires
        before.len() == after.len(),
        forall|j: int|
            0 <= j < before.len() && (#[trigger] before[j]).status != TileStatus::Failed
                ==> after[j] == before[j],
        forall|j: int|
            0 <= j < before.len() && (#[trigger] before[j]).status == TileStatus::Failed
                ==> after[j] == (TileProgressRow { status: TileStatus::Pending, error_message: None, ..before[j] }),
    ensures
        count_status(after, TileStatus::Completed) == count_status(before, TileStatus::Completed),
        count_status(after, TileStatus::Failed) == 0,
        count_status(after, TileStatus::Pending) == count_status(before, TileStatus::Pending)
            + count_status(before, TileStatus::Failed),
    decreases before.len(),
{
    if before.len() > 0 {
        lemma_reset_counts(before.drop_last(), after.drop_last());
        assert(before.drop_last().len() == after.drop_last().len());
        assert(after.last() == if before.last().status == TileStatus::Failed {
            TileProgressRow { status: TileStatus::Pending, error_message: None, ..before.last() }
        } else {
            before.last()
        });
    }
}

} // verus!
