//! Task creation and size estimation for the tile downloader.

use vstd::prelude::*;
use crate::progress::TaskProgress;
use crate::text::str_is_blank;
use crate::tiles::{calculate_tiles, coords_of, rects_wf, TileRect};
use crate::types::{TaskConfig, TaskInfo, TaskStatus, TileCoord, TileEstimate};

verus! {

use vstd::string::StringSliceAdditionalSpecFns;

/// Relies on `uuid::Uuid::new_v4` and its hyphenated rendering through
/// `Display`: a fresh random identifier of thirty-six characters.
#[verifier::external_body]
fn new_task_id() -> (r: String)
    ensures
        r@.len() == 36,
{
    uuid::Uuid::new_v4().to_string()
}

/// Relies on `chrono::Utc::now` and `DateTime::to_rfc3339` for the current
/// wall-clock timestamp; nothing is promised of the clock's reading.
#[verifier::external_body]
fn now_rfc3339() -> (r: String) {
    chrono::Utc::now().to_rfc3339()
}

/// Sum of the tile counts of a rectangle list.
pub open spec fn total_count(rects: Seq<TileRect>) -> nat
    decreases rects.len(),
{
    if rects.len() == 0 {
        0
    } else {
        total_count(rects.drop_last()) + rects.last().count()
    }
}

/// The listing of a rectangle list is as long as its counts say.
pub proof fn lemma_total_count(rects: Seq<TileRect>)
    ensures
        coords_of(rects).len() == total_count(rects),
    decreases rects.len(),
{
    if rects.len() > 0 {
        lemma_total_count(rects.drop_last());
    }
}

/// Predicts the tile count per zoom level and in total, and the output
/// size at twenty kilobytes a tile.
pub fn estimate_tiles(rects: &Vec<TileRect>) -> (r: TileEstimate)
    requires
        rects_wf(rects@),
        rects@.len() <= 23,
    ensures
        r.total_tiles == total_count(rects@),
        r.tiles_per_level@.len() == rects@.len(),
        forall|i: int|
            0 <= i < rects@.len() ==> (#[trigger] r.tiles_per_level@[i]).0 == rects@[i].z && r.tiles_per_level@[i].1 == rects@[i].count(),
        r.estimated_size_mb == total_count(rects@) * 20 / 1024,
{
    let mut total: u64 = 0;
    let mut tiles_per_level: Vec<(u32, u64)> = Vec::new();
    let n = rects.len();
    let mut i: usize = 0;
    while i < n
        invariant
            rects_wf(rects@),
            n == rects@.len(),
            n <= 23,
            i <= n,
            total == total_count(rects@.subrange(0, i as int)),
            total <= i * 0x100000000000,
            tiles_per_level@.len() == i,
            forall|j: int|
                0 <= j < i ==> (#[trigger] tiles_per_level@[j]).0 == rects@[j].z
                    && tiles_per_level@[j].1 == rects@[j].count(),
        decreases n - i,
    {
        proof {
            assert(rects@.subrange(0, i as int + 1).drop_last() =~= rects@.subrange(
                0,
                i as int,
            ));
            assert(rects@.subrange(0, i as int + 1).last() == rects@[i as int]);
            crate::tiles::lemma_rect_count_bound(rects@[i as int]);
        }
        let count = rects[i].count_u64();
        tiles_per_level.push((rects[i].z, count));
        total = total + count;
        i = i + 1;
    }
    proof {
        assert(rects@.subrange(0, n as int) =~= rects@);
    }
    let estimated_size_mb = total * 20 / 1024;
    TileEstimate { total_tiles: total, tiles_per_level, estimated_size_mb }
}

/// Where a starting task's progress comes from.
#[derive(Debug, Clone, Copy, PartialEq, Eq, Structural)]
pub enum ProgressSource {
    /// No rows are stored yet: enumerate the tiles and write the table.
    Fresh,
    /// Rows are stored from an earlier run: reuse them unchanged.
    Resume,
}

/// The start-up decision: a task with no stored progress rows is new and
/// enumerates afresh; one with rows is resuming and skips that step.
pub fn resume_or_fresh(stored_rows: usize) -> (r: ProgressSource)
    ensures
        r == ProgressSource::Fresh <==> stored_rows == 0,
{
    if stored_rows == 0 {
        ProgressSource::Fresh
    } else {
        ProgressSource::Resume
    }
}

/// Enumerates a task's tiles and opens its progress table in one step:
/// the listing is duplicate-free, so the table holds one pending row per
/// tile, in enumeration order.
pub fn init_progress_for(rects: &Vec<TileRect>) -> (r: (Vec<TileCoord>, TaskProgress))
    requires
        rects_wf(rects@),
    ensures
        r.0@ == coords_of(rects@),
        r.1.wf(),
        r.1.rows@.len() == coords_of(rects@).len(),
        forall|i: int|
            0 <= i < r.1.rows@.len() ==> (#[trigger] r.1.rows@[i]).coord == coords_of(rects@)[i]
                && r.1.rows@[i].status == crate::types::TileStatus::Pending,
{
    let tiles = calculate_tiles(rects);
    proof {
        assert forall|i: int, j: int| 0 <= i < j < tiles@.len() implies tiles@[i] != tiles@[
        j] by {
            crate::tiles::lemma_coords_of_distinct(rects@, i, j);
        }
    }
    let progress = TaskProgress::init(&tiles);
    (tiles, progress)
}

/// Validates a task request and mints the stored task record: a blank
/// name, an invalid box or an empty zoom list is refused with its message;
/// otherwise the record starts pending with nothing downloaded and a fresh
/// identifier.
pub fn create_tile_task(config: &TaskConfig, rects: &Vec<TileRect>) -> (r: Result<
    TaskInfo,
    String,
>)
    requires
        rects_wf(rects@),
        rects@.len() <= 23,
    ensures
        !config.bounds.spec_valid() ==> r is Err,
        config.bounds.spec_valid() && config.zoom_levels@.len() == 0 ==> r is Err,
        config.bounds.spec_valid() && config.zoom_levels@.len() > 0 && crate::text::is_blank_bytes(
            vstd::utf8::encode_utf8(config.name@),
        ) ==> r is Err,
        config.bounds.spec_valid() && config.zoom_levels@.len() > 0
            && !crate::text::is_blank_bytes(vstd::utf8::encode_utf8(config.name@)) ==> (r matches Ok(task) && {
            &&& task.id@.len() == 36
            &&& task.name == config.name
            &&& task.platform == config.platform
            &&& task.map_type == config.map_type
            &&& task.bounds == config.bounds
            &&& task.zoom_levels@ == config.zoom_levels@
            &&& task.status == TaskStatus::Pending
            &&& task.total_tiles == total_count(rects@)
            &&& task.completed_tiles == 0
            &&& task.failed_tiles == 0
            &&& task.output_path == config.output_path
            &&& task.output_format == config.output_format
            &&& task.thread_count == config.thread_count
            &&& task.retry_count == config.retry_count
            &&& task.created_at == task.updated_at
        }),
{
    if !config.bounds.is_valid() {
        return Err("invalid bounds".to_owned());
    }
    if config.zoom_levels.len() == 0 {
        return Err("select at least one zoom level".to_owned());
    }
    if str_is_blank(config.name.as_str()) {
        return Err("task name is empty".to_owned());
    }
    let estimate = estimate_tiles(rects);
    let id = new_task_id();
    let created_at = now_rfc3339();
    let zoom_levels = config.zoom_levels.clone();
    proof {
        assert(zoom_levels@ =~= config.zoom_levels@) by {
            assert forall|i: int| 0 <= i < config.zoom_levels@.len() implies zoom_levels@[i]
                == config.zoom_levels@[i] by {
                assert(cloned::<u32>(config.zoom_levels[i], zoom_levels[i]));
            }
        }
    }
    let api_key = match &config.api_key {
        Some(k) => Some(k.clone()),
        None => None,
    };
    Ok(
        TaskInfo {
            id,
            name: config.name.clone(),
            platform: config.platform.clone(),
            map_type: config.map_type.clone(),
            bounds: config.bounds,
            zoom_levels,
            status: TaskStatus::Pending,
            total_tiles: estimate.total_tiles,
            completed_tiles: 0,
            failed_tiles: 0,
            output_path: config.output_path.clone(),
            output_format: config.output_format.clone(),
            thread_count: config.thread_count,
            retry_count: config.retry_count,
            api_key,
            created_at: created_at.clone(),
            updated_at: created_at,
            completed_at: None,
            error_message: None,
            download_speed_milli: 0,
        },
    )
}

} // verus!
