use geocollect::export::{begin_export, csv_escape, push_csv_line, push_sql_line, sql_escape};
use geocollect::progress::{TaskProgress, TileProgressRow};
use geocollect::store::ExportPOI;
use geocollect::tasks::{
    create_tile_task, estimate_tiles, init_progress_for, resume_or_fresh, ProgressSource,
};
use geocollect::tiles::{enumerate_rect, TileRect};
use geocollect::types::{Bounds, TaskConfig, TaskStatus, TileCoord, TileStatus};

fn hundred_tiles() -> Vec<TileCoord> {
    enumerate_rect(&TileRect { z: 10, x_min: 0, x_max: 9, y_min: 0, y_max: 9 })
}

#[test]
fn resumption_never_redownloads() {
    // the resumption rule: pause after some completions, restart, and the
    // completed tiles keep their original download stamps
    let tiles = hundred_tiles();
    let mut progress = TaskProgress::init(&tiles);
    let k = 37;
    for t in tiles.iter().take(k) {
        progress.mark_tile_completed(t, "stamp-one".to_string());
    }
    let (pending, completed, failed) = progress.get_tile_stats();
    assert_eq!((pending, completed, failed), (63, 37, 0));
    // what a restarted run is handed: only pending tiles
    let batch = progress.get_pending_tiles(1000);
    assert_eq!(batch.len(), 63);
    for t in &batch {
        assert!(!tiles[..k].contains(t));
    }
    // the restarted run finishes the rest under a new stamp
    for t in &batch {
        progress.mark_tile_completed(t, "stamp-two".to_string());
    }
    let (pending, completed, failed) = progress.get_tile_stats();
    assert_eq!((pending, completed, failed), (0, 100, 0));
    for (i, row) in progress.rows.iter().enumerate() {
        if i < k {
            assert_eq!(row.downloaded_at.as_deref(), Some("stamp-one"));
        } else {
            assert_eq!(row.downloaded_at.as_deref(), Some("stamp-two"));
        }
    }
}

#[test]
fn pending_batches_respect_the_limit() {
    let tiles = hundred_tiles();
    let progress = TaskProgress::init(&tiles);
    assert_eq!(progress.get_pending_tiles(8).len(), 8);
    assert_eq!(progress.get_pending_tiles(100).len(), 100);
    assert_eq!(progress.get_pending_tiles(1000).len(), 100);
}

#[test]
fn retry_reset_is_exact() {
    // the retry rule: with failures and completions recorded, a reset
    // leaves the completed rows alone and returns every failed row to
    // pending
    let tiles = hundred_tiles();
    let mut progress = TaskProgress::init(&tiles);
    for t in tiles.iter().take(60) {
        progress.mark_tile_completed(t, "stamp".to_string());
    }
    for t in tiles.iter().skip(60).take(25) {
        progress.mark_tile_failed(t, "HTTP 500".to_string());
    }
    let (pending, completed, failed) = progress.get_tile_stats();
    assert_eq!((pending, completed, failed), (15, 60, 25));
    let reset = progress.reset_failed_tiles();
    assert_eq!(reset, 25);
    let (pending, completed, failed) = progress.get_tile_stats();
    assert_eq!((pending, completed, failed), (40, 60, 0));
    for row in progress.rows.iter().take(60) {
        assert_eq!(row.status, TileStatus::Completed);
        assert_eq!(row.downloaded_at.as_deref(), Some("stamp"));
    }
    // the task record goes back to pending and a clean rerun completes it
    assert!(TaskStatus::Completed.transition_allowed(&TaskStatus::Pending));
    let remaining = progress.get_pending_tiles(1000);
    for t in &remaining {
        progress.mark_tile_completed(t, "again".to_string());
    }
    let (_, completed, failed) = progress.get_tile_stats();
    assert_eq!((completed, failed), (100, 0));
}

#[test]
fn counters_partition_the_total() {
    let tiles = hundred_tiles();
    let mut progress = TaskProgress::init(&tiles);
    for (i, t) in tiles.iter().enumerate() {
        if i % 3 == 0 {
            progress.mark_tile_completed(t, "s".to_string());
        } else if i % 3 == 1 {
            progress.mark_tile_failed(t, "e".to_string());
        }
    }
    let (pending, completed, failed) = progress.get_tile_stats();
    assert_eq!(pending + completed + failed, 100);
    assert!(completed + failed <= 100);
}

#[test]
fn failed_rows_count_attempts() {
    let tiles = hundred_tiles();
    let mut progress = TaskProgress::init(&tiles);
    progress.mark_tile_failed(&tiles[0], "first".to_string());
    progress.mark_tile_failed(&tiles[0], "second".to_string());
    let row: &TileProgressRow = &progress.rows[0];
    assert_eq!(row.retry_count, 2);
    assert_eq!(row.error_message.as_deref(), Some("second"));
    let failed = progress.get_failed_tiles();
    assert_eq!(failed, vec![tiles[0]]);
}

#[test]
fn archive_completion_over_small_box() {
    // a small four-tile task: every enumerated tile succeeds once, and
    // the archive entry names are the canonical z/x/y paths
    let rect = TileRect { z: 14, x_min: 13401, x_max: 13402, y_min: 6186, y_max: 6187 };
    let tiles = enumerate_rect(&rect);
    assert_eq!(tiles.len(), 4);
    let mut progress = TaskProgress::init(&tiles);
    let mut entries: Vec<String> = Vec::new();
    for t in progress.get_pending_tiles(100) {
        entries.push(geocollect::storage::format_tile_path(&t));
        progress.mark_tile_completed(&t, "now".to_string());
    }
    let (pending, completed, failed) = progress.get_tile_stats();
    assert_eq!((pending, completed, failed), (0, 4, 0));
    entries.sort();
    assert_eq!(
        entries,
        vec![
            "14/13401/6186.png".to_string(),
            "14/13401/6187.png".to_string(),
            "14/13402/6186.png".to_string(),
            "14/13402/6187.png".to_string(),
        ]
    );
}

#[test]
fn enumeration_opens_a_pending_table() {
    let rects = vec![
        TileRect { z: 3, x_min: 1, x_max: 2, y_min: 1, y_max: 1 },
        TileRect { z: 4, x_min: 0, x_max: 0, y_min: 0, y_max: 1 },
    ];
    let (tiles, progress) = init_progress_for(&rects);
    assert_eq!(tiles.len(), 4);
    assert_eq!(progress.rows.len(), 4);
    for (t, row) in tiles.iter().zip(progress.rows.iter()) {
        assert_eq!(&row.coord, t);
        assert_eq!(row.status, TileStatus::Pending);
        assert!(row.downloaded_at.is_none());
    }
}

#[test]
fn estimates_follow_the_counts() {
    let rects = vec![
        TileRect { z: 12, x_min: 5, x_max: 6, y_min: 7, y_max: 9 },
        TileRect { z: 13, x_min: 0, x_max: 0, y_min: 0, y_max: 0 },
    ];
    let e = estimate_tiles(&rects);
    assert_eq!(e.total_tiles, 7);
    assert_eq!(e.tiles_per_level, vec![(12, 6), (13, 1)]);
    assert_eq!(e.estimated_size_mb, 7 * 20 / 1024);
}

fn config(name: &str, zooms: Vec<u32>, bounds: Bounds) -> TaskConfig {
    TaskConfig {
        name: name.to_string(),
        platform: "osm".to_string(),
        map_type: "street".to_string(),
        bounds,
        zoom_levels: zooms,
        output_path: "out".to_string(),
        output_format: "zip".to_string(),
        thread_count: 2,
        retry_count: 0,
        api_key: None,
    }
}

#[test]
fn task_creation_validations() {
    let good_bounds = Bounds {
        north_e7: 399500000,
        south_e7: 399000000,
        east_e7: 1164500000,
        west_e7: 1164000000,
    };
    let rects = vec![TileRect { z: 14, x_min: 13401, x_max: 13402, y_min: 6186, y_max: 6187 }];
    let bad_bounds = Bounds { north_e7: 0, south_e7: 1, east_e7: 2, west_e7: 3 };
    assert!(create_tile_task(&config("t", vec![14], bad_bounds), &rects).is_err());
    assert!(create_tile_task(&config("t", vec![], good_bounds), &rects).is_err());
    assert!(create_tile_task(&config("   ", vec![14], good_bounds), &rects).is_err());
    let task = create_tile_task(&config("北京角落", vec![14], good_bounds), &rects).unwrap();
    assert_eq!(task.id.len(), 36);
    assert_eq!(task.status, TaskStatus::Pending);
    assert_eq!(task.total_tiles, 4);
    assert_eq!(task.completed_tiles, 0);
    assert_eq!(task.failed_tiles, 0);
    assert_eq!(task.created_at, task.updated_at);
    assert!(!task.created_at.is_empty());
    // identifiers are fresh per task
    let again = create_tile_task(&config("北京角落", vec![14], good_bounds), &rects).unwrap();
    assert_ne!(task.id, again.id);
}

#[test]
fn start_decision_by_stored_rows() {
    assert_eq!(resume_or_fresh(0), ProgressSource::Fresh);
    assert_eq!(resume_or_fresh(1), ProgressSource::Resume);
    assert_eq!(resume_or_fresh(100), ProgressSource::Resume);
}

#[test]
fn sql_line_layout() {
    let poi = geocollect::store::ExportPOI {
        id: 7,
        name: "张记's".to_string(),
        lon_e7: 1201000000,
        lat_e7: 302000000,
        address: "某路".to_string(),
        phone: "".to_string(),
        category: "商业".to_string(),
        platform: "amap".to_string(),
        region_code: "".to_string(),
    };
    let mut out: Vec<u8> = Vec::new();
    push_sql_line(&mut out, &poi);
    let text = String::from_utf8(out).unwrap();
    assert_eq!(
        text,
        "INSERT INTO poi_data (id, name, lon, lat, address, phone, category, platform) \
         VALUES (7, '张记''s', 120.1, 30.2, '某路', '', '商业', 'amap');\n"
    );
}

#[test]
fn csv_and_sql_escaping() {
    assert_eq!(csv_escape(b"he said \"hi\""), b"he said \"\"hi\"\"");
    assert_eq!(sql_escape(b"it's"), b"it''s");
    assert_eq!(csv_escape(b"plain"), b"plain");
}

#[test]
fn csv_line_layout() {
    let mut out = begin_export();
    assert_eq!(&out[..3], &[0xef, 0xbb, 0xbf]);
    let poi = ExportPOI {
        id: 7,
        name: "老\"字\"号".to_string(),
        lon_e7: 1201000000,
        lat_e7: 302000000,
        address: "某路1号".to_string(),
        phone: "".to_string(),
        category: "商业".to_string(),
        platform: "amap".to_string(),
        region_code: "320900".to_string(),
    };
    push_csv_line(&mut out, &poi);
    let text = String::from_utf8(out[3..].to_vec()).unwrap();
    assert_eq!(text, "7,\"老\"\"字\"\"号\",120.1,30.2,\"某路1号\",\"\",\"商业\",amap\n");
}
