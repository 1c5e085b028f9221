use geocollect::convert::{conversion_supported, coord_to_mbtiles_row, mbtiles_row_to_coord};
use geocollect::downloader::{
    clamp_workers, select_batch, should_finish, tile_attempt_action, DownloaderState,
    TileAction, TileDownloader, TileOutcome,
};
use geocollect::platforms::{
    AmapPlatform, ArcGisPlatform, BaiduPlatform, BingPlatform, GooglePlatform, OsmPlatform,
    TencentPlatform, TiandituPlatform, TilePlatform, create_platform, get_all_platforms,
};
use geocollect::storage::{format_tile_path, mbtiles_metadata, mbtiles_tile_row, parse_tile_path};
use geocollect::tiles::{
    backoff_delay_ms, calculate_tiles, enumerate_rect, lon_to_tile_x, subdomain_index,
    tiles_per_axis, tms_flip, TileRect,
};
use geocollect::types::{Bounds, MapType, OutputFormat, TaskStatus, TileCoord};

/// The column and row ranges of a box at one zoom, by the Mercator
/// formulas; the row side needs the transcendental projection, computed
/// here in floating point as the host does it.
fn rect_for(north: f64, south: f64, east: f64, west: f64, z: u32) -> TileRect {
    let n = (1u64 << z) as f64;
    let y_of = |lat: f64| -> u32 {
        let r = (1.0 - (lat.to_radians().tan().asinh()) / std::f64::consts::PI) / 2.0 * n;
        let v = r.floor() as i64;
        let max = (1u64 << z) as i64 - 1;
        v.clamp(0, max) as u32
    };
    let x_min = lon_to_tile_x((west * 1e7) as i64, z);
    let x_max_raw = lon_to_tile_x((east * 1e7) as i64, z);
    let max = (1u64 << z) as u32 - 1;
    TileRect {
        z,
        x_min,
        x_max: x_max_raw.min(max),
        y_min: y_of(north),
        y_max: y_of(south).min(max),
    }
}

#[test]
fn tile_enumeration_matches_formula() {
    // a small box near the capital, at zoom fourteen
    let rect = rect_for(39.95, 39.90, 116.45, 116.40, 14);
    let tiles = enumerate_rect(&rect);
    let expected = ((rect.x_max - rect.x_min + 1) as usize) * ((rect.y_max - rect.y_min + 1)
        as usize);
    assert_eq!(tiles.len(), expected);
    for t in &tiles {
        assert_eq!(t.z, 14);
        assert!(rect.x_min <= t.x && t.x <= rect.x_max);
        assert!(rect.y_min <= t.y && t.y <= rect.y_max);
        assert!((t.x as u64) < (1u64 << 14));
        assert!((t.y as u64) < (1u64 << 14));
    }
    // every cell of the rectangle appears exactly once
    let mut seen = vec![false; expected];
    let h = (rect.y_max - rect.y_min + 1) as usize;
    for t in &tiles {
        let idx = ((t.x - rect.x_min) as usize) * h + ((t.y - rect.y_min) as usize);
        assert!(!seen[idx]);
        seen[idx] = true;
    }
    assert!(seen.iter().all(|b| *b));
}

#[test]
fn tile_enumeration_multi_zoom() {
    let r1 = TileRect { z: 2, x_min: 0, x_max: 1, y_min: 0, y_max: 2 };
    let r2 = TileRect { z: 3, x_min: 4, x_max: 4, y_min: 1, y_max: 1 };
    let tiles = calculate_tiles(&vec![r1, r2]);
    assert_eq!(tiles.len(), 6 + 1);
    assert_eq!(tiles[6], TileCoord { z: 3, x: 4, y: 1 });
}

#[test]
fn tms_flip_round_trip() {
    for z in [1u32, 5, 10, 18] {
        let n = 1u64 << z;
        for y in [0u64, 1, n / 2, n - 1] {
            let y = y as u32;
            assert_eq!(tms_flip(z, tms_flip(z, y)), y);
        }
    }
}

#[test]
fn mbtiles_row_flip() {
    // the stored row is counted from the bottom: (1<<10) - 1 - 300 = 723
    let c = TileCoord { z: 10, x: 500, y: 300 };
    assert_eq!(mbtiles_tile_row(&c), 723);
    assert_eq!(coord_to_mbtiles_row(&c), 723);
    let back = mbtiles_row_to_coord(10, 500, 723);
    assert_eq!(back, c);
}

#[test]
fn quadkey_encoding() {
    let bing = BingPlatform::new();
    assert_eq!(bing.tile_to_quadkey(3, 3, 5), "213");
    assert_eq!(bing.tile_to_quadkey(1, 0, 0), "0");
    assert_eq!(bing.tile_to_quadkey(2, 3, 3), "33");
}

#[test]
fn quadkey_in_bing_url() {
    let bing = BingPlatform::new();
    let url = bing.get_tile_url(3, 3, 5, &MapType::Street).unwrap();
    // subdomain index is (3+5) % 4 == 0
    assert_eq!(url, "http://ecn.t0.tiles.virtualearth.net/tiles/r213.png?g=587");
    assert!(bing.get_tile_url(3, 3, 5, &MapType::Terrain).is_none());
}

#[test]
fn google_url_format() {
    let g = GooglePlatform::new();
    let url = g.get_tile_url(14, 13400, 6200, &MapType::Satellite).unwrap();
    // subdomain index is (13400+6200) % 4 == 0
    assert_eq!(url, "https://mt0.google.com/vt/lyrs=s&x=13400&y=6200&z=14");
    assert!(g.get_tile_url(14, 13400, 6200, &MapType::Roadnet).is_none());
}

#[test]
fn osm_url_format() {
    let o = OsmPlatform::new();
    let url = o.get_tile_url(14, 13402, 6187, &MapType::Street).unwrap();
    // subdomain index is (13402+6187) % 3 == 2, mirror "c"
    assert_eq!(url, "https://c.tile.openstreetmap.org/14/13402/6187.png");
    assert!(o.get_tile_url(14, 13402, 6187, &MapType::Satellite).is_none());
}

#[test]
fn arcgis_url_swaps_row_and_column() {
    let a = ArcGisPlatform::new();
    let url = a.get_tile_url(5, 10, 20, &MapType::Terrain).unwrap();
    assert_eq!(
        url,
        "https://server.arcgisonline.com/ArcGIS/rest/services/World_Topo_Map/MapServer/tile/5/20/10"
    );
}

#[test]
fn baidu_url_uses_centred_grid() {
    let b = BaiduPlatform::new();
    // centre of zoom four is eight: column 3 - 8 = -5, row 8 - 1 - 2 = 5
    let (bx, by) = b.convert_tile_coord(4, 3, 2);
    assert_eq!((bx, by), (-5, 5));
    let url = b.get_tile_url(4, 3, 2, &MapType::Street).unwrap();
    // subdomain index is (3+2) % 4 == 1
    assert_eq!(
        url,
        "http://online1.map.bdimg.com/onlinelabel/?qt=tile&x=-5&y=5&z=4&styles=pl&udt=20200101&scaler=1&p=1"
    );
}

#[test]
fn tencent_url_flips_rows() {
    let t = TencentPlatform::new();
    assert_eq!(t.flip_y(4, 2), 13);
    let url = t.get_tile_url(4, 3, 2, &MapType::Satellite).unwrap();
    // flipped row 13, block coordinates 3/16 = 0 and 13/16 = 0
    assert_eq!(url, "http://p1.map.gtimg.com/sateTiles/4/0/0/3_13.jpg");
}

#[test]
fn tianditu_url_needs_key() {
    let mut t = TiandituPlatform::new();
    assert!(t.get_tile_url(5, 10, 20, &MapType::Street).is_none());
    t.set_api_key("SECRET-REDACTED");
    let url = t.get_tile_url(5, 10, 20, &MapType::Street).unwrap();
    assert!(url.starts_with("http://t"));
    assert!(url.contains("LAYER=vec"));
    assert!(url.contains("TILECOL=10&TILEROW=20&TILEMATRIX=5"));
    assert!(url.ends_with("&tk=SECRET-REDACTED"));
}

#[test]
fn platform_registry() {
    let infos = get_all_platforms();
    assert_eq!(infos.len(), 8);
    assert_eq!(infos[0].id, "google");
    assert!(infos.iter().any(|i| i.id == "tianditu" && i.requires_key));
    let p = create_platform("BING", None);
    assert_eq!(p.id(), "bing");
    let fallback = create_platform("nonsense", None);
    assert_eq!(fallback.id(), "osm");
}

#[test]
fn subdomain_rotation() {
    assert_eq!(subdomain_index(13401, 6186, 4), (13401u64 + 6186) as usize % 4);
    assert_eq!(subdomain_index(0, 0, 3), 0);
}

#[test]
fn backoff_schedule() {
    assert_eq!(backoff_delay_ms(0), 1000);
    assert_eq!(backoff_delay_ms(1), 2000);
    assert_eq!(backoff_delay_ms(2), 4000);
    assert_eq!(backoff_delay_ms(4), 16000);
    assert_eq!(backoff_delay_ms(9), 16000);
}

#[test]
fn attempt_decisions() {
    assert_eq!(tile_attempt_action(&TileOutcome::Saved, 0, 3), TileAction::Complete);
    assert!(matches!(
        tile_attempt_action(&TileOutcome::Unsupported, 0, 3),
        TileAction::Fail(_)
    ));
    assert!(matches!(
        tile_attempt_action(&TileOutcome::ClientError(404), 0, 3),
        TileAction::Fail(_)
    ));
    assert_eq!(
        tile_attempt_action(&TileOutcome::ServerError(500), 0, 3),
        TileAction::Retry { delay_ms: 2000 }
    );
    assert_eq!(
        tile_attempt_action(&TileOutcome::Transport("timeout".to_string()), 2, 3),
        TileAction::Retry { delay_ms: 8000 }
    );
    assert!(matches!(
        tile_attempt_action(&TileOutcome::ServerError(502), 3, 3),
        TileAction::Fail(_)
    ));
}

#[test]
fn worker_count_clamped() {
    assert_eq!(clamp_workers(0), 1);
    assert_eq!(clamp_workers(8), 8);
    assert_eq!(clamp_workers(99), 32);
}

#[test]
fn batch_and_finish_rules() {
    let pending = vec![
        TileCoord { z: 1, x: 0, y: 0 },
        TileCoord { z: 1, x: 0, y: 1 },
        TileCoord { z: 1, x: 1, y: 0 },
    ];
    let batch = select_batch(&pending, 2);
    assert_eq!(batch.len(), 2);
    assert_eq!(batch[0], pending[0]);
    assert_eq!(batch[1], pending[1]);
    assert!(!should_finish(false, 3, 0, 4));
    assert!(!should_finish(true, 3, 0, 4));
    assert!(should_finish(true, 3, 1, 4));
    assert!(should_finish(true, 4, 0, 4));
}

#[test]
fn downloader_state_tracking() {
    let mut d = TileDownloader::new();
    d.create_state("task-a", 4);
    let s = d.get_state("task-a").unwrap();
    assert!(!s.is_running && !s.is_paused);
    assert_eq!(s.thread_count, 4);
    assert!(d.pause("task-a"));
    assert!(d.get_state("task-a").unwrap().is_paused);
    assert!(d.resume("task-a"));
    assert!(!d.get_state("task-a").unwrap().is_paused);
    assert!(d.set_thread_count("task-a", 64));
    assert_eq!(d.get_state("task-a").unwrap().thread_count, 32);
    assert!(d.stop("task-a"));
    assert!(!d.get_state("task-a").unwrap().is_running);
    d.remove_state("task-a");
    assert!(d.get_state("task-a").is_none());
    assert!(!d.pause("task-b"));
}

#[test]
fn progress_counters_monotonic() {
    let mut s = DownloaderState::new(4);
    let before = s.completed;
    s.record_completed();
    s.record_completed();
    s.record_failed();
    assert!(s.completed > before);
    assert_eq!(s.completed, 2);
    assert_eq!(s.failed, 1);
}

#[test]
fn tile_path_parse_is_exact() {
    // only canonical renderings parse back
    assert_eq!(parse_tile_path("007/1/2.png"), None);
    assert_eq!(parse_tile_path("7/1/2.jpg"), None);
    assert_eq!(parse_tile_path("7/1.png"), None);
    assert_eq!(
        parse_tile_path("0/0/0.png"),
        Some(TileCoord { z: 0, x: 0, y: 0 })
    );
}

#[test]
fn created_platform_carries_its_key() {
    let p = create_platform("tianditu", Some("SECRET-REDACTED"));
    let url = p.get_tile_url(5, 10, 20, &MapType::Street).unwrap();
    assert!(url.ends_with("&tk=SECRET-REDACTED"));
    let bare = create_platform("tianditu", None);
    assert!(bare.get_tile_url(5, 10, 20, &MapType::Street).is_none());
}

#[test]
fn tile_path_round_trip() {
    let c = TileCoord { z: 14, x: 13402, y: 6187 };
    let path = format_tile_path(&c);
    assert_eq!(path, "14/13402/6187.png");
    assert_eq!(parse_tile_path(&path), Some(c));
    assert_eq!(parse_tile_path("nonsense"), None);
    assert_eq!(parse_tile_path("1/2/3.jpg"), None);
}

#[test]
fn task_state_machine() {
    assert!(TaskStatus::Pending.transition_allowed(&TaskStatus::Downloading));
    assert!(TaskStatus::Downloading.transition_allowed(&TaskStatus::Paused));
    assert!(TaskStatus::Paused.transition_allowed(&TaskStatus::Downloading));
    assert!(TaskStatus::Downloading.transition_allowed(&TaskStatus::Completed));
    assert!(TaskStatus::Downloading.transition_allowed(&TaskStatus::Cancelled));
    assert!(TaskStatus::Completed.transition_allowed(&TaskStatus::Pending));
    assert!(TaskStatus::Failed.transition_allowed(&TaskStatus::Pending));
    assert!(!TaskStatus::Pending.transition_allowed(&TaskStatus::Completed));
    assert!(!TaskStatus::Cancelled.transition_allowed(&TaskStatus::Downloading));
    assert_eq!(TaskStatus::from("downloading").to_string(), "downloading");
    assert_eq!(TaskStatus::from("unheard-of").to_string(), "pending");
}

#[test]
fn format_tags_fold_case() {
    assert_eq!(OutputFormat::from("MBTiles").to_string(), "mbtiles");
    assert_eq!(OutputFormat::from("ZIP").to_string(), "zip");
    assert_eq!(OutputFormat::from("whatever").to_string(), "folder");
}

#[test]
fn conversion_pairs() {
    assert!(conversion_supported(&OutputFormat::Zip, &OutputFormat::Folder));
    assert!(conversion_supported(&OutputFormat::Zip, &OutputFormat::Mbtiles));
    assert!(conversion_supported(&OutputFormat::Mbtiles, &OutputFormat::Folder));
    assert!(conversion_supported(&OutputFormat::Mbtiles, &OutputFormat::Zip));
    assert!(!conversion_supported(&OutputFormat::Folder, &OutputFormat::Zip));
    assert!(!conversion_supported(&OutputFormat::Zip, &OutputFormat::Zip));
}

#[test]
fn metadata_rows() {
    let b = Bounds { north_e7: 399500000, south_e7: 399000000, east_e7: 1164500000, west_e7: 1164000000 };
    let rows = mbtiles_metadata(&b, &vec![12u32, 14, 13]);
    assert_eq!(rows.len(), 9);
    assert_eq!(rows[1], ("type".to_string(), "baselayer".to_string()));
    assert_eq!(rows[5].1, "116.4,39.9,116.45,39.95");
    assert_eq!(rows[6].1, "116.425,39.925,12");
    assert_eq!(rows[7].1, "12");
    assert_eq!(rows[8].1, "14");
}

#[test]
fn column_formula_exact() {
    // floor((116.40 + 180) / 360 * 2^14) == 13489
    assert_eq!(lon_to_tile_x(1164000000, 14), 13489);
    assert_eq!(lon_to_tile_x(-1800000000, 14), 0);
    assert_eq!(lon_to_tile_x(1800000000, 14), 16384);
    assert_eq!(lon_to_tile_x(0, 1), 1);
}

#[test]
fn axis_sizes() {
    assert_eq!(tiles_per_axis(0), 1);
    assert_eq!(tiles_per_axis(14), 16384);
}
