use geocollect::categories::default_categories;
use geocollect::collectors::{
    AmapCollector, BaiduCollector, Bounds, CandidatePoi, OsmCollector, OsmElement, RegionConfig,
    SearchError, TianDiTuCollector, build_overpass_query, classify_http_status,
    get_osm_category, has_more_pages, json_escape,
};
use geocollect::coords::{bounds_of_points, gcj02_to_wgs84, out_of_china, parse_lonlat, DatumShift};
use geocollect::engine::{CollectorAction, CollectorPhase, CollectorRun};
use geocollect::store::{select_active_key, Database, SearchMode};
use geocollect::text::{e7_to_string, parse_e7, parse_u32};

fn test_region() -> RegionConfig {
    RegionConfig {
        name: "测试区".to_string(),
        admin_code: "320900".to_string(),
        city_code: "320900".to_string(),
        bounds: Bounds {
            min_lon_e7: 730000000,
            max_lon_e7: 1350000000,
            min_lat_e7: 180000000,
            max_lat_e7: 540000000,
        },
    }
}

fn candidate(name: &str, lon_e7: i64, lat_e7: i64) -> CandidatePoi {
    CandidatePoi {
        name: name.to_string(),
        wgs_lon_e7: lon_e7,
        wgs_lat_e7: lat_e7,
        original_lon_e7: lon_e7,
        original_lat_e7: lat_e7,
        address: "某地".to_string(),
        phone: String::new(),
        raw_data: "{}".to_string(),
    }
}

#[test]
fn datum_identity_outside_envelope() {
    // London: well outside the national envelope, so the shift never applies
    let shift = DatumShift { dlon_e7: 50000, dlat_e7: -30000 };
    let (lon, lat) = gcj02_to_wgs84(-1275000, 515000000, shift);
    assert_eq!((lon, lat), (-1275000, 515000000));
    assert!(out_of_china(-1275000, 515000000));
    // a point inside the envelope moves by exactly the shift
    assert!(!out_of_china(1201000000, 302000000));
    let (lon2, lat2) = gcj02_to_wgs84(1201000000, 302000000, shift);
    assert_eq!((lon2, lat2), (1201000000 - 50000, 302000000 + 30000));
}

#[test]
fn lonlat_parsing() {
    assert_eq!(parse_lonlat("120.1,30.2"), Some((1201000000, 302000000)));
    assert_eq!(parse_lonlat("-73.5,-41.25"), Some((-735000000, -412500000)));
    assert_eq!(parse_lonlat("116.3974560,39.9086920"), Some((1163974560, 399086920)));
    assert_eq!(parse_lonlat("garbage"), None);
    assert_eq!(parse_lonlat("1,2,3"), None);
    assert_eq!(parse_lonlat(""), None);
}

#[test]
fn poi_dedup_keeps_one_row() {
    let mut db = Database::new();
    let first = db.insert_poi("X", 1201000000, 302000000, 1201000000, 302000000, "", "", "", "", "a", "", "{}");
    let second = db.insert_poi("X", 1201000000, 302000000, 1201000000, 302000000, "", "", "", "", "a", "", "{}");
    let third = db.insert_poi("X", 1201000000, 302000000, 1201000000, 302000000, "", "", "", "", "a", "", "{}");
    assert!(first);
    assert!(!second);
    assert!(!third);
    let stats = db.get_stats();
    assert_eq!(stats.total, 1);
    let by_platform: Vec<_> = stats.by_platform;
    let entry = by_platform.iter().find(|(p, _)| p == "a").unwrap();
    assert_eq!(entry.1, 1);
}

#[test]
fn poi_same_name_different_spot_is_kept() {
    let mut db = Database::new();
    assert!(db.insert_poi("X", 1, 2, 1, 2, "", "", "", "", "a", "", ""));
    assert!(db.insert_poi("X", 1, 3, 1, 3, "", "", "", "", "a", "", ""));
    assert!(db.insert_poi("X", 1, 2, 1, 2, "", "", "", "", "b", "", ""));
    assert_eq!(db.get_stats().total, 3);
}

#[test]
fn search_modes() {
    let mut db = Database::new();
    db.insert_poi("阜宁饭店", 1, 2, 1, 2, "", "", "人民路1号", "", "a", "", "");
    db.insert_poi("宁海超市", 3, 4, 3, 4, "", "", "宁海路9号", "", "b", "", "");
    let exact = db.search_poi("阜宁饭店", None, "exact", 10);
    assert_eq!(exact.len(), 1);
    assert_eq!(exact[0].name, "阜宁饭店");
    let prefix = db.search_poi("宁海", None, "prefix", 10);
    assert_eq!(prefix.len(), 1);
    assert_eq!(prefix[0].name, "宁海超市");
    let contains = db.search_poi("宁", None, "contains", 10);
    assert_eq!(contains.len(), 2);
    let scoped = db.search_poi("宁", Some("a"), "contains", 10);
    assert_eq!(scoped.len(), 1);
    assert_eq!(scoped[0].platform, "a");
    let limited = db.search_poi("宁", None, "contains", 1);
    assert_eq!(limited.len(), 1);
    assert_eq!(SearchMode::from("smart"), SearchMode::Contains);
}

#[test]
fn region_code_backfill() {
    let mut db = Database::new();
    db.insert_poi("甲", 1, 2, 1, 2, "", "", "射阳县某路", "", "a", "", "");
    db.insert_poi("乙", 3, 4, 3, 4, "", "", "阜宁县某路", "", "a", "", "");
    db.insert_poi("丙", 5, 6, 5, 6, "", "", "盐城市区", "", "a", "", "");
    db.insert_poi("丁", 7, 8, 7, 8, "", "", "别处", "", "a", "", "");
    db.insert_poi("戊", 9, 10, 9, 10, "", "", "射阳别苑", "", "a", "320999", "");
    let (fixed, remaining) = db.fix_region_codes();
    assert_eq!(fixed, 3);
    assert_eq!(remaining, 1);
    let rows = db.get_all_poi(None);
    assert_eq!(rows[0].region_code, "320924");
    assert_eq!(rows[1].region_code, "320923");
    assert_eq!(rows[2].region_code, "320900");
    assert_eq!(rows[3].region_code, "");
    assert_eq!(rows[4].region_code, "320999");
}

#[test]
fn region_grouped_counts() {
    let mut db = Database::new();
    db.insert_poi("甲", 1, 2, 1, 2, "", "", "", "", "a", "320924", "");
    db.insert_poi("乙", 3, 4, 3, 4, "", "", "", "", "a", "320924", "");
    db.insert_poi("丙", 5, 6, 5, 6, "", "", "", "", "a", "320900", "");
    let groups = db.get_poi_stats_by_region();
    assert_eq!(groups.len(), 2);
    let g = |code: &str| groups.iter().find(|(c, _)| c == code).unwrap().1;
    assert_eq!(g("320924"), 2);
    assert_eq!(g("320900"), 1);
}

#[test]
fn region_scoped_deletion() {
    let mut db = Database::new();
    db.insert_poi("甲", 1, 2, 1, 2, "", "", "", "", "a", "320924", "");
    db.insert_poi("乙", 3, 4, 3, 4, "", "", "", "", "a", "320923", "");
    db.insert_poi("丙", 5, 6, 5, 6, "", "", "", "", "a", "320900", "");
    let removed = db.delete_poi_by_region_codes(&vec!["320924".to_string(), "320900".to_string()]);
    assert_eq!(removed, 2);
    assert_eq!(db.get_stats().total, 1);
    assert_eq!(db.clear_all_poi(), 1);
    assert_eq!(db.get_stats().total, 0);
}

#[test]
fn api_key_selection() {
    let mut db = Database::new();
    let a = db.add_api_key("amap", "SECRET-REDACTED", Some("first"));
    let b = db.add_api_key("amap", "SECRET-REDACTED", None);
    db.add_api_key("baidu", "SECRET-REDACTED", None);
    db.mark_key_exhausted(a);
    let keys = db.get_all_api_keys();
    assert_eq!(keys.len(), 3);
    let pick = select_active_key(&keys, "amap").unwrap();
    assert_eq!(pick.id, b);
    db.delete_api_key(b);
    let keys = db.get_all_api_keys();
    assert!(select_active_key(&keys, "amap").is_none());
    assert!(select_active_key(&keys, "baidu").is_some());
}

#[test]
fn quota_classification() {
    let amap = AmapCollector::new("k".to_string());
    assert!(amap.is_quota_error("0", "10003"));
    assert!(amap.is_quota_error("0", "10044"));
    assert!(!amap.is_quota_error("1", "10003"));
    assert!(!amap.is_quota_error("0", "20000"));
    let baidu = BaiduCollector::new("k".to_string());
    assert!(baidu.is_quota_error(302));
    assert!(baidu.is_quota_error(4));
    assert!(!baidu.is_quota_error(0));
    let tdt = TianDiTuCollector::new("k".to_string());
    assert!(tdt.is_quota_error(10001));
    assert!(!tdt.is_quota_error(1000));
    let osm = OsmCollector::new();
    assert!(!osm.is_quota_error(302));
}

#[test]
fn quota_halts_collector() {
    // the first answer reports quota exhaustion: the run turns to the
    // error phase and asks for no further request
    let mut amap = AmapCollector::new("k".to_string());
    amap.set_region(test_region());
    let items: Vec<CandidatePoi> = Vec::new();
    let err = amap.handle_response("0", "10003", 0, &items, 0, 1).unwrap_err();
    let message = match &err {
        SearchError::Quota(m) => m.clone(),
        other => panic!("expected a quota error, got {:?}", other),
    };
    assert!(message.contains("quota"));
    let mut run = CollectorRun::start(
        "amap".to_string(),
        default_categories(),
    );
    assert!(matches!(run.next_action(), CollectorAction::Search { cat_idx: 0, kw_idx: 0, page: 1 }));
    run.on_error(&err, message.clone());
    assert_eq!(run.phase, CollectorPhase::Error);
    assert_eq!(run.error_message.as_deref(), Some(message.as_str()));
    assert!(matches!(run.next_action(), CollectorAction::Done));
}

#[test]
fn collector_walks_the_plan() {
    let cats = default_categories();
    let first_kw_count = cats[0].keywords.len();
    let mut run = CollectorRun::start("tianditu".to_string(), cats);
    // a full page with more to come stays on the keyword, next page
    run.on_page(5, 100, true);
    assert_eq!((run.cat_idx, run.kw_idx, run.page), (0, 0, 2));
    assert_eq!(run.total_saved, 5);
    // a short page moves to the next keyword, page one again
    run.on_page(3, 40, false);
    assert_eq!((run.cat_idx, run.kw_idx, run.page), (0, 1, 1));
    assert_eq!(run.total_saved, 8);
    // exhausting every keyword of the category completes it
    for _ in 1..first_kw_count {
        run.on_page(0, 0, false);
    }
    assert_eq!(run.cat_idx, 1);
    assert_eq!(run.completed_categories, vec!["residential".to_string()]);
    // a stop request pauses the run where it stands
    run.on_stop();
    assert_eq!(run.phase, CollectorPhase::Paused);
    assert!(matches!(run.next_action(), CollectorAction::Done));
}

#[test]
fn collector_completes_empty_plan() {
    let run = CollectorRun::start("amap".to_string(), Vec::new());
    assert_eq!(run.phase, CollectorPhase::Completed);
}

#[test]
fn records_filtered_to_region_bounds() {
    let mut tdt = TianDiTuCollector::new("k".to_string());
    let mut region = test_region();
    region.bounds = Bounds {
        min_lon_e7: 1190000000,
        max_lon_e7: 1210000000,
        min_lat_e7: 330000000,
        max_lat_e7: 345000000,
    };
    tdt.set_region(region.clone());
    let items = vec![
        candidate("城内一处", 1200000000, 335000000),
        candidate("城外一处", 1300000000, 335000000),
        candidate("  ", 1200000000, 336000000),
        candidate("  带空白  ", 1200000000, 337000000),
    ];
    let (records, has_more) = tdt.handle_response(1000, &items, 4, "类别", "cid").unwrap();
    assert!(!has_more);
    assert_eq!(records.len(), 2);
    for r in &records {
        assert!(region.bounds.min_lon_e7 <= r.lon_e7 && r.lon_e7 <= region.bounds.max_lon_e7);
        assert!(region.bounds.min_lat_e7 <= r.lat_e7 && r.lat_e7 <= region.bounds.max_lat_e7);
        assert!(!r.name.is_empty());
        assert_eq!(r.platform, "tianditu");
        assert_eq!(r.category, "类别");
        assert_eq!(r.category_id, "cid");
    }
    assert_eq!(records[1].name, "带空白");
}

#[test]
fn baidu_rejects_zero_coordinates() {
    let mut b = BaiduCollector::new("k".to_string());
    b.set_region(test_region());
    let mut zero = candidate("零点", 1200000000, 302000000);
    zero.original_lon_e7 = 0;
    let good = candidate("好点", 1200000000, 302000000);
    let items = vec![zero, good];
    let (records, _) = b.handle_response(0, 2, &items, 2, 1).unwrap();
    assert_eq!(records.len(), 1);
    assert_eq!(records[0].name, "好点");
}

#[test]
fn failed_status_yields_empty_page() {
    let mut a = AmapCollector::new("k".to_string());
    a.set_region(test_region());
    let items = vec![candidate("甲", 1200000000, 302000000)];
    let (records, more) = a.handle_response("0", "20000", 1, &items, 1, 1).unwrap();
    assert!(records.is_empty());
    assert!(!more);
}

#[test]
fn paging_rules() {
    // another page is worth asking for only while full pages cover less
    // than the reported total
    assert!(has_more_pages(1, 25, 100, 25));
    assert!(!has_more_pages(4, 25, 100, 25));
    assert!(!has_more_pages(1, 25, 100, 10));
    assert!(!has_more_pages(1, 25, 0, 25));
    let mut a = AmapCollector::new("k".to_string());
    a.set_region(test_region());
    let items = vec![candidate("甲", 1200000000, 302000000)];
    let (_, more) = a.handle_response("1", "10000", 100, &items, 25, 1).unwrap();
    assert!(more);
    let (_, more) = a.handle_response("1", "10000", 100, &items, 10, 1).unwrap();
    assert!(!more);
}

#[test]
fn request_parameters() {
    let mut a = AmapCollector::new("KEY".to_string());
    assert!(a.search_params("学校", 2).is_err());
    a.set_region(test_region());
    let ps = a.search_params("学校", 2).unwrap();
    assert_eq!(ps.len(), 7);
    assert_eq!(ps[0], ("key".to_string(), "KEY".to_string()));
    assert_eq!(ps[4], ("offset".to_string(), "25".to_string()));
    assert_eq!(ps[5], ("page".to_string(), "2".to_string()));
    let mut b = BaiduCollector::new("AK".to_string());
    b.set_region(test_region());
    let ps = b.search_params("学校", 3).unwrap();
    assert_eq!(ps[5], ("page_size".to_string(), "20".to_string()));
    assert_eq!(ps[6], ("page_num".to_string(), "2".to_string()));
}

#[test]
fn tianditu_body_and_params() {
    let mut t = TianDiTuCollector::new("TK".to_string());
    let mut region = test_region();
    region.name = "盐城".to_string();
    region.bounds = Bounds {
        min_lon_e7: 1192500000,
        max_lon_e7: 1209500000,
        min_lat_e7: 328000000,
        max_lat_e7: 346000000,
    };
    t.set_region(region);
    let body = t.post_body("学校", 2).unwrap().unwrap();
    assert_eq!(
        body,
        "{\"keyWord\":\"盐城 学校\",\"level\":12,\"mapBound\":\"119.25,32.8,120.95,34.6\",\"queryType\":1,\"start\":100,\"count\":100}"
    );
    let ps = t.search_params(body.clone());
    assert_eq!(ps[0].1, body);
    assert_eq!(ps[1], ("type".to_string(), "query".to_string()));
    assert_eq!(ps[2], ("tk".to_string(), "TK".to_string()));
}

#[test]
fn json_escaping() {
    assert_eq!(json_escape(b"plain"), b"plain");
    assert_eq!(json_escape(b"a\"b\\c"), b"a\\\"b\\\\c");
}

#[test]
fn overpass_query_drops_quotes() {
    let q = build_overpass_query("名\"字", "区\\域").unwrap();
    assert!(q.starts_with("[out:json][timeout:60];"));
    assert!(q.contains("area[\"name\"~\"区域\"]"));
    assert!(q.contains("node[\"name\"~\"名字\",i](area.searchArea);"));
    assert!(q.ends_with("out center body;\n"));
}

#[test]
fn osm_elements_become_records() {
    let mut o = OsmCollector::new();
    o.set_region(test_region());
    let tags = vec![
        ("name".to_string(), "老街坊".to_string()),
        ("amenity".to_string(), "cafe".to_string()),
        ("addr:street".to_string(), "长街".to_string()),
        ("addr:housenumber".to_string(), "7".to_string()),
        ("contact:phone".to_string(), "123".to_string()),
    ];
    let elements = vec![
        OsmElement {
            id: 42,
            element_type: "node".to_string(),
            lonlat: Some((1200000000, 302000000)),
            center: None,
            tags: tags.clone(),
        },
        OsmElement {
            id: 43,
            element_type: "way".to_string(),
            lonlat: None,
            center: Some((1201000000, 303000000)),
            tags: vec![("name".to_string(), "无类别".to_string())],
        },
        OsmElement {
            id: 44,
            element_type: "node".to_string(),
            lonlat: None,
            center: None,
            tags: tags.clone(),
        },
        OsmElement {
            id: 45,
            element_type: "node".to_string(),
            lonlat: Some((1200000000, 302000000)),
            center: None,
            tags: vec![("amenity".to_string(), "bank".to_string())],
        },
    ];
    let (records, has_more) = o.handle_elements(&elements, 1, "类", "cid").unwrap();
    assert!(!has_more);
    assert_eq!(records.len(), 2);
    assert_eq!(records[0].name, "老街坊");
    assert_eq!(records[0].phone, "123");
    assert_eq!(records[0].address, "测试区长街7");
    assert_eq!(records[0].raw_data, "{\"id\":42,\"type\":\"node\",\"osm_category\":\"amenity=cafe\"}");
    assert_eq!(records[1].name, "无类别");
    assert_eq!(records[1].raw_data, "{\"id\":43,\"type\":\"way\",\"osm_category\":\"unknown\"}");
    // the open provider does not page
    let (later, more) = o.handle_elements(&elements, 2, "类", "cid").unwrap();
    assert!(later.is_empty());
    assert!(!more);
    assert_eq!(get_osm_category(&tags), "amenity=cafe");
}

#[test]
fn http_throttle_classification() {
    assert!(matches!(classify_http_status(429), Some(SearchError::RateLimited(_))));
    assert!(classify_http_status(200).is_none());
    assert!(classify_http_status(500).is_none());
}

#[test]
fn soft_errors_skip_to_next_keyword() {
    let cats = default_categories();
    let mut run = CollectorRun::start("baidu".to_string(), cats);
    let err = SearchError::Network("connection refused".to_string());
    run.on_error(&err, "connection refused".to_string());
    assert_eq!(run.phase, CollectorPhase::Running);
    assert_eq!((run.cat_idx, run.kw_idx, run.page), (0, 1, 1));
    assert!(run.error_message.is_none());
    let err = SearchError::Decode("bad json".to_string());
    run.on_error(&err, "bad json".to_string());
    assert_eq!((run.cat_idx, run.kw_idx, run.page), (0, 2, 1));
}

#[test]
fn coordinate_literal_edges() {
    assert_eq!(parse_e7(b"12."), Some(120000000));
    assert_eq!(parse_e7(b"-0.5"), Some(-5000000));
    assert_eq!(parse_e7(b"-"), None);
    assert_eq!(parse_e7(b"1e5"), None);
    assert_eq!(parse_e7(b"116.39745601234"), Some(1163974560));
    assert_eq!(parse_u32(b"4294967295"), Some(4294967295));
    assert_eq!(parse_u32(b"4294967296"), None);
    assert_eq!(parse_u32(b""), None);
}

#[test]
fn e7_rendering() {
    assert_eq!(e7_to_string(1194200000), "119.42");
    assert_eq!(e7_to_string(-5000000), "-0.5");
    assert_eq!(e7_to_string(300000000), "30");
    assert_eq!(e7_to_string(0), "0");
    assert_eq!(e7_to_string(1163974561), "116.3974561");
}

#[test]
fn boundary_box_from_point_cloud() {
    // pairs outside the legal range are ignored; the rest are folded
    let points = vec![
        (1164000000i64, 399000000i64),
        (1164500000, 399500000),
        (1163000000, 399200000),
        (99990000000, 399000000),
        (1164000000, -99990000000),
    ];
    let b = bounds_of_points(&points);
    assert_eq!(b.west_e7, 1163000000);
    assert_eq!(b.east_e7, 1164500000);
    assert_eq!(b.south_e7, 399000000);
    assert_eq!(b.north_e7, 399500000);
    // nothing legal keeps the degenerate starting edges
    let empty = bounds_of_points(&vec![(99990000000i64, 0i64)]);
    assert_eq!(empty.west_e7, 1800000000);
    assert_eq!(empty.east_e7, -1800000000);
}

#[test]
fn datum_correction_stays_in_band() {
    // the correction applied inside the envelope is bounded by the shift,
    // which the engine caps at a hundredth of a degree
    let shift = DatumShift { dlon_e7: 99999, dlat_e7: -99999 };
    let (lon, lat) = gcj02_to_wgs84(1201000000, 302000000, shift);
    assert!((lon - 1201000000).abs() < 100001);
    assert!((lat - 302000000).abs() < 100001);
}

#[test]
fn search_returns_leading_matches_in_order() {
    let mut db = Database::new();
    db.insert_poi("宁一", 1, 2, 1, 2, "", "", "", "", "a", "", "");
    db.insert_poi("别处", 3, 4, 3, 4, "", "", "", "", "a", "", "");
    db.insert_poi("宁二", 5, 6, 5, 6, "", "", "", "", "a", "", "");
    db.insert_poi("宁三", 7, 8, 7, 8, "", "", "", "", "a", "", "");
    let hits = db.search_poi("宁", None, "contains", 2);
    assert_eq!(hits.len(), 2);
    assert_eq!(hits[0].name, "宁一");
    assert_eq!(hits[1].name, "宁二");
}

#[test]
fn export_filter_is_complete_and_ordered() {
    let mut db = Database::new();
    db.insert_poi("甲", 1, 2, 1, 2, "", "", "", "", "a", "", "");
    db.insert_poi("乙", 3, 4, 3, 4, "", "", "", "", "b", "", "");
    db.insert_poi("丙", 5, 6, 5, 6, "", "", "", "", "a", "", "");
    let all = db.get_all_poi(None);
    assert_eq!(all.len(), 3);
    assert!(all[0].id < all[1].id && all[1].id < all[2].id);
    let scoped = db.get_all_poi(Some("a"));
    assert_eq!(scoped.len(), 2);
    assert_eq!(scoped[0].name, "甲");
    assert_eq!(scoped[1].name, "丙");
}

#[test]
fn default_plan_shape() {
    let cats = default_categories();
    assert_eq!(cats.len(), 16);
    assert_eq!(cats[0].id, "residential");
    assert_eq!(cats[15].id, "religious");
    assert!(cats.iter().all(|c| !c.keywords.is_empty()));
    let mut ids: Vec<&str> = cats.iter().map(|c| c.id.as_str()).collect();
    ids.sort();
    ids.dedup();
    assert_eq!(ids.len(), 16);
    assert_eq!(cats[0].name, "住宅小区");
    assert_eq!(cats[15].name, "宗教场所");
    assert_eq!(cats[0].keywords[0], "小区");
    assert_eq!(cats[7].keywords[1], "KTV");
}
