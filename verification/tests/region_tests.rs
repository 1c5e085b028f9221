use geocollect::regions::{city_code_for, Region, RegionIndex};
use geocollect::surface::{find_preset, get_poi_categories, preset_regions};

fn region(code: &str, name: &str, level: &str, parent: Option<&str>) -> Region {
    Region {
        code: code.to_string(),
        name: name.to_string(),
        level: level.to_string(),
        parent_code: parent.map(|p| p.to_string()),
    }
}

fn sample_index() -> RegionIndex {
    RegionIndex::new(vec![
        region("320000", "江苏省", "province", None),
        region("320900", "盐城市", "city", Some("320000")),
        region("320100", "南京市", "city", Some("320000")),
        region("320923", "阜宁县", "district", Some("320900")),
        region("320924", "射阳县", "district", Some("320900")),
        region("320102", "玄武区", "district", Some("320100")),
    ])
}

#[test]
fn test_load_regions() {
    let index = sample_index();
    let regions = index.get_all_regions();
    assert!(!regions.is_empty());
    println!("Loaded {} regions", regions.len());
}

#[test]
fn test_get_provinces() {
    let index = sample_index();
    let provinces = index.get_provinces();
    assert!(!provinces.is_empty());
    println!("Found {} provinces", provinces.len());
}

#[test]
fn lookup_by_code() {
    let index = sample_index();
    let r = index.get_region_by_code("320924").unwrap();
    assert_eq!(r.name, "射阳县");
    assert_eq!(r.level, "district");
    assert!(index.get_region_by_code("999999").is_none());
}

#[test]
fn children_and_levels() {
    let index = sample_index();
    let cities = index.get_cities();
    assert_eq!(cities.len(), 2);
    let districts = index.get_districts();
    assert_eq!(districts.len(), 3);
    let children = index.get_children("320900");
    assert_eq!(children.len(), 2);
    assert_eq!(children[0].code, "320923");
    assert_eq!(children[1].code, "320924");
    assert!(index.get_children("320102").is_empty());
}

#[test]
fn district_codes_roll_up() {
    let index = sample_index();
    assert_eq!(index.get_all_district_codes("320924"), vec!["320924".to_string()]);
    assert_eq!(
        index.get_all_district_codes("320900"),
        vec!["320923".to_string(), "320924".to_string()]
    );
    let mut from_province = index.get_all_district_codes("320000");
    from_province.sort();
    assert_eq!(
        from_province,
        vec!["320102".to_string(), "320923".to_string(), "320924".to_string()]
    );
    assert!(index.get_all_district_codes("999999").is_empty());
}

#[test]
fn name_search() {
    let index = sample_index();
    let hits = index.search_regions("阳");
    assert_eq!(hits.len(), 1);
    assert_eq!(hits[0].code, "320924");
    let all = index.search_regions("");
    assert_eq!(all.len(), 6);
    assert!(index.search_regions("不存在").is_empty());
}

#[test]
fn presets_and_lookup() {
    let presets = preset_regions();
    assert_eq!(presets.len(), 8);
    let funing = find_preset(&presets, "funing").unwrap();
    assert_eq!(funing.admin_code, "320923");
    assert_eq!(funing.city_code, "320900");
    assert_eq!(funing.bounds.min_lon_e7, 1194200000);
    assert!(find_preset(&presets, "nowhere").is_none());
}

#[test]
fn city_code_rule() {
    let index = sample_index();
    let district = index.get_region_by_code("320924").unwrap();
    assert_eq!(city_code_for(&district, "320924"), "320900");
    let city = index.get_region_by_code("320900").unwrap();
    assert_eq!(city_code_for(&city, "320900"), "320900");
    let orphan = Region {
        code: "999901".to_string(),
        name: "孤区".to_string(),
        level: "district".to_string(),
        parent_code: None,
    };
    assert_eq!(city_code_for(&orphan, "999901"), "999901");
}

#[test]
fn country_box_is_loose() {
    let b = geocollect::collectors::country_wide_bounds();
    assert_eq!(b.min_lon_e7, 730000000);
    assert_eq!(b.max_lon_e7, 1350000000);
    assert_eq!(b.min_lat_e7, 180000000);
    assert_eq!(b.max_lat_e7, 540000000);
}

#[test]
fn surface_categories() {
    let cats = get_poi_categories();
    assert_eq!(cats.len(), 16);
}
