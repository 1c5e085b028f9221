//! Plain views and presets the command surface exchanges with the host
//! shell.

use vstd::prelude::*;
use crate::categories::{default_categories, Category};
use crate::collectors::{Bounds, RegionConfig};
use crate::text::bytes_eq;

verus! {

use vstd::string::StringSliceAdditionalSpecFns;

/// The queryable status of one platform's collector.
#[derive(Debug, Clone)]
pub struct CollectorStatus {
    pub platform: String,
    pub status: String,
    pub total_collected: i64,
    pub completed_categories: Vec<String>,
    pub current_category_id: String,
    pub error_message: Option<String>,
}

/// A selectable region preset.
#[derive(Debug, Clone)]
pub struct RegionPreset {
    pub id: String,
    pub name: String,
    pub admin_code: String,
}

/// A proxy request for one tile, as the shell sends it.
#[derive(Debug, Clone)]
pub struct TileRequest {
    pub platform: String,
    pub map_type: String,
    pub z: u32,
    pub x: u32,
    pub y: u32,
    pub api_key: Option<String>,
}

/// The built-in search plan, as the surface lists it.
pub fn get_poi_categories() -> (r: Vec<Category>)
    ensures
        r@.len() == 16,
        forall|i: int| 0 <= i < r@.len() ==> (#[trigger] r@[i]).keywords@.len() > 0,
{
    default_categories()
}

/// One preset from its parts.
fn make_preset(
    id: &str,
    name: &str,
    admin_code: &str,
    city_code: &str,
    min_lon_e7: i64,
    max_lon_e7: i64,
    min_lat_e7: i64,
    max_lat_e7: i64,
) -> (r: (String, RegionConfig))
    ensures
        r.0@ == id@,
        r.1.name@ == name@,
        r.1.admin_code@ == admin_code@,
        r.1.city_code@ == city_code@,
        r.1.bounds == (Bounds { min_lon_e7, max_lon_e7, min_lat_e7, max_lat_e7 }),
{
    (
        id.to_owned(),
        RegionConfig {
            name: name.to_owned(),
            admin_code: admin_code.to_owned(),
            city_code: city_code.to_owned(),
            bounds: Bounds { min_lon_e7, max_lon_e7, min_lat_e7, max_lat_e7 },
        },
    )
}

/// The built-in region presets, keyed by their identifiers.
pub fn preset_regions() -> (r: Vec<(String, RegionConfig)>)
    ensures
        r@.len() == 8,
        r@[0].0@ == "funing"@,
        r@[1].0@ == "sheyang"@,
        r@[2].0@ == "jianhu"@,
        r@[3].0@ == "binhai"@,
        r@[4].0@ == "xiangshui"@,
        r@[5].0@ == "yancheng"@,
        r@[6].0@ == "nanjing"@,
        r@[7].0@ == "suzhou"@,
{
    let mut r: Vec<(String, RegionConfig)> = Vec::new();
    r.push(
        make_preset(
            "funing",
            "阜宁县",
            "320923",
            "320900",
            1194200000,
            1199500000,
            335500000,
            339500000,
        ),
    );
    r.push(
        make_preset(
            "sheyang",
            "射阳县",
            "320924",
            "320900",
            1197500000,
            1204500000,
            336000000,
            341000000,
        ),
    );
    r.push(
        make_preset(
            "jianhu",
            "建湖县",
            "320925",
            "320900",
            1196500000,
            1200500000,
            333500000,
            336500000,
        ),
    );
    r.push(
        make_preset(
            "binhai",
            "滨海县",
            "320922",
            "320900",
            1196500000,
            1203000000,
            339000000,
            343500000,
        ),
    );
    r.push(
        make_preset(
            "xiangshui",
            "响水县",
            "320921",
            "320900",
            1195000000,
            1201000000,
            340500000,
            345000000,
        ),
    );
    r.push(
        make_preset(
            "yancheng",
            "盐城市",
            "320900",
            "320900",
            1192500000,
            1209500000,
            328000000,
            346000000,
        ),
    );
    r.push(
        make_preset(
            "nanjing",
            "南京市",
            "320100",
            "320100",
            1183500000,
            1192500000,
            312000000,
            326000000,
        ),
    );
    r.push(
        make_preset(
            "suzhou",
            "苏州市",
            "320500",
            "320500",
            1200500000,
            1213500000,
            307500000,
            320500000,
        ),
    );
    r
}

/// Looks a preset up by its identifier.
pub fn find_preset(presets: &Vec<(String, RegionConfig)>, id: &str) -> (r: Option<RegionConfig>)
    ensures
        r is Some <==> exists|i: int|
            0 <= i < presets@.len() && (#[trigger] presets@[i]).0@ == id@,
        r matches Some(p) ==> exists|i: int|
            0 <= i < presets@.len() && (#[trigger] presets@[i]).0@ == id@ && p.name@
                == presets@[i].1.name@ && p.admin_code@ == presets@[i].1.admin_code@
                && p.city_code@ == presets@[i].1.city_code@ && p.bounds == presets@[i].1.bounds,
{
    let n = presets.len();
    let mut i: usize = 0;
    while i < n
        invariant
            n == presets@.len(),
            i <= n,
            forall|j: int| 0 <= j < i ==> (#[trigger] presets@[j]).0@ != id@,
        decreases n - i,
    {
        let same = bytes_eq(presets[i].0.as_str().as_bytes(), id.as_bytes());
        proof {
            crate::text::lemma_utf8_view_eq(presets@[i as int].0@, id@);
        }
        if same {
            let p = &presets[i].1;
            let copy = RegionConfig {
                name: p.name.clone(),
                admin_code: p.admin_code.clone(),
                city_code: p.city_code.clone(),
                bounds: p.bounds,
            };
            return Some(copy);
        }
        i = i + 1;
    }
    None
}

} // verus!
