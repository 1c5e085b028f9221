//! Tile providers: URL templates, zoom ranges, supported imagery, and the
//! coordinate quirks each provider insists on.

use vstd::prelude::*;
use crate::text::{ascii_view, dec_rep, i64_rep, i64_to_string, u64_to_string};
use crate::tiles::{baidu_tile_coord, quadkey_bytes, push_quadkey, subdomain_index, tms_flip, tms_flip_spec};
use crate::types::{MapType, PlatformInfo};

verus! {

use vstd::arithmetic::power2::pow2;
use vstd::string::StringSliceAdditionalSpecFns;

/// The browser-like agent header every provider receives.
pub fn default_headers() -> (r: Vec<(String, String)>)
    ensures
        r@.len() == 1,
        r@[0].0@ == "User-Agent"@,
        r@[0].1@ == "Mozilla/5.0 (Windows NT 10.0; Win64; x64) AppleWebKit/537.36"@,
{
    let mut r: Vec<(String, String)> = Vec::new();
    r.push(
        (
            "User-Agent".to_owned(),
            "Mozilla/5.0 (Windows NT 10.0; Win64; x64) AppleWebKit/537.36".to_owned(),
        ),
    );
    r
}

/// The mirror label a tile is fetched from: rotation by tile address.
pub open spec fn subdomain_at(subs: Seq<Seq<char>>, x: u32, y: u32) -> Seq<char> {
    subs[(x + y) as int % subs.len() as int]
}

/// Picks the mirror label for a tile.
pub fn pick_subdomain(subs: &Vec<String>, x: u32, y: u32) -> (r: String)
    requires
        subs@.len() > 0,
    ensures
        r@ == subdomain_at(subs@.map_values(|s: String| s@), x, y),
{
    let idx = subdomain_index(x, y, subs.len());
    subs[idx].clone()
}

/// A provider: what it is called, which tiles it serves, and how their
/// URLs are spelled.
pub trait TilePlatform {
    /// The identifier of the platform.
    spec fn spec_id(&self) -> Seq<char>;

    /// The display name of the platform.
    spec fn spec_name(&self) -> Seq<char>;

    /// The URL for a tile, or nothing when the map type is unsupported or
    /// a required key is missing.
    spec fn spec_url(&self, z: u32, x: u32, y: u32, map_type: MapType) -> Option<Seq<char>>;

    /// Highest zoom level served.
    spec fn spec_max_zoom(&self) -> u32;

    /// Lowest zoom level served.
    spec fn spec_min_zoom(&self) -> u32;

    /// The imagery kinds served.
    spec fn spec_map_types(&self) -> Seq<MapType>;

    /// Whether requests carry an API key.
    spec fn spec_requires_key(&self) -> bool;

    /// The key stored on this handle, if any.
    spec fn spec_key(&self) -> Option<Seq<char>>;

    /// Platform identifier.
    fn id(&self) -> (r: &'static str)
        ensures
            r@ == self.spec_id(),
    ;

    /// Platform display name.
    fn name(&self) -> (r: &'static str)
        ensures
            r@ == self.spec_name(),
    ;

    /// The URL of one tile.
    fn get_tile_url(&self, z: u32, x: u32, y: u32, map_type: &MapType) -> (r: Option<String>)
        requires
            z <= 22,
            x < pow2(z as nat),
            y < pow2(z as nat),
        ensures
            r is Some <==> self.spec_url(z, x, y, *map_type) is Some,
            r matches Some(u) ==> u@ == self.spec_url(z, x, y, *map_type)->0,
    ;

    /// Highest zoom level served.
    fn max_zoom(&self) -> (r: u32)
        ensures
            r == self.spec_max_zoom(),
    ;

    /// Lowest zoom level served.
    fn min_zoom(&self) -> (r: u32)
        ensures
            r == self.spec_min_zoom(),
    ;

    /// The imagery kinds served.
    fn supported_map_types(&self) -> (r: Vec<MapType>)
        ensures
            r@ == self.spec_map_types(),
    ;

    /// Whether requests carry an API key.
    fn requires_api_key(&self) -> (r: bool)
        ensures
            r == self.spec_requires_key(),
    ;

    /// Stores the key used for keyed requests; the platform's identity and
    /// capabilities are untouched.
    fn set_api_key(&mut self, key: &str)
        ensures
            final(self).spec_key() == Some(key@),
            final(self).spec_id() == old(self).spec_id(),
            final(self).spec_name() == old(self).spec_name(),
            final(self).spec_max_zoom() == old(self).spec_max_zoom(),
            final(self).spec_min_zoom() == old(self).spec_min_zoom(),
            final(self).spec_map_types() == old(self).spec_map_types(),
            final(self).spec_requires_key() == old(self).spec_requires_key(),
    ;
}

/// The capability sheet of a provider.
pub fn platform_info<P: TilePlatform>(p: &P) -> (r: PlatformInfo)
    ensures
        r.id@ == p.spec_id(),
        r.name@ == p.spec_name(),
        r.enabled == true,
        r.min_zoom == p.spec_min_zoom(),
        r.max_zoom == p.spec_max_zoom(),
        r.map_types@.len() == p.spec_map_types().len(),
        forall|i: int|
            0 <= i < r.map_types@.len() ==> (#[trigger] r.map_types@[i])@ == p.spec_map_types()[i].label(),
        r.requires_key == p.spec_requires_key(),
{
    let kinds = p.supported_map_types();
    let mut map_types: Vec<String> = Vec::new();
    let mut i: usize = 0;
    while i < kinds.len()
        invariant
            kinds@ == p.spec_map_types(),
            i <= kinds@.len(),
            map_types@.len() == i,
            forall|j: int|
                0 <= j < i ==> (#[trigger] map_types@[j])@ == p.spec_map_types()[j].label(),
        decreases kinds@.len() - i,
    {
        map_types.push(kinds[i].to_string());
        i = i + 1;
    }
    PlatformInfo {
        id: p.id().to_owned(),
        name: p.name().to_owned(),
        enabled: true,
        min_zoom: p.min_zoom(),
        max_zoom: p.max_zoom(),
        map_types,
        requires_key: p.requires_api_key(),
    }
}

/// The worldwide street-view provider with four numbered mirrors.
pub struct GooglePlatform {
    pub api_key: Option<String>,
}

/// The mirror labels zero to three.
pub open spec fn digit_subs() -> Seq<Seq<char>> {
    seq!["0"@, "1"@, "2"@, "3"@]
}

/// The numbered mirror list.
pub fn digit_subdomains() -> (r: Vec<String>)
    ensures
        r@.map_values(|s: String| s@) =~= digit_subs(),
{
    let mut r: Vec<String> = Vec::new();
    r.push("0".to_owned());
    r.push("1".to_owned());
    r.push("2".to_owned());
    r.push("3".to_owned());
    r
}

/// The layer letter of a map type on this provider.
pub open spec fn google_layer(map_type: MapType) -> Option<Seq<char>> {
    match map_type {
        MapType::Street => Some("m"@),
        MapType::Satellite => Some("s"@),
        MapType::Hybrid => Some("y"@),
        MapType::Terrain => Some("t"@),
        _ => None,
    }
}

impl GooglePlatform {
    /// A provider handle with no key; none is needed.
    pub fn new() -> (r: GooglePlatform)
        ensures
            r.api_key is None,
    {
        GooglePlatform { api_key: None }
    }
}

impl TilePlatform for GooglePlatform {
    open spec fn spec_id(&self) -> Seq<char> {
        "google"@
    }

    open spec fn spec_name(&self) -> Seq<char> {
        "谷歌地图"@
    }

    open spec fn spec_url(&self, z: u32, x: u32, y: u32, map_type: MapType) -> Option<
        Seq<char>,
    > {
        match google_layer(map_type) {
            None => None,
            Some(lyrs) => Some(
                "https://mt"@ + subdomain_at(digit_subs(), x, y) + ".google.com/vt/lyrs="@
                    + lyrs + "&x="@ + ascii_view(dec_rep(x as nat)) + "&y="@ + ascii_view(
                    dec_rep(y as nat),
                ) + "&z="@ + ascii_view(dec_rep(z as nat)),
            ),
        }
    }

    open spec fn spec_max_zoom(&self) -> u32 {
        21
    }

    open spec fn spec_min_zoom(&self) -> u32 {
        0
    }

    open spec fn spec_map_types(&self) -> Seq<MapType> {
        seq![MapType::Street, MapType::Satellite, MapType::Hybrid, MapType::Terrain]
    }

    open spec fn spec_requires_key(&self) -> bool {
        false
    }

    open spec fn spec_key(&self) -> Option<Seq<char>> {
        match self.api_key {
            Some(k) => Some(k@),
            None => None,
        }
    }

    fn id(&self) -> (r: &'static str) {
        "google"
    }

    fn name(&self) -> (r: &'static str) {
        "谷歌地图"
    }

    fn get_tile_url(&self, z: u32, x: u32, y: u32, map_type: &MapType) -> (r: Option<String>) {
        let lyrs = match map_type {
            MapType::Street => "m",
            MapType::Satellite => "s",
            MapType::Hybrid => "y",
            MapType::Terrain => "t",
            _ => {
                return None;
            },
        };
        let subs = digit_subdomains();
        let s = pick_subdomain(&subs, x, y);
        let mut u = "https://mt".to_owned();
        u.append(s.as_str());
        u.append(".google.com/vt/lyrs=");
        u.append(lyrs);
        u.append("&x=");
        u.append(u64_to_string(x as u64).as_str());
        u.append("&y=");
        u.append(u64_to_string(y as u64).as_str());
        u.append("&z=");
        u.append(u64_to_string(z as u64).as_str());
        Some(u)
    }

    fn max_zoom(&self) -> (r: u32) {
        21
    }

    fn min_zoom(&self) -> (r: u32) {
        0
    }

    fn supported_map_types(&self) -> (r: Vec<MapType>) {
        let mut r: Vec<MapType> = Vec::new();
        r.push(MapType::Street);
        r.push(MapType::Satellite);
        r.push(MapType::Hybrid);
        r.push(MapType::Terrain);
        assert(r@ =~= self.spec_map_types());
        r
    }

    fn requires_api_key(&self) -> (r: bool) {
        false
    }

    fn set_api_key(&mut self, key: &str) {
        self.api_key = Some(key.to_owned());
    }
}

/// The open map provider with three lettered mirrors.
pub struct OsmPlatform {
    pub api_key: Option<String>,
}

/// The lettered mirror labels.
pub open spec fn letter_subs() -> Seq<Seq<char>> {
    seq!["a"@, "b"@, "c"@]
}

/// The lettered mirror list.
pub fn letter_subdomains() -> (r: Vec<String>)
    ensures
        r@.map_values(|s: String| s@) =~= letter_subs(),
{
    let mut r: Vec<String> = Vec::new();
    r.push("a".to_owned());
    r.push("b".to_owned());
    r.push("c".to_owned());
    r
}

impl OsmPlatform {
    /// A provider handle with no key; none is needed.
    pub fn new() -> (r: OsmPlatform)
        ensures
            r.api_key is None,
    {
        OsmPlatform { api_key: None }
    }
}

impl TilePlatform for OsmPlatform {
    open spec fn spec_id(&self) -> Seq<char> {
        "osm"@
    }

    open spec fn spec_name(&self) -> Seq<char> {
        "OpenStreetMap"@
    }

    open spec fn spec_url(&self, z: u32, x: u32, y: u32, map_type: MapType) -> Option<
        Seq<char>,
    > {
        match map_type {
            MapType::Street => Some(
                "https://"@ + subdomain_at(letter_subs(), x, y) + ".tile.openstreetmap.org/"@
                    + ascii_view(dec_rep(z as nat)) + "/"@ + ascii_view(dec_rep(x as nat)) + "/"@
                    + ascii_view(dec_rep(y as nat)) + ".png"@,
            ),
            _ => None,
        }
    }

    open spec fn spec_max_zoom(&self) -> u32 {
        19
    }

    open spec fn spec_min_zoom(&self) -> u32 {
        0
    }

    open spec fn spec_map_types(&self) -> Seq<MapType> {
        seq![MapType::Street]
    }

    open spec fn spec_requires_key(&self) -> bool {
        false
    }

    open spec fn spec_key(&self) -> Option<Seq<char>> {
        match self.api_key {
            Some(k) => Some(k@),
            None => None,
        }
    }

    fn id(&self) -> (r: &'static str) {
        "osm"
    }

    fn name(&self) -> (r: &'static str) {
        "OpenStreetMap"
    }

    fn get_tile_url(&self, z: u32, x: u32, y: u32, map_type: &MapType) -> (r: Option<String>) {
        if !matches!(map_type, MapType::Street) {
            return None;
        }
        let subs = letter_subdomains();
        let s = pick_subdomain(&subs, x, y);
        let mut u = "https://".to_owned();
        u.append(s.as_str());
        u.append(".tile.openstreetmap.org/");
        u.append(u64_to_string(z as u64).as_str());
        u.append("/");
        u.append(u64_to_string(x as u64).as_str());
        u.append("/");
        u.append(u64_to_string(y as u64).as_str());
        u.append(".png");
        Some(u)
    }

    fn max_zoom(&self) -> (r: u32) {
        19
    }

    fn min_zoom(&self) -> (r: u32) {
        0
    }

    fn supported_map_types(&self) -> (r: Vec<MapType>) {
        let mut r: Vec<MapType> = Vec::new();
        r.push(MapType::Street);
        assert(r@ =~= self.spec_map_types());
        r
    }

    fn requires_api_key(&self) -> (r: bool) {
        false
    }

    fn set_api_key(&mut self, key: &str) {
        self.api_key = Some(key.to_owned());
    }
}

/// The worldwide atlas provider without mirror rotation.
pub struct ArcGisPlatform {
    pub api_key: Option<String>,
}

/// The service path of a map type on this provider.
pub open spec fn arcgis_service(map_type: MapType) -> Option<Seq<char>> {
    match map_type {
        MapType::Street => Some("World_Street_Map"@),
        MapType::Satellite => Some("World_Imagery"@),
        MapType::Terrain => Some("World_Topo_Map"@),
        _ => None,
    }
}

impl ArcGisPlatform {
    /// A provider handle with no key; none is needed.
    pub fn new() -> (r: ArcGisPlatform)
        ensures
            r.api_key is None,
    {
        ArcGisPlatform { api_key: None }
    }
}

impl TilePlatform for ArcGisPlatform {
    open spec fn spec_id(&self) -> Seq<char> {
        "arcgis"@
    }

    open spec fn spec_name(&self) -> Seq<char> {
        "ArcGIS"@
    }

    open spec fn spec_url(&self, z: u32, x: u32, y: u32, map_type: MapType) -> Option<
        Seq<char>,
    > {
        match arcgis_service(map_type) {
            None => None,
            Some(service) => Some(
                "https://server.arcgisonline.com/ArcGIS/rest/services/"@ + service
                    + "/MapServer/tile/"@ + ascii_view(dec_rep(z as nat)) + "/"@ + ascii_view(
                    dec_rep(y as nat),
                ) + "/"@ + ascii_view(dec_rep(x as nat)),
            ),
        }
    }

    open spec fn spec_max_zoom(&self) -> u32 {
        19
    }

    open spec fn spec_min_zoom(&self) -> u32 {
        0
    }

    open spec fn spec_map_types(&self) -> Seq<MapType> {
        seq![MapType::Street, MapType::Satellite, MapType::Terrain]
    }

    open spec fn spec_requires_key(&self) -> bool {
        false
    }

    open spec fn spec_key(&self) -> Option<Seq<char>> {
        match self.api_key {
            Some(k) => Some(k@),
            None => None,
        }
    }

    fn id(&self) -> (r: &'static str) {
        "arcgis"
    }

    fn name(&self) -> (r: &'static str) {
        "ArcGIS"
    }

    fn get_tile_url(&self, z: u32, x: u32, y: u32, map_type: &MapType) -> (r: Option<String>) {
        let service = match map_type {
            MapType::Street => "World_Street_Map",
            MapType::Satellite => "World_Imagery",
            MapType::Terrain => "World_Topo_Map",
            _ => {
                return None;
            },
        };
        let mut u = "https://server.arcgisonline.com/ArcGIS/rest/services/".to_owned();
        u.append(service);
        u.append("/MapServer/tile/");
        u.append(u64_to_string(z as u64).as_str());
        u.append("/");
        u.append(u64_to_string(y as u64).as_str());
        u.append("/");
        u.append(u64_to_string(x as u64).as_str());
        Some(u)
    }

    fn max_zoom(&self) -> (r: u32) {
        19
    }

    fn min_zoom(&self) -> (r: u32) {
        0
    }

    fn supported_map_types(&self) -> (r: Vec<MapType>) {
        let mut r: Vec<MapType> = Vec::new();
        r.push(MapType::Street);
        r.push(MapType::Satellite);
        r.push(MapType::Terrain);
        assert(r@ =~= self.spec_map_types());
        r
    }

    fn requires_api_key(&self) -> (r: bool) {
        false
    }

    fn set_api_key(&mut self, key: &str) {
        self.api_key = Some(key.to_owned());
    }
}

/// The first national private provider, with mirrors one to four.
pub struct AmapPlatform {
    pub api_key: Option<String>,
}

/// The mirror labels one to four.
pub open spec fn amap_subs() -> Seq<Seq<char>> {
    seq!["1"@, "2"@, "3"@, "4"@]
}

/// The mirror list one to four.
pub fn amap_subdomains() -> (r: Vec<String>)
    ensures
        r@.map_values(|s: String| s@) =~= amap_subs(),
{
    let mut r: Vec<String> = Vec::new();
    r.push("1".to_owned());
    r.push("2".to_owned());
    r.push("3".to_owned());
    r.push("4".to_owned());
    r
}

impl AmapPlatform {
    /// A provider handle with no key; none is needed.
    pub fn new() -> (r: AmapPlatform)
        ensures
            r.api_key is None,
    {
        AmapPlatform { api_key: None }
    }
}

impl TilePlatform for AmapPlatform {
    open spec fn spec_id(&self) -> Seq<char> {
        "amap"@
    }

    open spec fn spec_name(&self) -> Seq<char> {
        "高德地图"@
    }

    open spec fn spec_url(&self, z: u32, x: u32, y: u32, map_type: MapType) -> Option<
        Seq<char>,
    > {
        let s = subdomain_at(amap_subs(), x, y);
        let tail = "&x="@ + ascii_view(dec_rep(x as nat)) + "&y="@ + ascii_view(
            dec_rep(y as nat),
        ) + "&z="@ + ascii_view(dec_rep(z as nat));
        match map_type {
            MapType::Street => Some(
                "http://webrd0"@ + s + ".is.autonavi.com/appmaptile?lang=zh_cn&size=1&scale=1&style=8"@
                    + tail,
            ),
            MapType::Satellite => Some(
                "http://webst0"@ + s + ".is.autonavi.com/appmaptile?style=6"@ + tail,
            ),
            MapType::Roadnet => Some(
                "http://webst0"@ + s + ".is.autonavi.com/appmaptile?style=8"@ + tail,
            ),
            _ => None,
        }
    }

    open spec fn spec_max_zoom(&self) -> u32 {
        18
    }

    open spec fn spec_min_zoom(&self) -> u32 {
        1
    }

    open spec fn spec_map_types(&self) -> Seq<MapType> {
        seq![MapType::Street, MapType::Satellite, MapType::Roadnet]
    }

    open spec fn spec_requires_key(&self) -> bool {
        false
    }

    open spec fn spec_key(&self) -> Option<Seq<char>> {
        match self.api_key {
            Some(k) => Some(k@),
            None => None,
        }
    }

    fn id(&self) -> (r: &'static str) {
        "amap"
    }

    fn name(&self) -> (r: &'static str) {
        "高德地图"
    }

    fn get_tile_url(&self, z: u32, x: u32, y: u32, map_type: &MapType) -> (r: Option<String>) {
        let subs = amap_subdomains();
        let s = pick_subdomain(&subs, x, y);
        let mut u = match map_type {
            MapType::Street => {
                let mut u = "http://webrd0".to_owned();
                u.append(s.as_str());
                u.append(".is.autonavi.com/appmaptile?lang=zh_cn&size=1&scale=1&style=8");
                u
            },
            MapType::Satellite => {
                let mut u = "http://webst0".to_owned();
                u.append(s.as_str());
                u.append(".is.autonavi.com/appmaptile?style=6");
                u
            },
            MapType::Roadnet => {
                let mut u = "http://webst0".to_owned();
                u.append(s.as_str());
                u.append(".is.autonavi.com/appmaptile?style=8");
                u
            },
            _ => {
                return None;
            },
        };
        u.append("&x=");
        u.append(u64_to_string(x as u64).as_str());
        u.append("&y=");
        u.append(u64_to_string(y as u64).as_str());
        u.append("&z=");
        u.append(u64_to_string(z as u64).as_str());
        Some(u)
    }

    fn max_zoom(&self) -> (r: u32) {
        18
    }

    fn min_zoom(&self) -> (r: u32) {
        1
    }

    fn supported_map_types(&self) -> (r: Vec<MapType>) {
        let mut r: Vec<MapType> = Vec::new();
        r.push(MapType::Street);
        r.push(MapType::Satellite);
        r.push(MapType::Roadnet);
        assert(r@ =~= self.spec_map_types());
        r
    }

    fn requires_api_key(&self) -> (r: bool) {
        false
    }

    fn set_api_key(&mut self, key: &str) {
        self.api_key = Some(key.to_owned());
    }
}

/// The second national private provider, which flips the row axis.
pub struct TencentPlatform {
    pub api_key: Option<String>,
}

impl TencentPlatform {
    /// A provider handle with no key; none is needed.
    pub fn new() -> (r: TencentPlatform)
        ensures
            r.api_key is None,
    {
        TencentPlatform { api_key: None }
    }

    /// This provider counts rows from the bottom of the pyramid.
    pub fn flip_y(&self, z: u32, y: u32) -> (r: u32)
        requires
            z <= 30,
            y < pow2(z as nat),
        ensures
            r == tms_flip_spec(z as nat, y as int),
    {
        tms_flip(z, y)
    }
}

impl TilePlatform for TencentPlatform {
    open spec fn spec_id(&self) -> Seq<char> {
        "tencent"@
    }

    open spec fn spec_name(&self) -> Seq<char> {
        "腾讯地图"@
    }

    open spec fn spec_url(&self, z: u32, x: u32, y: u32, map_type: MapType) -> Option<
        Seq<char>,
    > {
        let s = subdomain_at(digit_subs(), x, y);
        let fy = tms_flip_spec(z as nat, y as int);
        match map_type {
            MapType::Street => Some(
                "http://rt"@ + s + ".map.gtimg.com/realtimerender?z="@ + ascii_view(
                    dec_rep(z as nat),
                ) + "&x="@ + ascii_view(dec_rep(x as nat)) + "&y="@ + ascii_view(
                    dec_rep(fy as nat),
                ) + "&type=vector&style=0"@,
            ),
            MapType::Satellite => Some(
                "http://p"@ + s + ".map.gtimg.com/sateTiles/"@ + ascii_view(dec_rep(z as nat))
                    + "/"@ + ascii_view(dec_rep((x / 16) as nat)) + "/"@ + ascii_view(
                    dec_rep((fy / 16) as nat),
                ) + "/"@ + ascii_view(dec_rep(x as nat)) + "_"@ + ascii_view(
                    dec_rep(fy as nat),
                ) + ".jpg"@,
            ),
            MapType::Terrain => Some(
                "http://rt"@ + s + ".map.gtimg.com/realtimerender?z="@ + ascii_view(
                    dec_rep(z as nat),
                ) + "&x="@ + ascii_view(dec_rep(x as nat)) + "&y="@ + ascii_view(
                    dec_rep(fy as nat),
                ) + "&type=vector&style=4"@,
            ),
            _ => None,
        }
    }

    open spec fn spec_max_zoom(&self) -> u32 {
        18
    }

    open spec fn spec_min_zoom(&self) -> u32 {
        1
    }

    open spec fn spec_map_types(&self) -> Seq<MapType> {
        seq![MapType::Street, MapType::Satellite, MapType::Terrain]
    }

    open spec fn spec_requires_key(&self) -> bool {
        false
    }

    open spec fn spec_key(&self) -> Option<Seq<char>> {
        match self.api_key {
            Some(k) => Some(k@),
            None => None,
        }
    }

    fn id(&self) -> (r: &'static str) {
        "tencent"
    }

    fn name(&self) -> (r: &'static str) {
        "腾讯地图"
    }

    fn get_tile_url(&self, z: u32, x: u32, y: u32, map_type: &MapType) -> (r: Option<String>) {
        let subs = digit_subdomains();
        let s = pick_subdomain(&subs, x, y);
        let fy = self.flip_y(z, y);
        match map_type {
            MapType::Street => {
                let mut u = "http://rt".to_owned();
                u.append(s.as_str());
                u.append(".map.gtimg.com/realtimerender?z=");
                u.append(u64_to_string(z as u64).as_str());
                u.append("&x=");
                u.append(u64_to_string(x as u64).as_str());
                u.append("&y=");
                u.append(u64_to_string(fy as u64).as_str());
                u.append("&type=vector&style=0");
                Some(u)
            },
            MapType::Satellite => {
                let sx = x / 16;
                let sy = fy / 16;
                let mut u = "http://p".to_owned();
                u.append(s.as_str());
                u.append(".map.gtimg.com/sateTiles/");
                u.append(u64_to_string(z as u64).as_str());
                u.append("/");
                u.append(u64_to_string(sx as u64).as_str());
                u.append("/");
                u.append(u64_to_string(sy as u64).as_str());
                u.append("/");
                u.append(u64_to_string(x as u64).as_str());
                u.append("_");
                u.append(u64_to_string(fy as u64).as_str());
                u.append(".jpg");
                Some(u)
            },
            MapType::Terrain => {
                let mut u = "http://rt".to_owned();
                u.append(s.as_str());
                u.append(".map.gtimg.com/realtimerender?z=");
                u.append(u64_to_string(z as u64).as_str());
                u.append("&x=");
                u.append(u64_to_string(x as u64).as_str());
                u.append("&y=");
                u.append(u64_to_string(fy as u64).as_str());
                u.append("&type=vector&style=4");
                Some(u)
            },
            _ => None,
        }
    }

    fn max_zoom(&self) -> (r: u32) {
        18
    }

    fn min_zoom(&self) -> (r: u32) {
        1
    }

    fn supported_map_types(&self) -> (r: Vec<MapType>) {
        let mut r: Vec<MapType> = Vec::new();
        r.push(MapType::Street);
        r.push(MapType::Satellite);
        r.push(MapType::Terrain);
        assert(r@ =~= self.spec_map_types());
        r
    }

    fn requires_api_key(&self) -> (r: bool) {
        false
    }

    fn set_api_key(&mut self, key: &str) {
        self.api_key = Some(key.to_owned());
    }
}

/// The national provider whose tile grid is centred on the origin with the
/// row axis pointing up.
pub struct BaiduPlatform {
    pub api_key: Option<String>,
}

impl BaiduPlatform {
    /// A provider handle with no key; none is needed.
    pub fn new() -> (r: BaiduPlatform)
        ensures
            r.api_key is None,
    {
        BaiduPlatform { api_key: None }
    }

    /// Converts a standard tile address into this provider's grid.
    pub fn convert_tile_coord(&self, z: u32, x: u32, y: u32) -> (r: (i32, i32))
        requires
            z <= 30,
            x < pow2(z as nat),
            y < pow2(z as nat),
        ensures
            r.0 == x - pow2(z as nat) / 2,
            r.1 == pow2(z as nat) / 2 - 1 - y,
    {
        baidu_tile_coord(z, x, y)
    }
}

impl TilePlatform for BaiduPlatform {
    open spec fn spec_id(&self) -> Seq<char> {
        "baidu"@
    }

    open spec fn spec_name(&self) -> Seq<char> {
        "百度地图"@
    }

    open spec fn spec_url(&self, z: u32, x: u32, y: u32, map_type: MapType) -> Option<
        Seq<char>,
    > {
        let s = subdomain_at(digit_subs(), x, y);
        let bx = x - pow2(z as nat) / 2;
        let by = pow2(z as nat) / 2 - 1 - y;
        match map_type {
            MapType::Street => Some(
                "http://online"@ + s + ".map.bdimg.com/onlinelabel/?qt=tile&x="@ + ascii_view(
                    i64_rep(bx),
                ) + "&y="@ + ascii_view(i64_rep(by)) + "&z="@ + ascii_view(dec_rep(z as nat))
                    + "&styles=pl&udt=20200101&scaler=1&p=1"@,
            ),
            MapType::Satellite => Some(
                "http://shangetu"@ + s + ".map.bdimg.com/it/u=x="@ + ascii_view(i64_rep(bx))
                    + ";y="@ + ascii_view(i64_rep(by)) + ";z="@ + ascii_view(dec_rep(z as nat))
                    + ";v=009;type=sate&fm=46"@,
            ),
            MapType::Roadnet => Some(
                "http://online"@ + s + ".map.bdimg.com/tile/?qt=tile&x="@ + ascii_view(
                    i64_rep(bx),
                ) + "&y="@ + ascii_view(i64_rep(by)) + "&z="@ + ascii_view(dec_rep(z as nat))
                    + "&styles=sl"@,
            ),
            _ => None,
        }
    }

    open spec fn spec_max_zoom(&self) -> u32 {
        19
    }

    open spec fn spec_min_zoom(&self) -> u32 {
        3
    }

    open spec fn spec_map_types(&self) -> Seq<MapType> {
        seq![MapType::Street, MapType::Satellite, MapType::Roadnet]
    }

    open spec fn spec_requires_key(&self) -> bool {
        false
    }

    open spec fn spec_key(&self) -> Option<Seq<char>> {
        match self.api_key {
            Some(k) => Some(k@),
            None => None,
        }
    }

    fn id(&self) -> (r: &'static str) {
        "baidu"
    }

    fn name(&self) -> (r: &'static str) {
        "百度地图"
    }

    fn get_tile_url(&self, z: u32, x: u32, y: u32, map_type: &MapType) -> (r: Option<String>) {
        let subs = digit_subdomains();
        let s = pick_subdomain(&subs, x, y);
        let (bx, by) = self.convert_tile_coord(z, x, y);
        match map_type {
            MapType::Street => {
                let mut u = "http://online".to_owned();
                u.append(s.as_str());
                u.append(".map.bdimg.com/onlinelabel/?qt=tile&x=");
                u.append(i64_to_string(bx as i64).as_str());
                u.append("&y=");
                u.append(i64_to_string(by as i64).as_str());
                u.append("&z=");
                u.append(u64_to_string(z as u64).as_str());
                u.append("&styles=pl&udt=20200101&scaler=1&p=1");
                Some(u)
            },
            MapType::Satellite => {
                let mut u = "http://shangetu".to_owned();
                u.append(s.as_str());
                u.append(".map.bdimg.com/it/u=x=");
                u.append(i64_to_string(bx as i64).as_str());
                u.append(";y=");
                u.append(i64_to_string(by as i64).as_str());
                u.append(";z=");
                u.append(u64_to_string(z as u64).as_str());
                u.append(";v=009;type=sate&fm=46");
                Some(u)
            },
            MapType::Roadnet => {
                let mut u = "http://online".to_owned();
                u.append(s.as_str());
                u.append(".map.bdimg.com/tile/?qt=tile&x=");
                u.append(i64_to_string(bx as i64).as_str());
                u.append("&y=");
                u.append(i64_to_string(by as i64).as_str());
                u.append("&z=");
                u.append(u64_to_string(z as u64).as_str());
                u.append("&styles=sl");
                Some(u)
            },
            _ => None,
        }
    }

    fn max_zoom(&self) -> (r: u32) {
        19
    }

    fn min_zoom(&self) -> (r: u32) {
        3
    }

    fn supported_map_types(&self) -> (r: Vec<MapType>) {
        let mut r: Vec<MapType> = Vec::new();
        r.push(MapType::Street);
        r.push(MapType::Satellite);
        r.push(MapType::Roadnet);
        assert(r@ =~= self.spec_map_types());
        r
    }

    fn requires_api_key(&self) -> (r: bool) {
        false
    }

    fn set_api_key(&mut self, key: &str) {
        self.api_key = Some(key.to_owned());
    }
}

/// The provider that addresses tiles by base-four quadkeys.
pub struct BingPlatform {
    pub api_key: Option<String>,
}

impl BingPlatform {
    /// A provider handle with no key; none is needed.
    pub fn new() -> (r: BingPlatform)
        ensures
            r.api_key is None,
    {
        BingPlatform { api_key: None }
    }

    /// Encodes a tile address as this provider's quadkey.
    pub fn tile_to_quadkey(&self, z: u32, x: u32, y: u32) -> (r: String)
        ensures
            r@ == ascii_view(quadkey_bytes(z as nat, x as nat, y as nat)),
    {
        let mut out: Vec<u8> = Vec::new();
        push_quadkey(&mut out, z, x, y);
        proof {
            crate::tiles::lemma_quadkey_ascii(z as nat, x as nat, y as nat);
        }
        crate::text::ascii_to_string(out)
    }
}

/// The type letter and file suffix of a map type on the quadkey provider.
pub open spec fn bing_kind(map_type: MapType) -> Option<(Seq<char>, Seq<char>)> {
    match map_type {
        MapType::Street => Some(("r"@, "png"@)),
        MapType::Satellite => Some(("a"@, "jpeg"@)),
        MapType::Hybrid => Some(("h"@, "jpeg"@)),
        _ => None,
    }
}

impl TilePlatform for BingPlatform {
    open spec fn spec_id(&self) -> Seq<char> {
        "bing"@
    }

    open spec fn spec_name(&self) -> Seq<char> {
        "Bing地图"@
    }

    open spec fn spec_url(&self, z: u32, x: u32, y: u32, map_type: MapType) -> Option<
        Seq<char>,
    > {
        match bing_kind(map_type) {
            None => None,
            Some(kind) => Some(
                "http://ecn.t"@ + subdomain_at(digit_subs(), x, y)
                    + ".tiles.virtualearth.net/tiles/"@ + kind.0 + ascii_view(
                    quadkey_bytes(z as nat, x as nat, y as nat),
                ) + "."@ + kind.1 + "?g=587"@,
            ),
        }
    }

    open spec fn spec_max_zoom(&self) -> u32 {
        19
    }

    open spec fn spec_min_zoom(&self) -> u32 {
        1
    }

    open spec fn spec_map_types(&self) -> Seq<MapType> {
        seq![MapType::Street, MapType::Satellite, MapType::Hybrid]
    }

    open spec fn spec_requires_key(&self) -> bool {
        false
    }

    open spec fn spec_key(&self) -> Option<Seq<char>> {
        match self.api_key {
            Some(k) => Some(k@),
            None => None,
        }
    }

    fn id(&self) -> (r: &'static str) {
        "bing"
    }

    fn name(&self) -> (r: &'static str) {
        "Bing地图"
    }

    fn get_tile_url(&self, z: u32, x: u32, y: u32, map_type: &MapType) -> (r: Option<String>) {
        let (url_type, suffix): (&'static str, &'static str) = match map_type {
            MapType::Street => ("r", "png"),
            MapType::Satellite => ("a", "jpeg"),
            MapType::Hybrid => ("h", "jpeg"),
            _ => {
                return None;
            },
        };
        let subs = digit_subdomains();
        let s = pick_subdomain(&subs, x, y);
        let quadkey = self.tile_to_quadkey(z, x, y);
        let mut u = "http://ecn.t".to_owned();
        u.append(s.as_str());
        u.append(".tiles.virtualearth.net/tiles/");
        u.append(url_type);
        u.append(quadkey.as_str());
        u.append(".");
        u.append(suffix);
        u.append("?g=587");
        Some(u)
    }

    fn max_zoom(&self) -> (r: u32) {
        19
    }

    fn min_zoom(&self) -> (r: u32) {
        1
    }

    fn supported_map_types(&self) -> (r: Vec<MapType>) {
        let mut r: Vec<MapType> = Vec::new();
        r.push(MapType::Street);
        r.push(MapType::Satellite);
        r.push(MapType::Hybrid);
        assert(r@ =~= self.spec_map_types());
        r
    }

    fn requires_api_key(&self) -> (r: bool) {
        false
    }

    fn set_api_key(&mut self, key: &str) {
        self.api_key = Some(key.to_owned());
    }
}

/// The national official provider: keyed requests over eight mirrors.
pub struct TiandituPlatform {
    pub api_key: Option<String>,
}

/// The mirror labels zero to seven.
pub open spec fn eight_subs() -> Seq<Seq<char>> {
    seq!["0"@, "1"@, "2"@, "3"@, "4"@, "5"@, "6"@, "7"@]
}

/// The eight-mirror list.
pub fn eight_subdomains() -> (r: Vec<String>)
    ensures
        r@.map_values(|s: String| s@) =~= eight_subs(),
{
    let mut r: Vec<String> = Vec::new();
    r.push("0".to_owned());
    r.push("1".to_owned());
    r.push("2".to_owned());
    r.push("3".to_owned());
    r.push("4".to_owned());
    r.push("5".to_owned());
    r.push("6".to_owned());
    r.push("7".to_owned());
    r
}

/// The layer code of a map type on the official provider.
pub open spec fn tianditu_layer(map_type: MapType) -> Option<Seq<char>> {
    match map_type {
        MapType::Street => Some("vec"@),
        MapType::Satellite => Some("img"@),
        MapType::Terrain => Some("ter"@),
        MapType::Annotation => Some("cva"@),
        _ => None,
    }
}

impl TiandituPlatform {
    /// A provider handle; requests fail without a key.
    pub fn new() -> (r: TiandituPlatform)
        ensures
            r.api_key is None,
    {
        TiandituPlatform { api_key: None }
    }
}

impl TilePlatform for TiandituPlatform {
    open spec fn spec_id(&self) -> Seq<char> {
        "tianditu"@
    }

    open spec fn spec_name(&self) -> Seq<char> {
        "天地图"@
    }

    open spec fn spec_url(&self, z: u32, x: u32, y: u32, map_type: MapType) -> Option<
        Seq<char>,
    > {
        if self.api_key is None {
            None
        } else {
            match tianditu_layer(map_type) {
                None => None,
                Some(layer) => Some(
                    "http://t"@ + subdomain_at(eight_subs(), x, y) + ".tianditu.gov.cn/"@
                        + layer
                        + "_w/wmts?SERVICE=WMTS&REQUEST=GetTile&VERSION=1.0.0&LAYER="@ + layer
                        + "&STYLE=default&TILEMATRIXSET=w&FORMAT=tiles&TILECOL="@ + ascii_view(
                        dec_rep(x as nat),
                    ) + "&TILEROW="@ + ascii_view(dec_rep(y as nat)) + "&TILEMATRIX="@
                        + ascii_view(dec_rep(z as nat)) + "&tk="@ + (self.api_key->0)@,
                ),
            }
        }
    }

    open spec fn spec_max_zoom(&self) -> u32 {
        18
    }

    open spec fn spec_min_zoom(&self) -> u32 {
        1
    }

    open spec fn spec_map_types(&self) -> Seq<MapType> {
        seq![MapType::Street, MapType::Satellite, MapType::Terrain, MapType::Annotation]
    }

    open spec fn spec_requires_key(&self) -> bool {
        true
    }

    open spec fn spec_key(&self) -> Option<Seq<char>> {
        match self.api_key {
            Some(k) => Some(k@),
            None => None,
        }
    }

    fn id(&self) -> (r: &'static str) {
        "tianditu"
    }

    fn name(&self) -> (r: &'static str) {
        "天地图"
    }

    fn get_tile_url(&self, z: u32, x: u32, y: u32, map_type: &MapType) -> (r: Option<String>) {
        let key = match &self.api_key {
            Some(k) => k,
            None => {
                return None;
            },
        };
        let layer = match map_type {
            MapType::Street => "vec",
            MapType::Satellite => "img",
            MapType::Terrain => "ter",
            MapType::Annotation => "cva",
            _ => {
                return None;
            },
        };
        let subs = eight_subdomains();
        let s = pick_subdomain(&subs, x, y);
        let mut u = "http://t".to_owned();
        u.append(s.as_str());
        u.append(".tianditu.gov.cn/");
        u.append(layer);
        u.append("_w/wmts?SERVICE=WMTS&REQUEST=GetTile&VERSION=1.0.0&LAYER=");
        u.append(layer);
        u.append("&STYLE=default&TILEMATRIXSET=w&FORMAT=tiles&TILECOL=");
        u.append(u64_to_string(x as u64).as_str());
        u.append("&TILEROW=");
        u.append(u64_to_string(y as u64).as_str());
        u.append("&TILEMATRIX=");
        u.append(u64_to_string(z as u64).as_str());
        u.append("&tk=");
        u.append(key.as_str());
        Some(u)
    }

    fn max_zoom(&self) -> (r: u32) {
        18
    }

    fn min_zoom(&self) -> (r: u32) {
        1
    }

    fn supported_map_types(&self) -> (r: Vec<MapType>) {
        let mut r: Vec<MapType> = Vec::new();
        r.push(MapType::Street);
        r.push(MapType::Satellite);
        r.push(MapType::Terrain);
        r.push(MapType::Annotation);
        assert(r@ =~= self.spec_map_types());
        r
    }

    fn requires_api_key(&self) -> (r: bool) {
        true
    }

    fn set_api_key(&mut self, key: &str) {
        self.api_key = Some(key.to_owned());
    }
}

/// One provider of the closed set, selected by tag at run time.
pub enum AnyPlatform {
    Google(GooglePlatform),
    Baidu(BaiduPlatform),
    Amap(AmapPlatform),
    Tencent(TencentPlatform),
    Tianditu(TiandituPlatform),
    Osm(OsmPlatform),
    ArcGis(ArcGisPlatform),
    Bing(BingPlatform),
}

impl TilePlatform for AnyPlatform {
    open spec fn spec_id(&self) -> Seq<char> {
        match self {
            AnyPlatform::Google(p) => p.spec_id(),
            AnyPlatform::Baidu(p) => p.spec_id(),
            AnyPlatform::Amap(p) => p.spec_id(),
            AnyPlatform::Tencent(p) => p.spec_id(),
            AnyPlatform::Tianditu(p) => p.spec_id(),
            AnyPlatform::Osm(p) => p.spec_id(),
            AnyPlatform::ArcGis(p) => p.spec_id(),
            AnyPlatform::Bing(p) => p.spec_id(),
        }
    }

    open spec fn spec_name(&self) -> Seq<char> {
        match self {
            AnyPlatform::Google(p) => p.spec_name(),
            AnyPlatform::Baidu(p) => p.spec_name(),
            AnyPlatform::Amap(p) => p.spec_name(),
            AnyPlatform::Tencent(p) => p.spec_name(),
            AnyPlatform::Tianditu(p) => p.spec_name(),
            AnyPlatform::Osm(p) => p.spec_name(),
            AnyPlatform::ArcGis(p) => p.spec_name(),
            AnyPlatform::Bing(p) => p.spec_name(),
        }
    }

    open spec fn spec_url(&self, z: u32, x: u32, y: u32, map_type: MapType) -> Option<
        Seq<char>,
    > {
        match self {
            AnyPlatform::Google(p) => p.spec_url(z, x, y, map_type),
            AnyPlatform::Baidu(p) => p.spec_url(z, x, y, map_type),
            AnyPlatform::Amap(p) => p.spec_url(z, x, y, map_type),
            AnyPlatform::Tencent(p) => p.spec_url(z, x, y, map_type),
            AnyPlatform::Tianditu(p) => p.spec_url(z, x, y, map_type),
            AnyPlatform::Osm(p) => p.spec_url(z, x, y, map_type),
            AnyPlatform::ArcGis(p) => p.spec_url(z, x, y, map_type),
            AnyPlatform::Bing(p) => p.spec_url(z, x, y, map_type),
        }
    }

    open spec fn spec_max_zoom(&self) -> u32 {
        match self {
            AnyPlatform::Google(p) => p.spec_max_zoom(),
            AnyPlatform::Baidu(p) => p.spec_max_zoom(),
            AnyPlatform::Amap(p) => p.spec_max_zoom(),
            AnyPlatform::Tencent(p) => p.spec_max_zoom(),
            AnyPlatform::Tianditu(p) => p.spec_max_zoom(),
            AnyPlatform::Osm(p) => p.spec_max_zoom(),
            AnyPlatform::ArcGis(p) => p.spec_max_zoom(),
            AnyPlatform::Bing(p) => p.spec_max_zoom(),
        }
    }

    open spec fn spec_min_zoom(&self) -> u32 {
        match self {
            AnyPlatform::Google(p) => p.spec_min_zoom(),
            AnyPlatform::Baidu(p) => p.spec_min_zoom(),
            AnyPlatform::Amap(p) => p.spec_min_zoom(),
            AnyPlatform::Tencent(p) => p.spec_min_zoom(),
            AnyPlatform::Tianditu(p) => p.spec_min_zoom(),
            AnyPlatform::Osm(p) => p.spec_min_zoom(),
            AnyPlatform::ArcGis(p) => p.spec_min_zoom(),
            AnyPlatform::Bing(p) => p.spec_min_zoom(),
        }
    }

    open spec fn spec_map_types(&self) -> Seq<MapType> {
        match self {
            AnyPlatform::Google(p) => p.spec_map_types(),
            AnyPlatform::Baidu(p) => p.spec_map_types(),
            AnyPlatform::Amap(p) => p.spec_map_types(),
            AnyPlatform::Tencent(p) => p.spec_map_types(),
            AnyPlatform::Tianditu(p) => p.spec_map_types(),
            AnyPlatform::Osm(p) => p.spec_map_types(),
            AnyPlatform::ArcGis(p) => p.spec_map_types(),
            AnyPlatform::Bing(p) => p.spec_map_types(),
        }
    }

    open spec fn spec_requires_key(&self) -> bool {
        match self {
            AnyPlatform::Google(p) => p.spec_requires_key(),
            AnyPlatform::Baidu(p) => p.spec_requires_key(),
            AnyPlatform::Amap(p) => p.spec_requires_key(),
            AnyPlatform::Tencent(p) => p.spec_requires_key(),
            AnyPlatform::Tianditu(p) => p.spec_requires_key(),
            AnyPlatform::Osm(p) => p.spec_requires_key(),
            AnyPlatform::ArcGis(p) => p.spec_requires_key(),
            AnyPlatform::Bing(p) => p.spec_requires_key(),
        }
    }

    open spec fn spec_key(&self) -> Option<Seq<char>> {
        match self {
            AnyPlatform::Google(p) => p.spec_key(),
            AnyPlatform::Baidu(p) => p.spec_key(),
            AnyPlatform::Amap(p) => p.spec_key(),
            AnyPlatform::Tencent(p) => p.spec_key(),
            AnyPlatform::Tianditu(p) => p.spec_key(),
            AnyPlatform::Osm(p) => p.spec_key(),
            AnyPlatform::ArcGis(p) => p.spec_key(),
            AnyPlatform::Bing(p) => p.spec_key(),
        }
    }

    fn id(&self) -> (r: &'static str) {
        match self {
            AnyPlatform::Google(p) => p.id(),
            AnyPlatform::Baidu(p) => p.id(),
            AnyPlatform::Amap(p) => p.id(),
            AnyPlatform::Tencent(p) => p.id(),
            AnyPlatform::Tianditu(p) => p.id(),
            AnyPlatform::Osm(p) => p.id(),
            AnyPlatform::ArcGis(p) => p.id(),
            AnyPlatform::Bing(p) => p.id(),
        }
    }

    fn name(&self) -> (r: &'static str) {
        match self {
            AnyPlatform::Google(p) => p.name(),
            AnyPlatform::Baidu(p) => p.name(),
            AnyPlatform::Amap(p) => p.name(),
            AnyPlatform::Tencent(p) => p.name(),
            AnyPlatform::Tianditu(p) => p.name(),
            AnyPlatform::Osm(p) => p.name(),
            AnyPlatform::ArcGis(p) => p.name(),
            AnyPlatform::Bing(p) => p.name(),
        }
    }

    fn get_tile_url(&self, z: u32, x: u32, y: u32, map_type: &MapType) -> (r: Option<String>) {
        match self {
            AnyPlatform::Google(p) => p.get_tile_url(z, x, y, map_type),
            AnyPlatform::Baidu(p) => p.get_tile_url(z, x, y, map_type),
            AnyPlatform::Amap(p) => p.get_tile_url(z, x, y, map_type),
            AnyPlatform::Tencent(p) => p.get_tile_url(z, x, y, map_type),
            AnyPlatform::Tianditu(p) => p.get_tile_url(z, x, y, map_type),
            AnyPlatform::Osm(p) => p.get_tile_url(z, x, y, map_type),
            AnyPlatform::ArcGis(p) => p.get_tile_url(z, x, y, map_type),
            AnyPlatform::Bing(p) => p.get_tile_url(z, x, y, map_type),
        }
    }

    fn max_zoom(&self) -> (r: u32) {
        match self {
            AnyPlatform::Google(p) => p.max_zoom(),
            AnyPlatform::Baidu(p) => p.max_zoom(),
            AnyPlatform::Amap(p) => p.max_zoom(),
            AnyPlatform::Tencent(p) => p.max_zoom(),
            AnyPlatform::Tianditu(p) => p.max_zoom(),
            AnyPlatform::Osm(p) => p.max_zoom(),
            AnyPlatform::ArcGis(p) => p.max_zoom(),
            AnyPlatform::Bing(p) => p.max_zoom(),
        }
    }

    fn min_zoom(&self) -> (r: u32) {
        match self {
            AnyPlatform::Google(p) => p.min_zoom(),
            AnyPlatform::Baidu(p) => p.min_zoom(),
            AnyPlatform::Amap(p) => p.min_zoom(),
            AnyPlatform::Tencent(p) => p.min_zoom(),
            AnyPlatform::Tianditu(p) => p.min_zoom(),
            AnyPlatform::Osm(p) => p.min_zoom(),
            AnyPlatform::ArcGis(p) => p.min_zoom(),
            AnyPlatform::Bing(p) => p.min_zoom(),
        }
    }

    fn supported_map_types(&self) -> (r: Vec<MapType>) {
        match self {
            AnyPlatform::Google(p) => p.supported_map_types(),
            AnyPlatform::Baidu(p) => p.supported_map_types(),
            AnyPlatform::Amap(p) => p.supported_map_types(),
            AnyPlatform::Tencent(p) => p.supported_map_types(),
            AnyPlatform::Tianditu(p) => p.supported_map_types(),
            AnyPlatform::Osm(p) => p.supported_map_types(),
            AnyPlatform::ArcGis(p) => p.supported_map_types(),
            AnyPlatform::Bing(p) => p.supported_map_types(),
        }
    }

    fn requires_api_key(&self) -> (r: bool) {
        match self {
            AnyPlatform::Google(p) => p.requires_api_key(),
            AnyPlatform::Baidu(p) => p.requires_api_key(),
            AnyPlatform::Amap(p) => p.requires_api_key(),
            AnyPlatform::Tencent(p) => p.requires_api_key(),
            AnyPlatform::Tianditu(p) => p.requires_api_key(),
            AnyPlatform::Osm(p) => p.requires_api_key(),
            AnyPlatform::ArcGis(p) => p.requires_api_key(),
            AnyPlatform::Bing(p) => p.requires_api_key(),
        }
    }

    fn set_api_key(&mut self, key: &str) {
        match self {
            AnyPlatform::Google(p) => p.set_api_key(key),
            AnyPlatform::Baidu(p) => p.set_api_key(key),
            AnyPlatform::Amap(p) => p.set_api_key(key),
            AnyPlatform::Tencent(p) => p.set_api_key(key),
            AnyPlatform::Tianditu(p) => p.set_api_key(key),
            AnyPlatform::Osm(p) => p.set_api_key(key),
            AnyPlatform::ArcGis(p) => p.set_api_key(key),
            AnyPlatform::Bing(p) => p.set_api_key(key),
        }
    }
}

/// Creates the provider for a platform tag; anything unknown falls back to
/// the open provider, and a given key is stored on the new handle.
pub fn create_platform(platform: &str, api_key: Option<&str>) -> (r: AnyPlatform)
    ensures
        r.spec_id() == crate::types::MapPlatform::parse_spec(platform.spec_bytes()).label(),
        api_key matches Some(k) ==> r.spec_key() == Some(k@),
        api_key is None ==> r.spec_key() is None,
{
    let mut p: AnyPlatform = match crate::types::MapPlatform::from(platform) {
        crate::types::MapPlatform::Google => AnyPlatform::Google(GooglePlatform::new()),
        crate::types::MapPlatform::Baidu => AnyPlatform::Baidu(BaiduPlatform::new()),
        crate::types::MapPlatform::Amap => AnyPlatform::Amap(AmapPlatform::new()),
        crate::types::MapPlatform::Tencent => AnyPlatform::Tencent(TencentPlatform::new()),
        crate::types::MapPlatform::Tianditu => AnyPlatform::Tianditu(TiandituPlatform::new()),
        crate::types::MapPlatform::Osm => AnyPlatform::Osm(OsmPlatform::new()),
        crate::types::MapPlatform::ArcGis => AnyPlatform::ArcGis(ArcGisPlatform::new()),
        crate::types::MapPlatform::Bing => AnyPlatform::Bing(BingPlatform::new()),
    };
    if let Some(key) = api_key {
        p.set_api_key(key);
    }
    p
}

/// The capability sheets of every provider, in registry order; only the
/// national official provider requires a key.
pub fn get_all_platforms() -> (r: Vec<PlatformInfo>)
    ensures
        r@.len() == 8,
        r@[0].id@ == "google"@ && r@[0].min_zoom == 0 && r@[0].max_zoom == 21 && !r@[0].requires_key
            && r@[0].map_types@.len() == 4,
        r@[1].id@ == "baidu"@ && r@[1].min_zoom == 3 && r@[1].max_zoom == 19 && !r@[1].requires_key
            && r@[1].map_types@.len() == 3,
        r@[2].id@ == "amap"@ && r@[2].min_zoom == 1 && r@[2].max_zoom == 18 && !r@[2].requires_key
            && r@[2].map_types@.len() == 3,
        r@[3].id@ == "tencent"@ && r@[3].min_zoom == 1 && r@[3].max_zoom == 18
            && !r@[3].requires_key && r@[3].map_types@.len() == 3,
        r@[4].id@ == "tianditu"@ && r@[4].min_zoom == 1 && r@[4].max_zoom == 18
            && r@[4].requires_key && r@[4].map_types@.len() == 4,
        r@[5].id@ == "osm"@ && r@[5].min_zoom == 0 && r@[5].max_zoom == 19 && !r@[5].requires_key
            && r@[5].map_types@.len() == 1,
        r@[6].id@ == "arcgis"@ && r@[6].min_zoom == 0 && r@[6].max_zoom == 19
            && !r@[6].requires_key && r@[6].map_types@.len() == 3,
        r@[7].id@ == "bing"@ && r@[7].min_zoom == 1 && r@[7].max_zoom == 19 && !r@[7].requires_key
            && r@[7].map_types@.len() == 3,
{
    let mut r: Vec<PlatformInfo> = Vec::new();
    r.push(platform_info(&GooglePlatform::new()));
    r.push(platform_info(&BaiduPlatform::new()));
    r.push(platform_info(&AmapPlatform::new()));
    r.push(platform_info(&TencentPlatform::new()));
    r.push(platform_info(&TiandituPlatform::new()));
    r.push(platform_info(&OsmPlatform::new()));
    r.push(platform_info(&ArcGisPlatform::new()));
    r.push(platform_info(&BingPlatform::new()));
    r
}

} // verus!
