//! Core data model of the tile downloader: task and tile states, platform
//! and map-type tags, bounds in fixed-point degrees, task records.
//!
//! Geographic degrees are held as `i64` values scaled by `10^7` (marked
//! `_e7`), so every comparison and formula over them is exact integer
//! arithmetic.

use vstd::prelude::*;
use crate::text::{ascii_lower, bytes_eq, lower_bytes};

verus! {

use vstd::string::StringSliceAdditionalSpecFns;

/// Latitude limit of the Web-Mercator projection, in `10^-7` degrees.
pub const MERCATOR_LAT_LIMIT_E7: i64 = 850511000;

/// Longitude limit, in `10^-7` degrees.
pub const LON_LIMIT_E7: i64 = 1800000000;

/// Lifecycle of a download task.
#[derive(Debug, Clone, Copy, PartialEq, Eq, Structural)]
pub enum TaskStatus {
    Pending,
    Downloading,
    Paused,
    Completed,
    Failed,
    Cancelled,
}

impl TaskStatus {
    /// The stored label of this status.
    pub open spec fn label(self) -> Seq<char> {
        match self {
            TaskStatus::Pending => "pending"@,
            TaskStatus::Downloading => "downloading"@,
            TaskStatus::Paused => "paused"@,
            TaskStatus::Completed => "completed"@,
            TaskStatus::Failed => "failed"@,
            TaskStatus::Cancelled => "cancelled"@,
        }
    }

    /// Renders the status as its stored label.
    pub fn to_string(&self) -> (s: String)
        ensures
            s@ == self.label(),
    {
        match self {
            TaskStatus::Pending => "pending".to_owned(),
            TaskStatus::Downloading => "downloading".to_owned(),
            TaskStatus::Paused => "paused".to_owned(),
            TaskStatus::Completed => "completed".to_owned(),
            TaskStatus::Failed => "failed".to_owned(),
            TaskStatus::Cancelled => "cancelled".to_owned(),
        }
    }

    /// Which status a stored label denotes; anything unknown reads as pending.
    pub open spec fn parse_spec(b: Seq<u8>) -> TaskStatus {
        if b == "downloading".spec_bytes() {
            TaskStatus::Downloading
        } else if b == "paused".spec_bytes() {
            TaskStatus::Paused
        } else if b == "completed".spec_bytes() {
            TaskStatus::Completed
        } else if b == "failed".spec_bytes() {
            TaskStatus::Failed
        } else if b == "cancelled".spec_bytes() {
            TaskStatus::Cancelled
        } else {
            TaskStatus::Pending
        }
    }

    /// Reads a status back from its stored label.
    pub fn from(s: &str) -> (r: TaskStatus)
        ensures
            r == TaskStatus::parse_spec(s.spec_bytes()),
    {
        let b = s.as_bytes();
        if bytes_eq(b, "downloading".as_bytes()) {
            TaskStatus::Downloading
        } else if bytes_eq(b, "paused".as_bytes()) {
            TaskStatus::Paused
        } else if bytes_eq(b, "completed".as_bytes()) {
            TaskStatus::Completed
        } else if bytes_eq(b, "failed".as_bytes()) {
            TaskStatus::Failed
        } else if bytes_eq(b, "cancelled".as_bytes()) {
            TaskStatus::Cancelled
        } else {
            TaskStatus::Pending
        }
    }

    /// The stored state machine of a task: which moves the engine may make.
    pub open spec fn can_transition(self, to: TaskStatus) -> bool {
        ||| (self == TaskStatus::Pending && to == TaskStatus::Downloading)
        ||| (self == TaskStatus::Downloading && to == TaskStatus::Paused)
        ||| (self == TaskStatus::Paused && to == TaskStatus::Downloading)
        ||| (self == TaskStatus::Downloading && to == TaskStatus::Completed)
        ||| (self == TaskStatus::Downloading && to == TaskStatus::Cancelled)
        ||| (to == TaskStatus::Failed)
        ||| ((self == TaskStatus::Completed || self == TaskStatus::Failed) && to
            == TaskStatus::Pending)
    }

    /// Runtime check of the state machine above.
    pub fn transition_allowed(&self, to: &TaskStatus) -> (r: bool)
        ensures
            r == self.can_transition(*to),
    {
        match (self, to) {
            (TaskStatus::Pending, TaskStatus::Downloading) => true,
            (TaskStatus::Downloading, TaskStatus::Paused) => true,
            (TaskStatus::Paused, TaskStatus::Downloading) => true,
            (TaskStatus::Downloading, TaskStatus::Completed) => true,
            (TaskStatus::Downloading, TaskStatus::Cancelled) => true,
            (_, TaskStatus::Failed) => true,
            (TaskStatus::Completed, TaskStatus::Pending) => true,
            (TaskStatus::Failed, TaskStatus::Pending) => true,
            _ => false,
        }
    }
}

/// Map providers the downloader knows.
#[derive(Debug, Clone, Copy, PartialEq, Eq, Structural)]
pub enum MapPlatform {
    Google,
    Baidu,
    Amap,
    Tencent,
    Tianditu,
    Osm,
    ArcGis,
    Bing,
}

impl MapPlatform {
    /// The identifier of this platform.
    pub open spec fn label(self) -> Seq<char> {
        match self {
            MapPlatform::Google => "google"@,
            MapPlatform::Baidu => "baidu"@,
            MapPlatform::Amap => "amap"@,
            MapPlatform::Tencent => "tencent"@,
            MapPlatform::Tianditu => "tianditu"@,
            MapPlatform::Osm => "osm"@,
            MapPlatform::ArcGis => "arcgis"@,
            MapPlatform::Bing => "bing"@,
        }
    }

    /// Renders the platform tag.
    pub fn to_string(&self) -> (s: String)
        ensures
            s@ == self.label(),
    {
        match self {
            MapPlatform::Google => "google".to_owned(),
            MapPlatform::Baidu => "baidu".to_owned(),
            MapPlatform::Amap => "amap".to_owned(),
            MapPlatform::Tencent => "tencent".to_owned(),
            MapPlatform::Tianditu => "tianditu".to_owned(),
            MapPlatform::Osm => "osm".to_owned(),
            MapPlatform::ArcGis => "arcgis".to_owned(),
            MapPlatform::Bing => "bing".to_owned(),
        }
    }

    /// Which platform a tag denotes after ASCII case folding; anything
    /// unknown reads as the open provider.
    pub open spec fn parse_spec(b: Seq<u8>) -> MapPlatform {
        if lower_bytes(b) == "google".spec_bytes() {
            MapPlatform::Google
        } else if lower_bytes(b) == "baidu".spec_bytes() {
            MapPlatform::Baidu
        } else if lower_bytes(b) == "amap".spec_bytes() {
            MapPlatform::Amap
        } else if lower_bytes(b) == "tencent".spec_bytes() {
            MapPlatform::Tencent
        } else if lower_bytes(b) == "tianditu".spec_bytes() {
            MapPlatform::Tianditu
        } else if lower_bytes(b) == "osm".spec_bytes() {
            MapPlatform::Osm
        } else if lower_bytes(b) == "arcgis".spec_bytes() {
            MapPlatform::ArcGis
        } else if lower_bytes(b) == "bing".spec_bytes() {
            MapPlatform::Bing
        } else {
            MapPlatform::Osm
        }
    }

    /// Reads a platform tag, case-insensitively.
    pub fn from(s: &str) -> (r: MapPlatform)
        ensures
            r == MapPlatform::parse_spec(s.spec_bytes()),
    {
        let low = ascii_lower(s.as_bytes());
        let b = low.as_slice();
        if bytes_eq(b, "google".as_bytes()) {
            MapPlatform::Google
        } else if bytes_eq(b, "baidu".as_bytes()) {
            MapPlatform::Baidu
        } else if bytes_eq(b, "amap".as_bytes()) {
            MapPlatform::Amap
        } else if bytes_eq(b, "tencent".as_bytes()) {
            MapPlatform::Tencent
        } else if bytes_eq(b, "tianditu".as_bytes()) {
            MapPlatform::Tianditu
        } else if bytes_eq(b, "osm".as_bytes()) {
            MapPlatform::Osm
        } else if bytes_eq(b, "arcgis".as_bytes()) {
            MapPlatform::ArcGis
        } else if bytes_eq(b, "bing".as_bytes()) {
            MapPlatform::Bing
        } else {
            MapPlatform::Osm
        }
    }
}

/// Kinds of map imagery a provider may offer.
#[derive(Debug, Clone, Copy, PartialEq, Eq, Structural)]
pub enum MapType {
    Street,
    Satellite,
    Hybrid,
    Terrain,
    Roadnet,
    Annotation,
}

impl MapType {
    /// The identifier of this map type.
    pub open spec fn label(self) -> Seq<char> {
        match self {
            MapType::Street => "street"@,
            MapType::Satellite => "satellite"@,
            MapType::Hybrid => "hybrid"@,
            MapType::Terrain => "terrain"@,
            MapType::Roadnet => "roadnet"@,
            MapType::Annotation => "annotation"@,
        }
    }

    /// Renders the map type tag.
    pub fn to_string(&self) -> (s: String)
        ensures
            s@ == self.label(),
    {
        match self {
            MapType::Street => "street".to_owned(),
            MapType::Satellite => "satellite".to_owned(),
            MapType::Hybrid => "hybrid".to_owned(),
            MapType::Terrain => "terrain".to_owned(),
            MapType::Roadnet => "roadnet".to_owned(),
            MapType::Annotation => "annotation".to_owned(),
        }
    }

    /// Which map type a tag denotes after ASCII case folding; anything
    /// unknown reads as the street map.
    pub open spec fn parse_spec(b: Seq<u8>) -> MapType {
        if lower_bytes(b) == "satellite".spec_bytes() {
            MapType::Satellite
        } else if lower_bytes(b) == "hybrid".spec_bytes() {
            MapType::Hybrid
        } else if lower_bytes(b) == "terrain".spec_bytes() {
            MapType::Terrain
        } else if lower_bytes(b) == "roadnet".spec_bytes() {
            MapType::Roadnet
        } else if lower_bytes(b) == "annotation".spec_bytes() {
            MapType::Annotation
        } else {
            MapType::Street
        }
    }

    /// Reads a map type tag, case-insensitively.
    pub fn from(s: &str) -> (r: MapType)
        ensures
            r == MapType::parse_spec(s.spec_bytes()),
    {
        let low = ascii_lower(s.as_bytes());
        let b = low.as_slice();
        if bytes_eq(b, "satellite".as_bytes()) {
            MapType::Satellite
        } else if bytes_eq(b, "hybrid".as_bytes()) {
            MapType::Hybrid
        } else if bytes_eq(b, "terrain".as_bytes()) {
            MapType::Terrain
        } else if bytes_eq(b, "roadnet".as_bytes()) {
            MapType::Roadnet
        } else if bytes_eq(b, "annotation".as_bytes()) {
            MapType::Annotation
        } else {
            MapType::Street
        }
    }
}

/// How a finished tile set is materialised on disk.
#[derive(Debug, Clone, Copy, PartialEq, Eq, Structural)]
pub enum OutputFormat {
    Folder,
    Mbtiles,
    Zip,
}

impl OutputFormat {
    /// The identifier of this output format.
    pub open spec fn label(self) -> Seq<char> {
        match self {
            OutputFormat::Folder => "folder"@,
            OutputFormat::Mbtiles => "mbtiles"@,
            OutputFormat::Zip => "zip"@,
        }
    }

    /// Renders the format tag.
    pub fn to_string(&self) -> (s: String)
        ensures
            s@ == self.label(),
    {
        match self {
            OutputFormat::Folder => "folder".to_owned(),
            OutputFormat::Mbtiles => "mbtiles".to_owned(),
            OutputFormat::Zip => "zip".to_owned(),
        }
    }

    /// Which format a tag denotes after ASCII case folding; anything unknown
    /// reads as the folder layout.
    pub open spec fn parse_spec(b: Seq<u8>) -> OutputFormat {
        if lower_bytes(b) == "mbtiles".spec_bytes() {
            OutputFormat::Mbtiles
        } else if lower_bytes(b) == "zip".spec_bytes() {
            OutputFormat::Zip
        } else {
            OutputFormat::Folder
        }
    }

    /// Reads a format tag, case-insensitively.
    pub fn from(s: &str) -> (r: OutputFormat)
        ensures
            r == OutputFormat::parse_spec(s.spec_bytes()),
    {
        let low = ascii_lower(s.as_bytes());
        let b = low.as_slice();
        if bytes_eq(b, "mbtiles".as_bytes()) {
            OutputFormat::Mbtiles
        } else if bytes_eq(b, "zip".as_bytes()) {
            OutputFormat::Zip
        } else {
            OutputFormat::Folder
        }
    }
}

/// Per-tile progress state in the store.
#[derive(Debug, Clone, Copy, PartialEq, Eq, Structural)]
pub enum TileStatus {
    Pending,
    Completed,
    Failed,
}

impl TileStatus {
    /// The stored label of this tile state.
    pub open spec fn label(self) -> Seq<char> {
        match self {
            TileStatus::Pending => "pending"@,
            TileStatus::Completed => "completed"@,
            TileStatus::Failed => "failed"@,
        }
    }

    /// Renders the tile state label.
    pub fn to_string(&self) -> (s: String)
        ensures
            s@ == self.label(),
    {
        match self {
            TileStatus::Pending => "pending".to_owned(),
            TileStatus::Completed => "completed".to_owned(),
            TileStatus::Failed => "failed".to_owned(),
        }
    }
}

/// Geographic bounding box in `10^-7` degrees.
#[derive(Debug, Clone, Copy, PartialEq, Eq, Structural)]
pub struct Bounds {
    pub north_e7: i64,
    pub south_e7: i64,
    pub east_e7: i64,
    pub west_e7: i64,
}

impl Bounds {
    /// A box from its four edges.
    pub fn new(north_e7: i64, south_e7: i64, east_e7: i64, west_e7: i64) -> (r: Bounds)
        ensures
            r == (Bounds { north_e7, south_e7, east_e7, west_e7 }),
    {
        Bounds { north_e7, south_e7, east_e7, west_e7 }
    }

    /// A valid box: north above south, east beyond west, latitudes within
    /// the Mercator limit, longitudes within half a turn.
    pub open spec fn spec_valid(self) -> bool {
        &&& self.north_e7 > self.south_e7
        &&& self.east_e7 > self.west_e7
        &&& self.north_e7 <= MERCATOR_LAT_LIMIT_E7
        &&& self.south_e7 >= -MERCATOR_LAT_LIMIT_E7
        &&& self.east_e7 <= LON_LIMIT_E7
        &&& self.west_e7 >= -LON_LIMIT_E7
    }

    /// Runtime validity check.
    pub fn is_valid(&self) -> (r: bool)
        ensures
            r == self.spec_valid(),
    {
        self.north_e7 > self.south_e7 && self.east_e7 > self.west_e7 && self.north_e7
            <= MERCATOR_LAT_LIMIT_E7 && self.south_e7 >= -MERCATOR_LAT_LIMIT_E7 && self.east_e7
            <= LON_LIMIT_E7 && self.west_e7 >= -LON_LIMIT_E7
    }
}

/// A tile address in the standard XYZ scheme.
#[derive(Debug, Clone, Copy, PartialEq, Eq, Hash, Structural)]
pub struct TileCoord {
    pub z: u32,
    pub x: u32,
    pub y: u32,
}

impl TileCoord {
    /// A coordinate from its parts.
    pub fn new(z: u32, x: u32, y: u32) -> (r: TileCoord)
        ensures
            r == (TileCoord { z, x, y }),
    {
        TileCoord { z, x, y }
    }
}

/// What the user asks for when creating a download task.
#[derive(Debug, Clone)]
pub struct TaskConfig {
    pub name: String,
    pub platform: String,
    pub map_type: String,
    pub bounds: Bounds,
    pub zoom_levels: Vec<u32>,
    pub output_path: String,
    pub output_format: String,
    pub thread_count: u32,
    pub retry_count: u32,
    pub api_key: Option<String>,
}

/// A stored download task.
#[derive(Debug, Clone)]
pub struct TaskInfo {
    pub id: String,
    pub name: String,
    pub platform: String,
    pub map_type: String,
    pub bounds: Bounds,
    pub zoom_levels: Vec<u32>,
    pub status: TaskStatus,
    pub total_tiles: u64,
    pub completed_tiles: u64,
    pub failed_tiles: u64,
    pub output_path: String,
    pub output_format: String,
    pub thread_count: u32,
    pub retry_count: u32,
    pub api_key: Option<String>,
    pub created_at: String,
    pub updated_at: String,
    pub completed_at: Option<String>,
    pub error_message: Option<String>,
    /// Tiles per second, in thousandths.
    pub download_speed_milli: u64,
}

/// Tile counts predicted for a task before it is created.
#[derive(Debug, Clone)]
pub struct TileEstimate {
    pub total_tiles: u64,
    pub tiles_per_level: Vec<(u32, u64)>,
    /// Estimated output size in whole megabytes, at twenty kilobytes a tile.
    pub estimated_size_mb: u64,
}

/// Progress notification emitted while a task runs.
#[derive(Debug, Clone)]
pub struct ProgressEvent {
    pub task_id: String,
    pub completed: u64,
    pub failed: u64,
    pub total: u64,
    /// Tiles per second, in thousandths.
    pub speed_milli: u64,
    pub current_zoom: u32,
    pub status: TaskStatus,
    pub message: Option<String>,
}

/// Capabilities of one tile provider.
#[derive(Debug, Clone)]
pub struct PlatformInfo {
    pub id: String,
    pub name: String,
    pub enabled: bool,
    pub min_zoom: u32,
    pub max_zoom: u32,
    pub map_types: Vec<String>,
    pub requires_key: bool,
}

} // verus!
