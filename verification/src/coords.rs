//! Datum handling for provider coordinates.
//!
//! Coordinates are fixed-point degrees (`10^-7`).  The national datum is
//! offset from the global one by a closed-form series; evaluating that
//! series is floating-point work the host performs, handing the result over
//! as a [`DatumShift`].  What is decided here, under contract, is when the
//! shift applies at all: a point outside the national envelope passes
//! through identically.

use vstd::prelude::*;
use crate::text::{e7_valid, e7_value, find_byte, first_byte_idx, parse_e7};

verus! {

use vstd::string::StringSliceAdditionalSpecFns;

/// Western edge of the national envelope.
pub const ENVELOPE_WEST_E7: i64 = 720040000;

/// Eastern edge of the national envelope.
pub const ENVELOPE_EAST_E7: i64 = 1378347000;

/// Southern edge of the national envelope.
pub const ENVELOPE_SOUTH_E7: i64 = 8293000;

/// Northern edge of the national envelope.
pub const ENVELOPE_NORTH_E7: i64 = 558271000;

/// Largest shift magnitude the engine accepts: a hundredth of a degree,
/// the sanity band of the national offset.  Whatever the host computes,
/// the applied correction stays below this band.
pub const MAX_SHIFT_E7: i64 = 100000;

/// True iff the point lies outside the national envelope, where the datum
/// offset is never applied.
pub open spec fn out_of_china_spec(lon_e7: i64, lat_e7: i64) -> bool {
    ||| !(ENVELOPE_WEST_E7 <= lon_e7 <= ENVELOPE_EAST_E7)
    ||| !(ENVELOPE_SOUTH_E7 <= lat_e7 <= ENVELOPE_NORTH_E7)
}

/// Envelope test.
pub fn out_of_china(lon_e7: i64, lat_e7: i64) -> (r: bool)
    ensures
        r == out_of_china_spec(lon_e7, lat_e7),
{
    !(ENVELOPE_WEST_E7 <= lon_e7 && lon_e7 <= ENVELOPE_EAST_E7) || !(ENVELOPE_SOUTH_E7 <= lat_e7
        && lat_e7 <= ENVELOPE_NORTH_E7)
}

/// The offset between the national datum and the global one at some point,
/// as evaluated by the host.
#[derive(Debug, Clone, Copy, PartialEq, Eq, Structural)]
pub struct DatumShift {
    pub dlon_e7: i64,
    pub dlat_e7: i64,
}

/// Where a national-datum point lands in the global datum: shifted inside
/// the envelope, untouched outside it.
pub open spec fn gcj02_to_wgs84_spec(lon_e7: i64, lat_e7: i64, shift: DatumShift) -> (
    i64,
    i64,
) {
    if out_of_china_spec(lon_e7, lat_e7) {
        (lon_e7, lat_e7)
    } else {
        ((lon_e7 - shift.dlon_e7) as i64, (lat_e7 - shift.dlat_e7) as i64)
    }
}

/// Converts a national-datum coordinate to the global datum by subtracting
/// the shift; a point outside the envelope is returned as it came.
pub fn gcj02_to_wgs84(lon_e7: i64, lat_e7: i64, shift: DatumShift) -> (r: (i64, i64))
    requires
        -3600000000 <= lon_e7 <= 3600000000,
        -3600000000 <= lat_e7 <= 3600000000,
        -MAX_SHIFT_E7 <= shift.dlon_e7 <= MAX_SHIFT_E7,
        -MAX_SHIFT_E7 <= shift.dlat_e7 <= MAX_SHIFT_E7,
    ensures
        r == gcj02_to_wgs84_spec(lon_e7, lat_e7, shift),
{
    if out_of_china(lon_e7, lat_e7) {
        (lon_e7, lat_e7)
    } else {
        (lon_e7 - shift.dlon_e7, lat_e7 - shift.dlat_e7)
    }
}

/// The alias the engine uses for the first private provider, whose output
/// is in the national datum.
pub fn amap_to_wgs84(lon_e7: i64, lat_e7: i64, shift: DatumShift) -> (r: (i64, i64))
    requires
        -3600000000 <= lon_e7 <= 3600000000,
        -3600000000 <= lat_e7 <= 3600000000,
        -MAX_SHIFT_E7 <= shift.dlon_e7 <= MAX_SHIFT_E7,
        -MAX_SHIFT_E7 <= shift.dlat_e7 <= MAX_SHIFT_E7,
    ensures
        r == gcj02_to_wgs84_spec(lon_e7, lat_e7, shift),
{
    gcj02_to_wgs84(lon_e7, lat_e7, shift)
}

/// Outside the national envelope the datum conversion is the identity,
/// whatever shift the host computed.
pub proof fn lemma_datum_identity_outside_envelope(lon_e7: i64, lat_e7: i64, shift: DatumShift)
    requires
        out_of_china_spec(lon_e7, lat_e7),
    ensures
        gcj02_to_wgs84_spec(lon_e7, lat_e7, shift) == (lon_e7, lat_e7),
{
}

/// Datum stability: for any accepted shift, the conversion moves each
/// axis by less than a hundredth of a degree.
pub proof fn lemma_datum_stability(lon_e7: i64, lat_e7: i64, shift: DatumShift)
    requires
        -MAX_SHIFT_E7 <= shift.dlon_e7 <= MAX_SHIFT_E7,
        -MAX_SHIFT_E7 <= shift.dlat_e7 <= MAX_SHIFT_E7,
        -3600000000 <= lon_e7 <= 3600000000,
        -3600000000 <= lat_e7 <= 3600000000,
    ensures
        -100000 <= gcj02_to_wgs84_spec(lon_e7, lat_e7, shift).0 - lon_e7 <= 100000,
        -100000 <= gcj02_to_wgs84_spec(lon_e7, lat_e7, shift).1 - lat_e7 <= 100000,
{
}

/// A coordinate pair within the legal range: half a turn of longitude, a
/// quarter turn of latitude.
pub open spec fn legal_pair(p: (i64, i64)) -> bool {
    -1800000000 <= p.0 <= 1800000000 && -900000000 <= p.1 <= 900000000
}

/// The legal pairs of a listing, in order.
pub open spec fn legal_filter(pts: Seq<(i64, i64)>) -> Seq<(i64, i64)>
    decreases pts.len(),
{
    if pts.len() == 0 {
        Seq::empty()
    } else {
        legal_filter(pts.drop_last()) + if legal_pair(pts.last()) {
            seq![pts.last()]
        } else {
            Seq::empty()
        }
    }
}

/// Westmost longitude of a pair listing, from the east edge down.
pub open spec fn fold_min_lon(pts: Seq<(i64, i64)>) -> i64
    decreases pts.len(),
{
    if pts.len() == 0 {
        1800000000
    } else if pts.last().0 < fold_min_lon(pts.drop_last()) {
        pts.last().0
    } else {
        fold_min_lon(pts.drop_last())
    }
}

/// Eastmost longitude of a pair listing, from the west edge up.
pub open spec fn fold_max_lon(pts: Seq<(i64, i64)>) -> i64
    decreases pts.len(),
{
    if pts.len() == 0 {
        -1800000000i64
    } else if pts.last().0 > fold_max_lon(pts.drop_last()) {
        pts.last().0
    } else {
        fold_max_lon(pts.drop_last())
    }
}

/// Southmost latitude of a pair listing, from the north edge down.
pub open spec fn fold_min_lat(pts: Seq<(i64, i64)>) -> i64
    decreases pts.len(),
{
    if pts.len() == 0 {
        900000000
    } else if pts.last().1 < fold_min_lat(pts.drop_last()) {
        pts.last().1
    } else {
        fold_min_lat(pts.drop_last())
    }
}

/// Northmost latitude of a pair listing, from the south edge up.
pub open spec fn fold_max_lat(pts: Seq<(i64, i64)>) -> i64
    decreases pts.len(),
{
    if pts.len() == 0 {
        -900000000i64
    } else if pts.last().1 > fold_max_lat(pts.drop_last()) {
        pts.last().1
    } else {
        fold_max_lat(pts.drop_last())
    }
}

/// The tight box of a coordinate cloud: pairs outside the legal range are
/// ignored, the rest are folded to their extremes.  An empty or wholly
/// illegal cloud keeps the degenerate starting edges.
pub fn bounds_of_points(points: &Vec<(i64, i64)>) -> (r: crate::types::Bounds)
    ensures
        r.west_e7 == fold_min_lon(legal_filter(points@)),
        r.east_e7 == fold_max_lon(legal_filter(points@)),
        r.south_e7 == fold_min_lat(legal_filter(points@)),
        r.north_e7 == fold_max_lat(legal_filter(points@)),
{
    let mut west: i64 = 1800000000;
    let mut east: i64 = -1800000000;
    let mut south: i64 = 900000000;
    let mut north: i64 = -900000000;
    let n = points.len();
    let mut i: usize = 0;
    while i < n
        invariant
            n == points@.len(),
            i <= n,
            west == fold_min_lon(legal_filter(points@.subrange(0, i as int))),
            east == fold_max_lon(legal_filter(points@.subrange(0, i as int))),
            south == fold_min_lat(legal_filter(points@.subrange(0, i as int))),
            north == fold_max_lat(legal_filter(points@.subrange(0, i as int))),
        decreases n - i,
    {
        proof {
            assert(points@.subrange(0, i as int + 1).drop_last() =~= points@.subrange(
                0,
                i as int,
            ));
            assert(points@.subrange(0, i as int + 1).last() == points@[i as int]);
        }
        let ghost lf = legal_filter(points@.subrange(0, i as int));
        let ghost lf1 = legal_filter(points@.subrange(0, i as int + 1));
        let (lon, lat) = points[i];
        if -1800000000 <= lon && lon <= 1800000000 && -900000000 <= lat && lat <= 900000000 {
            proof {
                assert(lf1 =~= lf + seq![points@[i as int]]);
                assert(lf1.drop_last() =~= lf);
            }
            if lon < west {
                west = lon;
            }
            if lon > east {
                east = lon;
            }
            if lat < south {
                south = lat;
            }
            if lat > north {
                north = lat;
            }
        } else {
            proof {
                assert(lf1 =~= lf);
            }
        }
        i = i + 1;
    }
    proof {
        assert(points@.subrange(0, n as int) =~= points@);
    }
    crate::types::Bounds { north_e7: north, south_e7: south, east_e7: east, west_e7: west }
}

/// Reads a `lon,lat` pair as fixed-point degrees: one comma, a decimal
/// literal on each side.
pub fn parse_lonlat(s: &str) -> (r: Option<(i64, i64)>)
    ensures
        r is Some <==> (first_byte_idx(s.spec_bytes(), 44) >= 0 && e7_valid(
            s.spec_bytes().subrange(0, first_byte_idx(s.spec_bytes(), 44)),
        ) && e7_valid(
            s.spec_bytes().subrange(
                first_byte_idx(s.spec_bytes(), 44) + 1,
                s.spec_bytes().len() as int,
            ),
        )),
        r is Some ==> (r->0).0 == e7_value(
            s.spec_bytes().subrange(0, first_byte_idx(s.spec_bytes(), 44)),
        ) && (r->0).1 == e7_value(
            s.spec_bytes().subrange(
                first_byte_idx(s.spec_bytes(), 44) + 1,
                s.spec_bytes().len() as int,
            ),
        ),
{
    let b = s.as_bytes();
    proof {
        crate::text::lemma_first_byte_idx(b@, 44);
    }
    match find_byte(b, 44) {
        Some(d) => {
            let blen = b.len();
            assert(d < b@.len());
            let left = &b[0..d];
            let right = &b[d + 1..blen];
            match (parse_e7(left), parse_e7(right)) {
                (Some(lon), Some(lat)) => Some((lon, lat)),
                _ => None,
            }
        },
        None => None,
    }
}

} // verus!
