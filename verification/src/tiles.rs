//! Web-Mercator tile arithmetic: TMS row flips, quadkeys, the Baidu tile
//! grid, column indexing from longitude, and enumeration of tile rectangles.

use vstd::prelude::*;
use crate::types::TileCoord;

verus! {

use vstd::arithmetic::power2::pow2;
use vstd::arithmetic::mul::lemma_mul_inequality;
use vstd::arithmetic::div_mod::{
    lemma_fundamental_div_mod_converse,
    lemma_div_is_ordered,
    lemma_div_by_multiple,
};
use vstd::bits::lemma_u64_shl_is_mul;

/// The TMS row for an XYZ row: counted from the bottom of the pyramid.
pub open spec fn tms_flip_spec(z: nat, y: int) -> int {
    pow2(z) - 1 - y
}

/// Number of tiles along one axis at zoom `z`, as a `u64`.
pub fn tiles_per_axis(z: u32) -> (n: u64)
    requires
        z <= 32,
    ensures
        n == pow2(z as nat),
{
    proof {
        vstd::arithmetic::power2::lemma2_to64();
        if (z as nat) < 32 {
            vstd::arithmetic::power2::lemma_pow2_strictly_increases(z as nat, 32);
        }
        lemma_u64_shl_is_mul(1, z as u64);
    }
    1u64 << z
}

/// TMS Y-axis flip.
pub fn tms_flip(z: u32, y: u32) -> (r: u32)
    requires
        z <= 30,
        y < pow2(z as nat),
    ensures
        r == tms_flip_spec(z as nat, y as int),
{
    let n = tiles_per_axis(z);
    proof {
        vstd::arithmetic::power2::lemma_pow2_strictly_increases(z as nat, 31);
        vstd::arithmetic::power2::lemma2_to64();
    }
    (n - 1 - (y as u64)) as u32
}

/// The flip is an involution: flipping a row twice gives it back.
pub proof fn lemma_flip_involution(z: nat, y: int)
    ensures
        tms_flip_spec(z, tms_flip_spec(z, y)) == y,
{
}

/// One quadkey digit: the x bit contributes one, the y bit two.
pub open spec fn quadkey_bytes(z: nat, x: nat, y: nat) -> Seq<u8>
    decreases z,
{
    if z == 0 {
        Seq::empty()
    } else {
        quadkey_bytes((z - 1) as nat, x / 2, y / 2).push((48 + x % 2 + 2 * (y % 2)) as u8)
    }
}

/// Reading a quadkey back: most significant digit first.
pub open spec fn quadkey_decode(s: Seq<u8>) -> (nat, nat)
    decreases s.len(),
{
    if s.len() == 0 {
        (0, 0)
    } else {
        let p = quadkey_decode(s.drop_last());
        let d = (s.last() - 48) as nat;
        (2 * p.0 + d % 2, 2 * p.1 + d / 2)
    }
}

/// Appends the quadkey digits of `(z, x, y)`.
pub fn push_quadkey(out: &mut Vec<u8>, z: u32, x: u32, y: u32)
    ensures
        final(out)@ == old(out)@ + quadkey_bytes(z as nat, x as nat, y as nat),
    decreases z,
{
    if z > 0 {
        push_quadkey(out, z - 1, x / 2, y / 2);
        out.push(48 + (x % 2 + 2 * (y % 2)) as u8);
    }
    assert(final(out)@ =~= old(out)@ + quadkey_bytes(z as nat, x as nat, y as nat));
}

/// Quadkey digits are ASCII.
pub proof fn lemma_quadkey_ascii(z: nat, x: nat, y: nat)
    ensures
        quadkey_bytes(z, x, y).len() == z,
        forall|i: int| 0 <= i < z ==> 48 <= #[trigger] quadkey_bytes(z, x, y)[i] <= 51,
    decreases z,
{
    if z > 0 {
        lemma_quadkey_ascii((z - 1) as nat, x / 2, y / 2);
        assert forall|i: int| 0 <= i < z implies 48 <= #[trigger] quadkey_bytes(z, x, y)[i]
            <= 51 by {
            if i < z - 1 {
                assert(quadkey_bytes(z, x, y)[i] == quadkey_bytes((z - 1) as nat, x / 2, y / 2)[
                    i]);
            }
        }
    }
}

/// Decoding the quadkey of a tile yields the tile back.
pub proof fn lemma_quadkey_roundtrip(z: nat, x: nat, y: nat)
    requires
        z <= 20,
        x < pow2(z),
        y < pow2(z),
    ensures
        quadkey_decode(quadkey_bytes(z, x, y)) == (x, y),
    decreases z,
{
    if z == 0 {
        assert(pow2(0) == 1) by {
            vstd::arithmetic::power2::lemma2_to64();
        }
    } else {
        assert(pow2((z - 1) as nat) == pow2(z) / 2) by {
            vstd::arithmetic::power2::lemma_pow2_unfold(z);
        }
        assert(x / 2 < pow2((z - 1) as nat) && y / 2 < pow2((z - 1) as nat)) by {
            vstd::arithmetic::power2::lemma_pow2_unfold(z);
        }
        lemma_quadkey_roundtrip((z - 1) as nat, x / 2, y / 2);
        let s = quadkey_bytes(z, x, y);
        assert(s.drop_last() =~= quadkey_bytes((z - 1) as nat, x / 2, y / 2));
        let d = (s.last() - 48) as nat;
        assert(d == x % 2 + 2 * (y % 2));
        assert(d % 2 == x % 2 && d / 2 == y % 2);
        assert(2 * (x / 2) + x % 2 == x);
        assert(2 * (y / 2) + y % 2 == y);
    }
}

/// The Baidu tile grid: origin at the equator and prime meridian, with the
/// row axis pointing up; columns and rows are offset by half the axis.
pub fn baidu_tile_coord(z: u32, x: u32, y: u32) -> (r: (i32, i32))
    requires
        z <= 30,
        x < pow2(z as nat),
        y < pow2(z as nat),
    ensures
        r.0 == x - pow2(z as nat) / 2,
        r.1 == pow2(z as nat) / 2 - 1 - y,
{
    let n = tiles_per_axis(z);
    proof {
        vstd::arithmetic::power2::lemma_pow2_strictly_increases(z as nat, 31);
        vstd::arithmetic::power2::lemma2_to64();
    }
    let center = (n / 2) as i64;
    let bx = x as i64 - center;
    let by = center - 1 - y as i64;
    (bx as i32, by as i32)
}

/// Subdomain rotation: requests are spread over the mirrors by tile address.
pub fn subdomain_index(x: u32, y: u32, count: usize) -> (r: usize)
    requires
        count > 0,
    ensures
        r == ((x + y) as int % count as int),
        r < count,
{
    let sum = x as u64 + y as u64;
    (sum % count as u64) as usize
}

/// Retry backoff in milliseconds: one second doubled per attempt, capped at
/// the fourth power of two.
pub fn backoff_delay_ms(attempt: u32) -> (r: u64)
    ensures
        r == 1000 * pow2(if attempt <= 4 {
            attempt as nat
        } else {
            4nat
        }),
{
    let e = if attempt > 4 {
        4u32
    } else {
        attempt
    };
    proof {
        vstd::arithmetic::power2::lemma2_to64();
    }
    let n = tiles_per_axis(e);
    1000 * n
}

/// The tile column whose left edge is at or west of the given longitude.
pub open spec fn tile_x_spec(lon_e7: int, z: nat) -> int {
    (lon_e7 + 1800000000) * pow2(z) / 3600000000
}

/// Longitude to tile column at zoom `z`, by the Mercator column formula.
pub fn lon_to_tile_x(lon_e7: i64, z: u32) -> (r: u32)
    requires
        -1800000000 <= lon_e7 <= 1800000000,
        z <= 30,
    ensures
        r == tile_x_spec(lon_e7 as int, z as nat),
        r <= pow2(z as nat),
{
    let n = tiles_per_axis(z);
    proof {
        vstd::arithmetic::power2::lemma_pow2_strictly_increases(z as nat, 31);
        vstd::arithmetic::power2::lemma2_to64();
    }
    let num: u64 = (lon_e7 + 1800000000) as u64;
    proof {
        lemma_mul_inequality(num as int, 3600000000, n as int);
        lemma_div_is_ordered((num * n) as int, 3600000000 * n as int, 3600000000);
        lemma_div_by_multiple(n as int, 3600000000);
    }
    let x = num * n / 3600000000;
    x as u32
}

/// An axis-aligned block of tiles at one zoom level.
#[derive(Debug, Clone, Copy, PartialEq, Eq, Structural)]
pub struct TileRect {
    pub z: u32,
    pub x_min: u32,
    pub x_max: u32,
    pub y_min: u32,
    pub y_max: u32,
}

impl TileRect {
    /// A well-formed rectangle: within the grid of its zoom level, which is
    /// kept at or below twenty-two.
    pub open spec fn wf(self) -> bool {
        &&& self.z <= 22
        &&& self.x_min <= self.x_max
        &&& (self.x_max as nat) < pow2(self.z as nat)
        &&& self.y_min <= self.y_max
        &&& (self.y_max as nat) < pow2(self.z as nat)
    }

    /// Columns covered.
    pub open spec fn x_count(self) -> nat {
        (self.x_max - self.x_min + 1) as nat
    }

    /// Rows covered.
    pub open spec fn y_count(self) -> nat {
        (self.y_max - self.y_min + 1) as nat
    }

    /// Tiles covered: columns times rows.
    pub open spec fn count(self) -> nat {
        self.x_count() * self.y_count()
    }

    /// The tile at position `k` of the row-major enumeration.
    pub open spec fn coord_at(self, k: int) -> TileCoord {
        TileCoord {
            z: self.z,
            x: (self.x_min + k / self.y_count() as int) as u32,
            y: (self.y_min + k % self.y_count() as int) as u32,
        }
    }

    /// Whether a coordinate lies in this rectangle.
    pub open spec fn contains_coord(self, c: TileCoord) -> bool {
        &&& c.z == self.z
        &&& self.x_min <= c.x <= self.x_max
        &&& self.y_min <= c.y <= self.y_max
    }

    /// Runtime well-formedness check.
    pub fn is_wf(&self) -> (r: bool)
        ensures
            r == self.wf(),
    {
        if self.z > 22 {
            return false;
        }
        let n = tiles_per_axis(self.z);
        self.x_min <= self.x_max && (self.x_max as u64) < n && self.y_min <= self.y_max && (
        self.y_max as u64) < n
    }

    /// Tiles covered, as a machine word.
    pub fn count_u64(&self) -> (r: u64)
        requires
            self.wf(),
        ensures
            r == self.count(),
            r >= 1,
    {
        proof {
            lemma_rect_count_bound(*self);
        }
        let xc = (self.x_max - self.x_min + 1) as u64;
        let yc = (self.y_max - self.y_min + 1) as u64;
        xc * yc
    }
}

/// A rectangle at zoom twenty-two or lower covers fewer than `2^44` tiles.
pub proof fn lemma_rect_count_bound(rect: TileRect)
    requires
        rect.wf(),
    ensures
        1 <= rect.count() <= 0x100000000000,
        rect.x_max < 0x400000,
        rect.y_max < 0x400000,
        rect.x_count() <= 0x400000,
        rect.y_count() <= 0x400000,
{
    assert(pow2(22) == 0x400000) by {
        vstd::arithmetic::power2::lemma2_to64();
    }
    if rect.z < 22 {
        vstd::arithmetic::power2::lemma_pow2_strictly_increases(rect.z as nat, 22);
    }
    assert(rect.x_count() <= 0x400000);
    assert(rect.y_count() <= 0x400000);
    assert(rect.count() <= 0x400000 * 0x400000) by {
        lemma_mul_inequality(rect.x_count() as int, 0x400000, rect.y_count() as int);
        lemma_mul_inequality(rect.y_count() as int, 0x400000, 0x400000);
        vstd::arithmetic::mul::lemma_mul_is_commutative(0x400000, rect.y_count() as int);
    }
    assert(rect.count() >= 1) by {
        vstd::arithmetic::mul::lemma_mul_strictly_positive(
            rect.x_count() as int,
            rect.y_count() as int,
        );
    }
}

/// The row-major listing of a rectangle.
pub open spec fn rect_coords(rect: TileRect) -> Seq<TileCoord> {
    Seq::new(rect.count(), |k: int| rect.coord_at(k))
}

/// Lists every tile of the rectangle, row-major: all rows of the first
/// column, then the next column.
pub fn enumerate_rect(rect: &TileRect) -> (r: Vec<TileCoord>)
    requires
        rect.wf(),
    ensures
        r@ == rect_coords(*rect),
        r@.len() == rect.count(),
{
    proof {
        lemma_rect_count_bound(*rect);
    }
    let yc: u64 = (rect.y_max - rect.y_min + 1) as u64;
    let mut r: Vec<TileCoord> = Vec::new();
    let mut x: u32 = rect.x_min;
    while x <= rect.x_max
        invariant
            rect.wf(),
            rect.x_max < 0x400000,
            rect.y_max < 0x400000,
            rect.x_min <= x <= rect.x_max + 1,
            yc == rect.y_count(),
            r@.len() == (x - rect.x_min) * yc,
            forall|j: int| 0 <= j < r@.len() ==> r@[j] == rect.coord_at(j),
        decreases rect.x_max + 1 - x,
    {
        let mut y: u32 = rect.y_min;
        while y <= rect.y_max
            invariant
                rect.wf(),
                rect.x_max < 0x400000,
                rect.y_max < 0x400000,
                rect.x_min <= x <= rect.x_max,
                rect.y_min <= y <= rect.y_max + 1,
                yc == rect.y_count(),
                r@.len() == (x - rect.x_min) * yc + (y - rect.y_min),
                forall|j: int| 0 <= j < r@.len() ==> r@[j] == rect.coord_at(j),
            decreases rect.y_max + 1 - y,
        {
            proof {
                lemma_fundamental_div_mod_converse(
                    r@.len() as int,
                    yc as int,
                    (x - rect.x_min) as int,
                    (y - rect.y_min) as int,
                );
            }
            r.push(TileCoord { z: rect.z, x, y });
            y = y + 1;
        }
        x = x + 1;
        proof {
            assert((x - 1 - rect.x_min) * yc + yc == (x - rect.x_min) * yc) by {
                vstd::arithmetic::mul::lemma_mul_is_distributive_add_other_way(
                    yc as int,
                    (x - 1 - rect.x_min) as int,
                    1,
                );
            }
        }
    }
    proof {
        assert(r@.len() == rect.count()) by {
            assert((rect.x_max + 1 - rect.x_min) * yc == rect.count());
        }
        assert(r@ =~= rect_coords(*rect));
    }
    r
}

/// Enumeration is complete: a rectangle's listing holds exactly columns
/// times rows entries, and every entry lies on the rectangle's grid, with
/// both coordinates below the axis size of its zoom level.
pub proof fn lemma_enumeration_complete(rect: TileRect)
    requires
        rect.wf(),
    ensures
        rect_coords(rect).len() == rect.x_count() * rect.y_count(),
        forall|k: int|
            0 <= k < rect_coords(rect).len() ==> {
                &&& rect.contains_coord(#[trigger] rect_coords(rect)[k])
                &&& (rect_coords(rect)[k].x as nat) < pow2(rect.z as nat)
                &&& (rect_coords(rect)[k].y as nat) < pow2(rect.z as nat)
            },
{
    assert forall|k: int| 0 <= k < rect_coords(rect).len() implies {
        &&& rect.contains_coord(#[trigger] rect_coords(rect)[k])
        &&& (rect_coords(rect)[k].x as nat) < pow2(rect.z as nat)
        &&& (rect_coords(rect)[k].y as nat) < pow2(rect.z as nat)
    } by {
        lemma_coord_at_bounds(rect, k);
    }
}

/// Distinct positions of the row-major listing are distinct tiles.
pub proof fn lemma_rect_coords_distinct(rect: TileRect, k1: int, k2: int)
    requires
        rect.wf(),
        0 <= k1 < rect.count(),
        0 <= k2 < rect.count(),
        k1 != k2,
    ensures
        rect.coord_at(k1) != rect.coord_at(k2),
{
    let yc = rect.y_count() as int;
    lemma_coord_at_bounds(rect, k1);
    lemma_coord_at_bounds(rect, k2);
    if rect.coord_at(k1) == rect.coord_at(k2) {
        assert(k1 / yc == k2 / yc && k1 % yc == k2 % yc);
        vstd::arithmetic::div_mod::lemma_fundamental_div_mod(k1, yc);
        vstd::arithmetic::div_mod::lemma_fundamental_div_mod(k2, yc);
    }
}

/// Every listed position maps into the rectangle.
pub proof fn lemma_coord_at_bounds(rect: TileRect, k: int)
    requires
        rect.wf(),
        0 <= k < rect.count(),
    ensures
        rect.contains_coord(rect.coord_at(k)),
        0 <= k / (rect.y_count() as int) < rect.x_count(),
        0 <= k % (rect.y_count() as int) < rect.y_count(),
{
    let yc = rect.y_count() as int;
    let xc = rect.x_count() as int;
    vstd::arithmetic::div_mod::lemma_mod_bound(k, yc);
    vstd::arithmetic::div_mod::lemma_div_pos_is_pos(k, yc);
    assert(k / yc < xc) by {
        vstd::arithmetic::div_mod::lemma_multiply_divide_lt(k, yc, xc);
    }
    lemma_rect_count_bound(rect);
}

/// The tiles of a list of rectangles, in order.
pub open spec fn coords_of(rects: Seq<TileRect>) -> Seq<TileCoord>
    decreases rects.len(),
{
    if rects.len() == 0 {
        Seq::empty()
    } else {
        coords_of(rects.drop_last()) + rect_coords(rects.last())
    }
}

/// All rectangles well-formed, with pairwise different zoom levels.
pub open spec fn rects_wf(rects: Seq<TileRect>) -> bool {
    &&& forall|i: int| 0 <= i < rects.len() ==> (#[trigger] rects[i]).wf()
    &&& forall|i: int, j: int|
        0 <= i < j < rects.len() ==> (#[trigger] rects[i]).z != (#[trigger] rects[j]).z
}

/// Every tile of the listing lies in one of the rectangles.
pub proof fn lemma_coords_of_member(rects: Seq<TileRect>, k: int)
    requires
        rects_wf(rects),
        0 <= k < coords_of(rects).len(),
    ensures
        exists|i: int|
            0 <= i < rects.len() && (#[trigger] rects[i]).contains_coord(coords_of(rects)[k]),
    decreases rects.len(),
{
    let all = coords_of(rects);
    let init = coords_of(rects.drop_last());
    if k < init.len() {
        assert(rects_wf(rects.drop_last()));
        lemma_coords_of_member(rects.drop_last(), k);
        let i = choose|i: int|
            0 <= i < rects.drop_last().len() && (#[trigger] rects.drop_last()[i]).contains_coord(
                init[k],
            );
        assert(rects[i].contains_coord(all[k]));
    } else {
        lemma_coord_at_bounds(rects.last(), k - init.len());
        assert(rects[rects.len() - 1].contains_coord(all[k]));
    }
}

/// The whole listing is free of duplicates.
pub proof fn lemma_coords_of_distinct(rects: Seq<TileRect>, k1: int, k2: int)
    requires
        rects_wf(rects),
        0 <= k1 < k2 < coords_of(rects).len(),
    ensures
        coords_of(rects)[k1] != coords_of(rects)[k2],
    decreases rects.len(),
{
    let all = coords_of(rects);
    let init = coords_of(rects.drop_last());
    assert(rects_wf(rects.drop_last()));
    if k2 < init.len() {
        lemma_coords_of_distinct(rects.drop_last(), k1, k2);
    } else if k1 >= init.len() {
        lemma_rect_coords_distinct(rects.last(), k1 - init.len(), k2 - init.len());
    } else {
        lemma_coords_of_member(rects.drop_last(), k1);
        let i = choose|i: int|
            0 <= i < rects.drop_last().len() && (#[trigger] rects.drop_last()[i]).contains_coord(
                init[k1],
            );
        lemma_coord_at_bounds(rects.last(), k2 - init.len());
        assert(rects[i].z != rects.last().z);
        assert(all[k1].z != all[k2].z);
    }
}

/// Enumerates the tile set of a task: every rectangle in order, row-major
/// within each, one rectangle per zoom level.
pub fn calculate_tiles(rects: &Vec<TileRect>) -> (r: Vec<TileCoord>)
    requires
        rects_wf(rects@),
    ensures
        r@ == coords_of(rects@),
{
    let mut r: Vec<TileCoord> = Vec::new();
    let mut i: usize = 0;
    while i < rects.len()
        invariant
            rects_wf(rects@),
            i <= rects@.len(),
            r@ == coords_of(rects@.subrange(0, i as int)),
        decreases rects@.len() - i,
    {
        let mut part = enumerate_rect(&rects[i]);
        r.append(&mut part);
        proof {
            assert(rects@.subrange(0, i as int + 1).drop_last() =~= rects@.subrange(
                0,
                i as int,
            ));
            assert(rects@.subrange(0, i as int + 1).last() == rects@[i as int]);
        }
        i = i + 1;
    }
    proof {
        assert(rects@.subrange(0, rects@.len() as int) =~= rects@);
    }
    r
}

} // verus!
