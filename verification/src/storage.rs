//! Storage writer logic: where a tile lands in each output encoding.
//!
//! The writers' file handles live with the host; the paths, the flipped
//! rows of the tile database, and its metadata are computed here.

use vstd::prelude::*;
use crate::text::{
    all_digits,
    ascii_to_string,
    ascii_view,
    dec_rep,
    dec_value,
    e7_rep,
    e7_to_string,
    find_byte,
    first_byte_idx,
    parse_u32,
    push_dec_u64,
    u64_to_string,
};
use crate::tiles::tms_flip;
use crate::types::{Bounds, TileCoord};

verus! {

use vstd::string::StringSliceAdditionalSpecFns;
use vstd::arithmetic::power2::pow2;

/// The archive and folder entry path of a tile.
pub open spec fn tile_path_rep(c: TileCoord) -> Seq<u8> {
    dec_rep(c.z as nat) + seq![47u8] + dec_rep(c.x as nat) + seq![47u8] + dec_rep(c.y as nat)
        + seq![46u8, 112u8, 110u8, 103u8]
}

/// Renders the `z/x/y.png` path of a tile.
pub fn format_tile_path(c: &TileCoord) -> (r: String)
    ensures
        r@ == ascii_view(tile_path_rep(*c)),
{
    let mut out: Vec<u8> = Vec::new();
    push_dec_u64(&mut out, c.z as u64);
    out.push(47);
    push_dec_u64(&mut out, c.x as u64);
    out.push(47);
    push_dec_u64(&mut out, c.y as u64);
    out.push(46);
    out.push(112);
    out.push(110);
    out.push(103);
    proof {
        crate::text::lemma_dec_rep_digits(c.z as nat);
        crate::text::lemma_dec_rep_digits(c.x as nat);
        crate::text::lemma_dec_rep_digits(c.y as nat);
        assert(out@ =~= tile_path_rep(*c));
    }
    ascii_to_string(out)
}

/// Reads a `z/x/y.png` path back into a tile address: the parse succeeds
/// exactly on the canonical rendering of some tile, and returns that tile.
#[verifier::rlimit(100)]
pub fn parse_tile_path(name: &str) -> (r: Option<TileCoord>)
    ensures
        r matches Some(c) ==> name.spec_bytes() == tile_path_rep(c),
        r is None ==> forall|c: TileCoord| name.spec_bytes() != tile_path_rep(c),
{
    let b = name.as_bytes();
    let blen = b.len();
    let d1 = match find_byte(b, 47) {
        Some(d) => d,
        None => {
            proof {
                assert forall|c: TileCoord| b@ != tile_path_rep(c) by {
                    if b@ == tile_path_rep(c) {
                        lemma_tile_path_structure(c);
                    }
                }
            }
            return None;
        },
    };
    proof {
        crate::text::lemma_first_byte_idx(b@, 47);
    }
    let rest = &b[d1 + 1..blen];
    let d2 = match find_byte(rest, 47) {
        Some(d) => d,
        None => {
            proof {
                assert forall|c: TileCoord| b@ != tile_path_rep(c) by {
                    if b@ == tile_path_rep(c) {
                        lemma_tile_path_structure(c);
                        assert(rest@ == b@.subrange(d1 as int + 1, blen as int));
                    }
                }
            }
            return None;
        },
    };
    proof {
        crate::text::lemma_first_byte_idx(rest@, 47);
    }
    let tail = &rest[d2 + 1..rest.len()];
    let ghost decomposed = |c: TileCoord|
        {
            &&& b@ == tile_path_rep(c)
            &&& rest@ == dec_rep(c.x as nat) + seq![47u8] + dec_rep(c.y as nat) + seq![
                46u8,
                112u8,
                110u8,
                103u8,
            ]
            &&& tail@ == dec_rep(c.y as nat) + seq![46u8, 112u8, 110u8, 103u8]
        };
    proof {
        assert forall|c: TileCoord| b@ == tile_path_rep(c) implies decomposed(c) by {
            lemma_tile_path_structure(c);
            assert(rest@ == b@.subrange(d1 as int + 1, blen as int));
            assert(tail@ =~= dec_rep(c.y as nat) + seq![46u8, 112u8, 110u8, 103u8]);
        }
    }
    if tail.len() < 4 {
        proof {
            assert forall|c: TileCoord| b@ != tile_path_rep(c) by {
                if b@ == tile_path_rep(c) {
                    assert(decomposed(c));
                    crate::text::lemma_dec_rep_len_pos(c.y as nat);
                }
            }
        }
        return None;
    }
    let digits = &tail[0..tail.len() - 4];
    let suffix = &tail[tail.len() - 4..tail.len()];
    if !(suffix[0] == 46 && suffix[1] == 112 && suffix[2] == 110 && suffix[3] == 103) {
        proof {
            assert forall|c: TileCoord| b@ != tile_path_rep(c) by {
                if b@ == tile_path_rep(c) {
                    assert(decomposed(c));
                    crate::text::lemma_dec_rep_len_pos(c.y as nat);
                    assert(suffix@[0] == tail@[tail@.len() - 4]);
                    assert(tail@[tail@.len() - 4] == 46u8);
                    assert(suffix@[1] == 112u8 && suffix@[2] == 110u8 && suffix@[3] == 103u8);
                }
            }
        }
        return None;
    }
    assert(suffix@ =~= seq![46u8, 112u8, 110u8, 103u8]);
    let zseg = &b[0..d1];
    let xseg = &rest[0..d2];
    proof {
        assert forall|c: TileCoord| b@ == tile_path_rep(c) implies zseg@ == dec_rep(c.z as nat)
            && xseg@ == dec_rep(c.x as nat) && digits@ == dec_rep(c.y as nat) by {
            lemma_tile_path_structure(c);
            assert(decomposed(c));
            assert(zseg@ == b@.subrange(0, d1 as int));
            assert(xseg@ =~= dec_rep(c.x as nat));
            assert(digits@ =~= dec_rep(c.y as nat));
        }
    }
    if !canonical_digits(zseg) || !canonical_digits(xseg) || !canonical_digits(digits) {
        proof {
            assert forall|c: TileCoord| b@ != tile_path_rep(c) by {
                if b@ == tile_path_rep(c) {
                    lemma_canonical_of_rep(c.z as nat);
                    lemma_canonical_of_rep(c.x as nat);
                    lemma_canonical_of_rep(c.y as nat);
                }
            }
        }
        return None;
    }
    let z = match parse_u32(zseg) {
        Some(v) => v,
        None => {
            proof {
                assert forall|c: TileCoord| b@ != tile_path_rep(c) by {
                    if b@ == tile_path_rep(c) {
                        lemma_canonical_of_rep(c.z as nat);
                        crate::text::lemma_dec_value_of_rep(c.z as nat);
                    }
                }
            }
            return None;
        },
    };
    let x = match parse_u32(xseg) {
        Some(v) => v,
        None => {
            proof {
                assert forall|c: TileCoord| b@ != tile_path_rep(c) by {
                    if b@ == tile_path_rep(c) {
                        lemma_canonical_of_rep(c.x as nat);
                        crate::text::lemma_dec_value_of_rep(c.x as nat);
                    }
                }
            }
            return None;
        },
    };
    let y = match parse_u32(digits) {
        Some(v) => v,
        None => {
            proof {
                assert forall|c: TileCoord| b@ != tile_path_rep(c) by {
                    if b@ == tile_path_rep(c) {
                        lemma_canonical_of_rep(c.y as nat);
                        crate::text::lemma_dec_value_of_rep(c.y as nat);
                    }
                }
            }
            return None;
        },
    };
    let c = TileCoord { z, x, y };
    proof {
        lemma_canonical_rep(zseg@);
        lemma_canonical_rep(xseg@);
        lemma_canonical_rep(digits@);
        assert(b@ =~= b@.subrange(0, d1 as int) + seq![47u8] + rest@);
        assert(rest@ =~= rest@.subrange(0, d2 as int) + seq![47u8] + tail@);
        assert(tail@ =~= digits@ + suffix@);
        assert(name.spec_bytes() =~= tile_path_rep(c));
    }
    Some(c)
}

/// A rendered decimal is a canonical segment.
proof fn lemma_canonical_of_rep(n: nat)
    ensures
        canonical_digits_spec(dec_rep(n)),
{
    crate::text::lemma_dec_rep_digits(n);
    crate::text::lemma_dec_rep_len_pos(n);
    crate::text::lemma_dec_rep_canonical(n);
}


/// How a rendered tile path decomposes: the first slash closes the zoom
/// digits, the second closes the column digits, and the tail is the row
/// digits followed by the image suffix.
proof fn lemma_tile_path_structure(c: TileCoord)
    ensures
        first_byte_idx(tile_path_rep(c), 47) == dec_rep(c.z as nat).len(),
        tile_path_rep(c).subrange(0, dec_rep(c.z as nat).len() as int) == dec_rep(c.z as nat),
        tile_path_rep(c).subrange(
            dec_rep(c.z as nat).len() as int + 1,
            tile_path_rep(c).len() as int,
        ) == dec_rep(c.x as nat) + seq![47u8] + dec_rep(c.y as nat) + seq![
            46u8,
            112u8,
            110u8,
            103u8,
        ],
        first_byte_idx(
            dec_rep(c.x as nat) + seq![47u8] + dec_rep(c.y as nat) + seq![
                46u8,
                112u8,
                110u8,
                103u8,
            ],
            47,
        ) == dec_rep(c.x as nat).len(),
        dec_rep(c.z as nat).len() >= 1,
        dec_rep(c.x as nat).len() >= 1,
        dec_rep(c.y as nat).len() >= 1,
{
    let zr = dec_rep(c.z as nat);
    let xr = dec_rep(c.x as nat);
    let yr = dec_rep(c.y as nat);
    let sfx: Seq<u8> = seq![46u8, 112u8, 110u8, 103u8];
    let n = tile_path_rep(c);
    let rest = xr + seq![47u8] + yr + sfx;
    crate::text::lemma_dec_rep_digits(c.z as nat);
    crate::text::lemma_dec_rep_digits(c.x as nat);
    crate::text::lemma_dec_rep_digits(c.y as nat);
    crate::text::lemma_dec_rep_len_pos(c.z as nat);
    crate::text::lemma_dec_rep_len_pos(c.x as nat);
    crate::text::lemma_dec_rep_len_pos(c.y as nat);
    assert(n[zr.len() as int] == 47);
    assert forall|j: int| 0 <= j < zr.len() implies n[j] != 47 by {
        assert(n[j] == zr[j]);
        assert(48 <= zr[j] <= 57);
    }
    crate::text::lemma_first_byte_at(n, 47, zr.len() as int);
    assert(n.subrange(0, zr.len() as int) =~= zr);
    assert(n.subrange(zr.len() as int + 1, n.len() as int) =~= rest);
    assert(rest[xr.len() as int] == 47);
    assert forall|j: int| 0 <= j < xr.len() implies rest[j] != 47 by {
        assert(rest[j] == xr[j]);
        assert(48 <= xr[j] <= 57);
    }
    crate::text::lemma_first_byte_at(rest, 47, xr.len() as int);
}

/// A canonical decimal segment: digits only, no leading zero unless the
/// segment is the single digit zero.
pub open spec fn canonical_digits_spec(s: Seq<u8>) -> bool {
    &&& s.len() > 0
    &&& all_digits(s)
    &&& (s[0] != 48 || s.len() == 1)
}

/// Canonical-form test on a segment.
fn canonical_digits(b: &[u8]) -> (r: bool)
    ensures
        r == canonical_digits_spec(b@),
{
    if b.len() == 0 {
        return false;
    }
    if b[0] == 48 && b.len() > 1 {
        return false;
    }
    let mut k: usize = 0;
    while k < b.len()
        invariant
            k <= b@.len(),
            all_digits(b@.subrange(0, k as int)),
        decreases b@.len() - k,
    {
        let c = b[k];
        if c < 48 || c > 57 {
            assert(!all_digits(b@));
            return false;
        }
        assert(all_digits(b@.subrange(0, k as int + 1))) by {
            assert(forall|j: int|
                0 <= j < k + 1 ==> b@.subrange(0, k as int + 1)[j] == b@[j]);
        }
        k = k + 1;
    }
    assert(b@.subrange(0, b@.len() as int) =~= b@);
    true
}

/// A nonzero-leading digit string has a positive value.
proof fn lemma_value_positive(s: Seq<u8>)
    requires
        s.len() > 0,
        all_digits(s),
        s[0] != 48,
    ensures
        dec_value(s) >= 1,
    decreases s.len(),
{
    if s.len() == 1 {
        assert(48 <= s[0] <= 57);
    } else {
        assert(s.drop_last()[0] == s[0]);
        assert(all_digits(s.drop_last()));
        lemma_value_positive(s.drop_last());
    }
}

/// A canonical segment is exactly the decimal form of its value.
proof fn lemma_canonical_rep(s: Seq<u8>)
    requires
        canonical_digits_spec(s),
    ensures
        dec_rep(dec_value(s)) == s,
    decreases s.len(),
{
    if s.len() == 1 {
        assert(48 <= s[0] <= 57);
        assert(dec_value(s) == (s[0] - 48) as nat) by {
            assert(s.drop_last() =~= Seq::<u8>::empty());
        }
        assert(dec_rep(dec_value(s)) =~= s);
    } else {
        let sp = s.drop_last();
        assert(sp[0] == s[0]);
        assert(all_digits(sp));
        lemma_canonical_rep(sp);
        lemma_value_positive(sp);
        let v = dec_value(s);
        assert(v == dec_value(sp) * 10 + (s.last() - 48) as nat);
        assert(48 <= s.last() <= 57);
        assert(v >= 10) by {
            assert(dec_value(sp) * 10 >= 10) by {
                vstd::arithmetic::mul::lemma_mul_inequality(1, dec_value(sp) as int, 10);
            }
        }
        assert(v / 10 == dec_value(sp) && v % 10 == (s.last() - 48) as nat) by {
            vstd::arithmetic::div_mod::lemma_fundamental_div_mod_converse(
                v as int,
                10,
                dec_value(sp) as int,
                (s.last() - 48) as int,
            );
        }
        assert(dec_rep(v) == dec_rep(dec_value(sp)).push((48 + v % 10) as u8));
        assert(dec_rep(v) =~= s);
    }
}

/// The tile-database row of a tile: the flipped row index.
pub fn mbtiles_tile_row(c: &TileCoord) -> (r: u32)
    requires
        c.z <= 30,
        (c.y as nat) < pow2(c.z as nat),
    ensures
        r == pow2(c.z as nat) - 1 - c.y,
{
    tms_flip(c.z, c.y)
}

/// The smallest entry of a zoom list, or zero when the list is empty.
pub open spec fn min_zoom_of(zs: Seq<u32>) -> u32
    decreases zs.len(),
{
    if zs.len() == 0 {
        0
    } else if zs.len() == 1 {
        zs[0]
    } else if zs.last() < min_zoom_of(zs.drop_last()) {
        zs.last()
    } else {
        min_zoom_of(zs.drop_last())
    }
}

/// The largest entry of a zoom list, or eighteen when the list is empty.
pub open spec fn max_zoom_of(zs: Seq<u32>) -> u32
    decreases zs.len(),
{
    if zs.len() == 0 {
        18
    } else if zs.len() == 1 {
        zs[0]
    } else if zs.last() > max_zoom_of(zs.drop_last()) {
        zs.last()
    } else {
        max_zoom_of(zs.drop_last())
    }
}

/// Smallest zoom level of a task.
pub fn min_zoom_level(zs: &Vec<u32>) -> (r: u32)
    ensures
        r == min_zoom_of(zs@),
{
    if zs.len() == 0 {
        return 0;
    }
    let mut r = zs[0];
    let mut i: usize = 1;
    while i < zs.len()
        invariant
            1 <= i <= zs@.len(),
            zs@.len() >= 1,
            r == min_zoom_of(zs@.subrange(0, i as int)),
        decreases zs@.len() - i,
    {
        proof {
            assert(zs@.subrange(0, i as int + 1).drop_last() =~= zs@.subrange(0, i as int));
            assert(zs@.subrange(0, 1).len() == 1);
        }
        if zs[i] < r {
            r = zs[i];
        }
        i = i + 1;
    }
    proof {
        assert(zs@.subrange(0, zs@.len() as int) =~= zs@);
    }
    r
}

/// Largest zoom level of a task.
pub fn max_zoom_level(zs: &Vec<u32>) -> (r: u32)
    ensures
        r == max_zoom_of(zs@),
{
    if zs.len() == 0 {
        return 18;
    }
    let mut r = zs[0];
    let mut i: usize = 1;
    while i < zs.len()
        invariant
            1 <= i <= zs@.len(),
            zs@.len() >= 1,
            r == max_zoom_of(zs@.subrange(0, i as int)),
        decreases zs@.len() - i,
    {
        proof {
            assert(zs@.subrange(0, i as int + 1).drop_last() =~= zs@.subrange(0, i as int));
            assert(zs@.subrange(0, 1).len() == 1);
        }
        if zs[i] > r {
            r = zs[i];
        }
        i = i + 1;
    }
    proof {
        assert(zs@.subrange(0, zs@.len() as int) =~= zs@);
    }
    r
}

/// The metadata rows written when a tile database is initialised: the
/// layer sheet, the box as west, south, east, north, the centre with the
/// lowest zoom, and the zoom range.
/// Signed halving as the machine does it: truncation toward zero.
pub open spec fn half_trunc(v: int) -> int {
    if v >= 0 {
        v / 2
    } else {
        -((-v) / 2)
    }
}

/// The box rendered `west,south,east,north`.
fn bounds_value(bounds: &Bounds) -> (r: String)
    ensures
        r@ == ascii_view(e7_rep(bounds.west_e7 as int)) + ","@ + ascii_view(
            e7_rep(bounds.south_e7 as int),
        ) + ","@ + ascii_view(e7_rep(bounds.east_e7 as int)) + ","@ + ascii_view(
            e7_rep(bounds.north_e7 as int),
        ),
{
    let mut r = e7_to_string(bounds.west_e7);
    r.append(",");
    r.append(e7_to_string(bounds.south_e7).as_str());
    r.append(",");
    r.append(e7_to_string(bounds.east_e7).as_str());
    r.append(",");
    r.append(e7_to_string(bounds.north_e7).as_str());
    r
}

/// The centre rendered `lon,lat,minzoom`.
fn center_value(bounds: &Bounds, min_zoom: u32) -> (r: String)
    requires
        -1800000000 <= bounds.west_e7 <= 1800000000,
        -1800000000 <= bounds.east_e7 <= 1800000000,
        -900000000 <= bounds.south_e7 <= 900000000,
        -900000000 <= bounds.north_e7 <= 900000000,
    ensures
        r@ == ascii_view(e7_rep(half_trunc(bounds.west_e7 + bounds.east_e7))) + ","@
            + ascii_view(e7_rep(half_trunc(bounds.south_e7 + bounds.north_e7))) + ","@
            + ascii_view(dec_rep(min_zoom as nat)),
{
    let center_lon = (bounds.west_e7 + bounds.east_e7) / 2;
    let center_lat = (bounds.south_e7 + bounds.north_e7) / 2;
    let mut r = e7_to_string(center_lon);
    r.append(",");
    r.append(e7_to_string(center_lat).as_str());
    r.append(",");
    r.append(u64_to_string(min_zoom as u64).as_str());
    r
}

#[verifier::rlimit(100)]
pub fn mbtiles_metadata(bounds: &Bounds, zoom_levels: &Vec<u32>) -> (r: Vec<(String, String)>)
    requires
        -1800000000 <= bounds.west_e7 <= 1800000000,
        -1800000000 <= bounds.east_e7 <= 1800000000,
        -900000000 <= bounds.south_e7 <= 900000000,
        -900000000 <= bounds.north_e7 <= 900000000,
    ensures
        r@.len() == 9,
        r@[0].0@ == "name"@ && r@[0].1@ == "Tile Download"@,
        r@[1].0@ == "type"@ && r@[1].1@ == "baselayer"@,
        r@[2].0@ == "version"@ && r@[2].1@ == "1.0"@,
        r@[3].0@ == "description"@ && r@[3].1@ == "Downloaded tiles"@,
        r@[4].0@ == "format"@ && r@[4].1@ == "png"@,
        r@[5].0@ == "bounds"@ && r@[5].1@ == ascii_view(e7_rep(bounds.west_e7 as int)) + ","@
            + ascii_view(e7_rep(bounds.south_e7 as int)) + ","@ + ascii_view(
            e7_rep(bounds.east_e7 as int),
        ) + ","@ + ascii_view(e7_rep(bounds.north_e7 as int)),
        r@[6].0@ == "center"@ && r@[6].1@ == ascii_view(
            e7_rep(half_trunc(bounds.west_e7 + bounds.east_e7)),
        ) + ","@ + ascii_view(e7_rep(half_trunc(bounds.south_e7 + bounds.north_e7))) + ","@
            + ascii_view(dec_rep(min_zoom_of(zoom_levels@) as nat)),
        r@[7].0@ == "minzoom"@ && r@[7].1@ == ascii_view(
            dec_rep(min_zoom_of(zoom_levels@) as nat),
        ),
        r@[8].0@ == "maxzoom"@ && r@[8].1@ == ascii_view(
            dec_rep(max_zoom_of(zoom_levels@) as nat),
        ),
{
    let min_zoom = min_zoom_level(zoom_levels);
    let max_zoom = max_zoom_level(zoom_levels);
    let bounds_str = bounds_value(bounds);
    let center = center_value(bounds, min_zoom);
    let r: Vec<(String, String)> = vec![
        ("name".to_owned(), "Tile Download".to_owned()),
        ("type".to_owned(), "baselayer".to_owned()),
        ("version".to_owned(), "1.0".to_owned()),
        ("description".to_owned(), "Downloaded tiles".to_owned()),
        ("format".to_owned(), "png".to_owned()),
        ("bounds".to_owned(), bounds_str),
        ("center".to_owned(), center),
        ("minzoom".to_owned(), u64_to_string(min_zoom as u64)),
        ("maxzoom".to_owned(), u64_to_string(max_zoom as u64)),
    ];
    r
}

/// The folder writer: a directory tree `base/z/x/y.png`.
pub struct FolderStorage {
    pub base_path: String,
}

impl FolderStorage {
    /// A writer with no base path yet.
    pub fn new() -> (r: FolderStorage)
        ensures
            r.base_path@.len() == 0,
    {
        FolderStorage { base_path: String::new() }
    }

    /// Sets where the tree is rooted.
    pub fn init(&mut self, base_path: String)
        ensures
            final(self).base_path == base_path,
    {
        self.base_path = base_path;
    }

    /// The file a tile is written to.
    pub fn tile_file_path(&self, c: &TileCoord) -> (r: String)
        ensures
            r@ == self.base_path@ + "/"@ + ascii_view(tile_path_rep(*c)),
    {
        let mut r = self.base_path.clone();
        r.append("/");
        r.append(format_tile_path(c).as_str());
        r
    }
}

} // verus!
