//! The administrative-region index: provinces, cities and districts,
//! looked up by code, parent and name.
//!
//! The region table itself is data the host loads; the index holds it as
//! plain values and answers every query under contract.

use vstd::prelude::*;
use crate::text::{bytes_eq, contains_bytes, str_contains_str};

verus! {

use vstd::string::StringSliceAdditionalSpecFns;

/// One administrative region.
#[derive(Debug, Clone)]
pub struct Region {
    pub code: String,
    pub name: String,
    /// `province`, `city` or `district`.
    pub level: String,
    pub parent_code: Option<String>,
}

/// A field-true copy of a region.
fn clone_region(r: &Region) -> (c: Region)
    ensures
        c == *r,
{
    Region {
        code: r.code.clone(),
        name: r.name.clone(),
        level: r.level.clone(),
        parent_code: match &r.parent_code {
            Some(p) => Some(p.clone()),
            None => None,
        },
    }
}

/// Whether a region sits at the named level.
pub open spec fn has_level(r: Region, level: Seq<char>) -> bool {
    r.level@ == level
}

/// The regions of one level, in table order.
pub open spec fn level_filter(rows: Seq<Region>, level: Seq<char>) -> Seq<Region>
    decreases rows.len(),
{
    if rows.len() == 0 {
        Seq::empty()
    } else {
        level_filter(rows.drop_last(), level) + if rows.last().level@ == level {
            seq![rows.last()]
        } else {
            Seq::empty()
        }
    }
}

/// The children of one parent code, in table order.
pub open spec fn children_filter(rows: Seq<Region>, parent: Seq<char>) -> Seq<Region>
    decreases rows.len(),
{
    if rows.len() == 0 {
        Seq::empty()
    } else {
        children_filter(rows.drop_last(), parent) + if rows.last().parent_code matches Some(p)
            && p@ == parent {
            seq![rows.last()]
        } else {
            Seq::empty()
        }
    }
}

/// The first region stored under a code, scanning in table order.
pub open spec fn region_lookup(rows: Seq<Region>, code: Seq<char>) -> Option<Region>
    decreases rows.len(),
{
    if rows.len() == 0 {
        None
    } else if rows[0].code@ == code {
        Some(rows[0])
    } else {
        region_lookup(rows.drop_first(), code)
    }
}

/// The views of a list of code strings.
pub open spec fn code_views(v: Seq<String>) -> Seq<Seq<char>> {
    v.map_values(|c: String| c@)
}

/// The codes of the district-level entries of a listing, in order.
pub open spec fn district_codes_of(rows: Seq<Region>) -> Seq<Seq<char>>
    decreases rows.len(),
{
    if rows.len() == 0 {
        Seq::empty()
    } else {
        district_codes_of(rows.drop_last()) + if rows.last().level@ == "district"@ {
            seq![rows.last().code@]
        } else {
            Seq::empty()
        }
    }
}

/// District codes gathered through a province's city children: each
/// city-level entry contributes the district codes of its own children.
pub open spec fn city_rollup(regions: Seq<Region>, cities: Seq<Region>) -> Seq<Seq<char>>
    decreases cities.len(),
{
    if cities.len() == 0 {
        Seq::empty()
    } else {
        city_rollup(regions, cities.drop_last()) + if cities.last().level@ == "city"@ {
            district_codes_of(children_filter(regions, cities.last().code@))
        } else {
            Seq::empty()
        }
    }
}

/// The region index over a loaded table.
#[derive(Debug, Clone)]
pub struct RegionIndex {
    pub regions: Vec<Region>,
}

impl RegionIndex {
    /// An index over a loaded region table.
    pub fn new(regions: Vec<Region>) -> (r: RegionIndex)
        ensures
            r.regions == regions,
    {
        RegionIndex { regions }
    }

    /// The whole table, in order.
    pub fn get_all_regions(&self) -> (r: &Vec<Region>)
        ensures
            r == &self.regions,
    {
        &self.regions
    }

    /// The first region stored under a code.
    pub fn get_region_by_code(&self, code: &str) -> (r: Option<Region>)
        ensures
            r == region_lookup(self.regions@, code@),
    {
        let n = self.regions.len();
        let mut i: usize = 0;
        assert(self.regions@.skip(0) =~= self.regions@);
        while i < n
            invariant
                n == self.regions@.len(),
                i <= n,
                region_lookup(self.regions@, code@) == region_lookup(
                    self.regions@.skip(i as int),
                    code@,
                ),
            decreases n - i,
        {
            proof {
                assert(self.regions@.skip(i as int)[0] == self.regions@[i as int]);
                assert(self.regions@.skip(i as int).drop_first() =~= self.regions@.skip(
                    i as int + 1,
                ));
            }
            let same = bytes_eq(self.regions[i].code.as_str().as_bytes(), code.as_bytes());
            proof {
                crate::text::lemma_utf8_view_eq(self.regions@[i as int].code@, code@);
            }
            if same {
                let reg = clone_region(&self.regions[i]);
                return Some(reg);
            }
            i = i + 1;
        }
        proof {
            assert(self.regions@.skip(n as int) =~= Seq::<Region>::empty());
        }
        None
    }

    /// The regions whose parent is the given code, in table order.
    pub fn get_children(&self, parent_code: &str) -> (r: Vec<Region>)
        ensures
            r@ == children_filter(self.regions@, parent_code@),
    {
        let n = self.regions.len();
        let mut r: Vec<Region> = Vec::new();
        let mut i: usize = 0;
        while i < n
            invariant
                n == self.regions@.len(),
                i <= n,
                r@ == children_filter(self.regions@.subrange(0, i as int), parent_code@),
            decreases n - i,
        {
            proof {
                assert(self.regions@.subrange(0, i as int + 1).drop_last() =~= self.regions@
                    .subrange(0, i as int));
                assert(self.regions@.subrange(0, i as int + 1).last() == self.regions@[
                i as int]);
            }
            let is_child = match &self.regions[i].parent_code {
                Some(p) => {
                    let same = bytes_eq(p.as_str().as_bytes(), parent_code.as_bytes());
                    proof {
                        crate::text::lemma_utf8_view_eq(
                            (self.regions@[i as int].parent_code->0)@,
                            parent_code@,
                        );
                    }
                    same
                },
                None => false,
            };
            if is_child {
                r.push(clone_region(&self.regions[i]));
                assert(r@ =~= children_filter(
                    self.regions@.subrange(0, i as int + 1),
                    parent_code@,
                ));
            } else {
                assert(r@ =~= children_filter(
                    self.regions@.subrange(0, i as int + 1),
                    parent_code@,
                ));
            }
            i = i + 1;
        }
        proof {
            assert(self.regions@.subrange(0, n as int) =~= self.regions@);
        }
        r
    }

    /// The regions of one level, in table order.
    fn regions_of_level(&self, level: &str) -> (r: Vec<Region>)
        ensures
            r@ == level_filter(self.regions@, level@),
    {
        let n = self.regions.len();
        let mut r: Vec<Region> = Vec::new();
        let mut i: usize = 0;
        while i < n
            invariant
                n == self.regions@.len(),
                i <= n,
                r@ == level_filter(self.regions@.subrange(0, i as int), level@),
            decreases n - i,
        {
            proof {
                assert(self.regions@.subrange(0, i as int + 1).drop_last() =~= self.regions@
                    .subrange(0, i as int));
                assert(self.regions@.subrange(0, i as int + 1).last() == self.regions@[
                i as int]);
            }
            let same = bytes_eq(self.regions[i].level.as_str().as_bytes(), level.as_bytes());
            proof {
                crate::text::lemma_utf8_view_eq(self.regions@[i as int].level@, level@);
            }
            if same {
                r.push(clone_region(&self.regions[i]));
                assert(r@ =~= level_filter(self.regions@.subrange(0, i as int + 1), level@));
            } else {
                assert(r@ =~= level_filter(self.regions@.subrange(0, i as int + 1), level@));
            }
            i = i + 1;
        }
        proof {
            assert(self.regions@.subrange(0, n as int) =~= self.regions@);
        }
        r
    }

    /// All provinces, in table order.
    pub fn get_provinces(&self) -> (r: Vec<Region>)
        ensures
            r@ == level_filter(self.regions@, "province"@),
    {
        self.regions_of_level("province")
    }

    /// All cities, in table order.
    pub fn get_cities(&self) -> (r: Vec<Region>)
        ensures
            r@ == level_filter(self.regions@, "city"@),
    {
        self.regions_of_level("city")
    }

    /// All districts, in table order.
    pub fn get_districts(&self) -> (r: Vec<Region>)
        ensures
            r@ == level_filter(self.regions@, "district"@),
    {
        self.regions_of_level("district")
    }

    /// The district codes a region covers: itself for a district, its
    /// district children for a city, the district grandchildren through
    /// its city children for a province.  An unknown code, or one at any
    /// other level, covers nothing.
    pub fn get_all_district_codes(&self, code: &str) -> (r: Vec<String>)
        ensures
            region_lookup(self.regions@, code@) is None ==> r@.len() == 0,
            region_lookup(self.regions@, code@) matches Some(reg) ==> {
                &&& (reg.level@ == "district"@ ==> r@.len() == 1 && r@[0]@ == code@)
                &&& (reg.level@ == "city"@ ==> code_views(r@)
                    == district_codes_of(children_filter(self.regions@, code@)))
                &&& (reg.level@ == "province"@ ==> code_views(r@) == city_rollup(
                    self.regions@,
                    children_filter(self.regions@, code@),
                ))
                &&& (reg.level@ != "district"@ && reg.level@ != "city"@ && reg.level@
                    != "province"@ ==> r@.len() == 0)
            },
    {
        proof {
            reveal_strlit("district");
            reveal_strlit("city");
            reveal_strlit("province");
            assert("district"@.len() == 8);
            assert("city"@.len() == 4);
            assert("province"@.len() == 8);
            assert("district"@[0] == 'd');
            assert("province"@[0] == 'p');
        }
        let region = match self.get_region_by_code(code) {
            Some(r) => r,
            None => {
                return Vec::new();
            },
        };
        let mut out: Vec<String> = Vec::new();
        if bytes_eq(region.level.as_str().as_bytes(), "district".as_bytes()) {
            proof {
                crate::text::lemma_utf8_view_eq(region.level@, "district"@);
            }
            out.push(code.to_owned());
            assert(out@[0]@ == code@);
            return out;
        }
        proof {
            crate::text::lemma_utf8_view_eq(region.level@, "district"@);
        }
        if bytes_eq(region.level.as_str().as_bytes(), "city".as_bytes()) {
            proof {
                crate::text::lemma_utf8_view_eq(region.level@, "city"@);
            }
            let children = self.get_children(code);
            let mut j: usize = 0;
            while j < children.len()
                invariant
                    children@ == children_filter(self.regions@, code@),
                    j <= children@.len(),
                    code_views(out@) == district_codes_of(
                        children@.subrange(0, j as int),
                    ),
                decreases children@.len() - j,
            {
                proof {
                    assert(children@.subrange(0, j as int + 1).drop_last() =~= children@
                        .subrange(0, j as int));
                    assert(children@.subrange(0, j as int + 1).last() == children@[j as int]);
                }
                let is_district = bytes_eq(
                    children[j].level.as_str().as_bytes(),
                    "district".as_bytes(),
                );
                proof {
                    crate::text::lemma_utf8_view_eq(children@[j as int].level@, "district"@);
                }
                if is_district {
                    out.push(children[j].code.clone());
                }
                assert(code_views(out@) =~= district_codes_of(
                    children@.subrange(0, j as int + 1),
                ));
                j = j + 1;
            }
            proof {
                assert(children@.subrange(0, children@.len() as int) =~= children@);
            }
            return out;
        }
        proof {
            crate::text::lemma_utf8_view_eq(region.level@, "city"@);
        }
        if bytes_eq(region.level.as_str().as_bytes(), "province".as_bytes()) {
            proof {
                crate::text::lemma_utf8_view_eq(region.level@, "province"@);
            }
            let cities = self.get_children(code);
            let mut c: usize = 0;
            while c < cities.len()
                invariant
                    cities@ == children_filter(self.regions@, code@),
                    c <= cities@.len(),
                    code_views(out@) == city_rollup(
                        self.regions@,
                        cities@.subrange(0, c as int),
                    ),
                decreases cities@.len() - c,
            {
                proof {
                    assert(cities@.subrange(0, c as int + 1).drop_last() =~= cities@.subrange(
                        0,
                        c as int,
                    ));
                    assert(cities@.subrange(0, c as int + 1).last() == cities@[c as int]);
                }
                let is_city = bytes_eq(cities[c].level.as_str().as_bytes(), "city".as_bytes());
                proof {
                    crate::text::lemma_utf8_view_eq(cities@[c as int].level@, "city"@);
                }
                if is_city {
                    let districts = self.get_children(cities[c].code.as_str());
                    let ghost city_code = cities@[c as int].code@;
                    let ghost before = out@;
                    let mut d: usize = 0;
                    while d < districts.len()
                        invariant
                            districts@ == children_filter(self.regions@, city_code),
                            d <= districts@.len(),
                            code_views(out@) == code_views(before) + district_codes_of(
                                districts@.subrange(0, d as int),
                            ),
                        decreases districts@.len() - d,
                    {
                        proof {
                            assert(districts@.subrange(0, d as int + 1).drop_last()
                                =~= districts@.subrange(0, d as int));
                            assert(districts@.subrange(0, d as int + 1).last() == districts@[
                            d as int]);
                        }
                        let is_district = bytes_eq(
                            districts[d].level.as_str().as_bytes(),
                            "district".as_bytes(),
                        );
                        proof {
                            crate::text::lemma_utf8_view_eq(
                                districts@[d as int].level@,
                                "district"@,
                            );
                        }
                        let ghost prev_out = out@;
                        if is_district {
                            out.push(districts[d].code.clone());
                        }
                        proof {
                            let target = code_views(before) + district_codes_of(
                                districts@.subrange(0, d as int + 1),
                            );
                            assert(district_codes_of(districts@.subrange(0, d as int + 1))
                                == district_codes_of(districts@.subrange(0, d as int)) + (
                            if districts@[d as int].level@ == "district"@ {
                                seq![districts@[d as int].code@]
                            } else {
                                Seq::<Seq<char>>::empty()
                            }));
                            assert(code_views(prev_out) == code_views(before)
                                + district_codes_of(districts@.subrange(0, d as int)));
                            assert(code_views(out@).len() == out@.len());
                            assert(code_views(before).len() == before.len());
                            assert(code_views(prev_out).len() == prev_out.len());
                            assert(out@.len() == target.len());
                            assert forall|i: int| 0 <= i < out@.len() implies code_views(out@)[i]
                                == target[i] by {
                                if i < prev_out.len() {
                                    assert(out@[i] == prev_out[i]);
                                    assert(code_views(prev_out)[i] == out@[i]@);
                                } else {
                                    assert(out@[i]@ == districts@[d as int].code@);
                                }
                            }
                            assert(code_views(out@) =~= target);
                        }
                        d = d + 1;
                    }
                    proof {
                        assert(districts@.subrange(0, districts@.len() as int) =~= districts@);
                        assert(code_views(out@) =~= city_rollup(
                            self.regions@,
                            cities@.subrange(0, c as int + 1),
                        ));
                    }
                } else {
                    assert(code_views(out@) =~= city_rollup(
                        self.regions@,
                        cities@.subrange(0, c as int + 1),
                    ));
                }
                c = c + 1;
            }
            proof {
                assert(cities@.subrange(0, cities@.len() as int) =~= cities@);
            }
            return out;
        }
        proof {
            crate::text::lemma_utf8_view_eq(region.level@, "province"@);
        }
        Vec::new()
    }

    /// The regions whose name contains the query, byte-wise, in table
    /// order.
    pub open spec fn matching_regions(rows: Seq<Region>, q: Seq<u8>) -> Seq<Region>
        decreases rows.len(),
    {
        if rows.len() == 0 {
            Seq::empty()
        } else {
            Self::matching_regions(rows.drop_last(), q) + if contains_bytes(
                vstd::utf8::encode_utf8(rows.last().name@),
                q,
            ) {
                seq![rows.last()]
            } else {
                Seq::empty()
            }
        }
    }

    /// The first fifty regions whose name contains the query, byte-wise,
    /// in table order: exactly the leading matches.
    pub fn search_regions(&self, query: &str) -> (r: Vec<Region>)
        ensures
            r@ == Self::matching_regions(self.regions@, query.spec_bytes()).take(
                if Self::matching_regions(self.regions@, query.spec_bytes()).len() < 50 {
                    Self::matching_regions(self.regions@, query.spec_bytes()).len() as int
                } else {
                    50
                },
            ),
    {
        let ghost qb = query.spec_bytes();
        let n = self.regions.len();
        let mut r: Vec<Region> = Vec::new();
        let mut i: usize = 0;
        while i < n && r.len() < 50
            invariant
                qb == query.spec_bytes(),
                n == self.regions@.len(),
                i <= n,
                r@.len() <= 50,
                r@.len() <= Self::matching_regions(
                    self.regions@.subrange(0, i as int),
                    qb,
                ).len(),
                r@ == Self::matching_regions(self.regions@.subrange(0, i as int), qb).take(
                    if Self::matching_regions(self.regions@.subrange(0, i as int), qb).len()
                        < 50 {
                        Self::matching_regions(self.regions@.subrange(0, i as int), qb).len()
                            as int
                    } else {
                        50
                    },
                ),
            decreases n - i,
        {
            proof {
                assert(self.regions@.subrange(0, i as int + 1).drop_last() =~= self.regions@
                    .subrange(0, i as int));
                assert(self.regions@.subrange(0, i as int + 1).last() == self.regions@[
                i as int]);
            }
            let ghost pc = Self::matching_regions(self.regions@.subrange(0, i as int), qb);
            let ghost pc1 = Self::matching_regions(self.regions@.subrange(0, i as int + 1), qb);
            let hit = str_contains_str(self.regions[i].name.as_str(), query);
            if hit {
                assert(contains_bytes(
                    vstd::utf8::encode_utf8(self.regions@[i as int].name@),
                    qb,
                ));
                r.push(clone_region(&self.regions[i]));
                proof {
                    assert(pc.take(pc.len() as int) =~= pc);
                    assert(pc1.take(pc1.len() as int) =~= pc1);
                    if pc1.len() >= 50 {
                        assert(r@ =~= pc1.take(50));
                    }
                }
            } else {
                assert(pc1 =~= pc);
            }
            i = i + 1;
        }
        proof {
            let full = Self::matching_regions(self.regions@, qb);
            if i == n {
                assert(self.regions@.subrange(0, n as int) =~= self.regions@);
            } else {
                Self::lemma_matching_prefix_take(self.regions@, i as int, qb);
                assert(r@ =~= full.take(50));
            }
        }
        r
    }

    /// A prefix of the table filters to a prefix of the full match list.
    proof fn lemma_matching_prefix_take(rows: Seq<Region>, k: int, q: Seq<u8>)
        requires
            0 <= k <= rows.len(),
        ensures
            Self::matching_regions(rows.subrange(0, k), q) == Self::matching_regions(
                rows,
                q,
            ).take(Self::matching_regions(rows.subrange(0, k), q).len() as int),
            Self::matching_regions(rows.subrange(0, k), q).len() <= Self::matching_regions(
                rows,
                q,
            ).len(),
        decreases rows.len() - k,
    {
        if k == rows.len() {
            assert(rows.subrange(0, k) =~= rows);
            assert(Self::matching_regions(rows, q).take(
                Self::matching_regions(rows, q).len() as int,
            ) =~= Self::matching_regions(rows, q));
        } else {
            assert(rows.subrange(0, k + 1).drop_last() =~= rows.subrange(0, k));
            assert(rows.subrange(0, k + 1).last() == rows[k]);
            Self::lemma_matching_prefix_take(rows, k + 1, q);
            let a = Self::matching_regions(rows.subrange(0, k + 1), q);
            let pk = Self::matching_regions(rows.subrange(0, k), q);
            let full = Self::matching_regions(rows, q);
            let ck = pk.len() as int;
            let ck1 = a.len() as int;
            assert(a == full.take(ck1));
            assert forall|j: int| 0 <= j < ck implies pk[j] == full.take(ck)[j] by {
                assert(pk[j] == a[j]);
                assert(a[j] == full.take(ck1)[j]);
                assert(full.take(ck1)[j] == full[j]);
                assert(full.take(ck)[j] == full[j]);
            }
            assert(pk =~= full.take(ck));
        }
    }
}

/// The city code a collection run sends: a district's parent, any other
/// region's own code.
pub fn city_code_for(region: &Region, fallback: &str) -> (r: String)
    ensures
        region.level@ == "district"@ && region.parent_code is Some ==> r@ == (
        region.parent_code->0)@,
        region.level@ == "district"@ && region.parent_code is None ==> r@ == fallback@,
        region.level@ != "district"@ ==> r@ == region.code@,
{
    let is_district = bytes_eq(region.level.as_str().as_bytes(), "district".as_bytes());
    proof {
        crate::text::lemma_utf8_view_eq(region.level@, "district"@);
    }
    if is_district {
        match &region.parent_code {
            Some(p) => p.clone(),
            None => fallback.to_owned(),
        }
    } else {
        region.code.clone()
    }
}

/// Every filtered child is an element of the table.
pub proof fn lemma_children_member(rows: Seq<Region>, parent: Seq<char>, k: int)
    requires
        0 <= k < children_filter(rows, parent).len(),
    ensures
        exists|i: int|
            0 <= i < rows.len() && #[trigger] rows[i] == children_filter(rows, parent)[k],
    decreases rows.len(),
{
    let all = children_filter(rows, parent);
    let init = children_filter(rows.drop_last(), parent);
    if k < init.len() {
        lemma_children_member(rows.drop_last(), parent, k);
        let i = choose|i: int|
            0 <= i < rows.drop_last().len() && #[trigger] rows.drop_last()[i] == init[k];
        assert(rows[i] == all[k]);
    } else {
        assert(rows[rows.len() - 1] == all[k]);
    }
}

} // verus!
