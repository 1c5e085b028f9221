//! The POI store model: the record table, its uniqueness rule, and the
//! queries the command surface runs over it.
//!
//! The host mirrors this model into its embedded database file; the rules
//! live here.  Uniqueness over `(platform, name, lon, lat)` is enforced by
//! the insert itself: a duplicate is silently dropped and reported as not
//! saved.

use vstd::prelude::*;
use crate::text::{bytes_eq, contains_bytes, starts_with_bytes, str_contains_str, str_starts_with};

verus! {

use vstd::string::StringSliceAdditionalSpecFns;

/// One stored POI row.
#[derive(Debug, Clone)]
pub struct PoiRow {
    pub id: i64,
    pub name: String,
    pub lon_e7: i64,
    pub lat_e7: i64,
    pub original_lon_e7: i64,
    pub original_lat_e7: i64,
    pub category: String,
    pub category_id: String,
    pub address: String,
    pub phone: String,
    pub platform: String,
    pub region_code: String,
    pub raw_data: String,
}

/// One stored API key.
#[derive(Debug, Clone)]
pub struct ApiKey {
    pub id: i64,
    pub name: String,
    pub api_key: String,
    pub platform: String,
    pub is_active: bool,
    pub quota_exhausted: bool,
}

/// A lightweight row for search results.
#[derive(Debug, Clone)]
pub struct POI {
    pub id: i64,
    pub name: String,
    pub lon_e7: i64,
    pub lat_e7: i64,
    pub address: String,
    pub category: String,
    pub platform: String,
}

/// A full row for exports.
#[derive(Debug, Clone)]
pub struct ExportPOI {
    pub id: i64,
    pub name: String,
    pub lon_e7: i64,
    pub lat_e7: i64,
    pub address: String,
    pub phone: String,
    pub category: String,
    pub platform: String,
    pub region_code: String,
}

/// Store counts: in total, by platform, by category.
#[derive(Debug, Clone)]
pub struct Stats {
    pub total: i64,
    pub by_platform: Vec<(String, i64)>,
    pub by_category: Vec<(String, i64)>,
}

/// The stored identity of a row: same platform, name and coordinate.
pub open spec fn same_poi_key(a: PoiRow, b: PoiRow) -> bool {
    &&& a.platform@ == b.platform@
    &&& a.name@ == b.name@
    &&& a.lon_e7 == b.lon_e7
    &&& a.lat_e7 == b.lat_e7
}

/// Whether a row carries the given key values.
pub open spec fn row_has_key(r: PoiRow, platform: Seq<char>, name: Seq<char>, lon_e7: i64, lat_e7: i64) -> bool {
    &&& r.platform@ == platform
    &&& r.name@ == name
    &&& r.lon_e7 == lon_e7
    &&& r.lat_e7 == lat_e7
}

/// How many rows carry the given platform tag.
pub open spec fn count_platform(rows: Seq<PoiRow>, platform: Seq<char>) -> nat
    decreases rows.len(),
{
    if rows.len() == 0 {
        0
    } else {
        count_platform(rows.drop_last(), platform) + if rows.last().platform@ == platform {
            1nat
        } else {
            0nat
        }
    }
}

/// How many rows carry the given category tag.
pub open spec fn count_category(rows: Seq<PoiRow>, category: Seq<char>) -> nat
    decreases rows.len(),
{
    if rows.len() == 0 {
        0
    } else {
        count_category(rows.drop_last(), category) + if rows.last().category@ == category {
            1nat
        } else {
            0nat
        }
    }
}

/// Group entries carry correct counts, pairwise distinct keys, and cover
/// every row of the listing.
pub open spec fn platform_groups_wf(
    groups: Seq<(String, i64)>,
    rows: Seq<PoiRow>,
    upto: int,
) -> bool {
    &&& forall|k: int|
        0 <= k < groups.len() ==> (#[trigger] groups[k]).1 == count_platform(
            rows.subrange(0, upto),
            groups[k].0@,
        )
    &&& forall|k1: int, k2: int|
        0 <= k1 < k2 < groups.len() ==> (#[trigger] groups[k1]).0@ != (#[trigger] groups[k2]).0@
    &&& forall|j: int|
        0 <= j < upto ==> exists|k: int|
            0 <= k < groups.len() && (#[trigger] rows[j]).platform@ == (#[trigger] groups[k]).0@
}

/// The category analogue of the platform grouping.
pub open spec fn category_groups_wf(
    groups: Seq<(String, i64)>,
    rows: Seq<PoiRow>,
    upto: int,
) -> bool {
    &&& forall|k: int|
        0 <= k < groups.len() ==> (#[trigger] groups[k]).1 == count_category(
            rows.subrange(0, upto),
            groups[k].0@,
        )
    &&& forall|k1: int, k2: int|
        0 <= k1 < k2 < groups.len() ==> (#[trigger] groups[k1]).0@ != (#[trigger] groups[k2]).0@
    &&& forall|j: int|
        0 <= j < upto ==> exists|k: int|
            0 <= k < groups.len() && (#[trigger] rows[j]).category@ == (#[trigger] groups[k]).0@
}

/// The in-memory POI store.
#[derive(Debug, Clone)]
pub struct Database {
    pub poi: Vec<PoiRow>,
    pub api_keys: Vec<ApiKey>,
    pub next_poi_id: i64,
    pub next_key_id: i64,
}

impl Database {
    /// No two rows share a key, identifiers grow strictly along the table
    /// and stay below the next one to be handed out.
    pub open spec fn wf(self) -> bool {
        &&& forall|i: int, j: int|
            0 <= i < j < self.poi@.len() ==> !same_poi_key(
                #[trigger] self.poi@[i],
                #[trigger] self.poi@[j],
            )
        &&& forall|i: int, j: int|
            0 <= i < j < self.poi@.len() ==> (#[trigger] self.poi@[i]).id < (
            #[trigger] self.poi@[j]).id
        &&& forall|i: int|
            0 <= i < self.poi@.len() ==> (#[trigger] self.poi@[i]).id < self.next_poi_id
        &&& self.poi@.len() < 0x7fffffffffffffff
        &&& 0 < self.next_poi_id
        &&& 0 < self.next_key_id
    }

    /// An empty store.
    pub fn new() -> (r: Database)
        ensures
            r.wf(),
            r.poi@.len() == 0,
            r.api_keys@.len() == 0,
            r.next_poi_id == 1,
            r.next_key_id == 1,
    {
        Database { poi: Vec::new(), api_keys: Vec::new(), next_poi_id: 1, next_key_id: 1 }
    }

    /// Whether some row already carries this key.
    pub open spec fn has_poi_key(self, platform: Seq<char>, name: Seq<char>, lon_e7: i64, lat_e7: i64) -> bool {
        exists|i: int|
            0 <= i < self.poi@.len() && row_has_key(
                #[trigger] self.poi@[i],
                platform,
                name,
                lon_e7,
                lat_e7,
            )
    }

    /// Inserts a record unless its key is already stored; reports whether a
    /// row was actually added.  Inserting the same key any number of times
    /// leaves exactly one row.
    pub fn insert_poi(
        &mut self,
        name: &str,
        lon_e7: i64,
        lat_e7: i64,
        original_lon_e7: i64,
        original_lat_e7: i64,
        category: &str,
        category_id: &str,
        address: &str,
        phone: &str,
        platform: &str,
        region_code: &str,
        raw_data: &str,
    ) -> (saved: bool)
        requires
            old(self).wf(),
            old(self).next_poi_id < i64::MAX,
            old(self).poi@.len() + 1 < 0x7fffffffffffffff,
        ensures
            final(self).wf(),
            final(self).next_poi_id <= old(self).next_poi_id + 1,
            final(self).next_key_id == old(self).next_key_id,
            saved == !old(self).has_poi_key(platform@, name@, lon_e7, lat_e7),
            !saved ==> *final(self) == *old(self),
            saved ==> final(self).poi@.len() == old(self).poi@.len() + 1 && final(self).poi@
                == old(self).poi@.push(final(self).poi@.last()) && row_has_key(
                final(self).poi@.last(),
                platform@,
                name@,
                lon_e7,
                lat_e7,
            ) && final(self).api_keys == old(self).api_keys,
            saved ==> {
                &&& final(self).poi@.last().id == old(self).next_poi_id
                &&& final(self).poi@.last().original_lon_e7 == original_lon_e7
                &&& final(self).poi@.last().original_lat_e7 == original_lat_e7
                &&& final(self).poi@.last().category@ == category@
                &&& final(self).poi@.last().category_id@ == category_id@
                &&& final(self).poi@.last().address@ == address@
                &&& final(self).poi@.last().phone@ == phone@
                &&& final(self).poi@.last().region_code@ == region_code@
                &&& final(self).poi@.last().raw_data@ == raw_data@
            },
            final(self).has_poi_key(platform@, name@, lon_e7, lat_e7),
    {
        let n = self.poi.len();
        let mut i: usize = 0;
        while i < n
            invariant
                old(self).wf(),
                n == self.poi@.len(),
                *self == *old(self),
                i <= n,
                forall|j: int|
                    0 <= j < i ==> !row_has_key(
                        #[trigger] self.poi@[j],
                        platform@,
                        name@,
                        lon_e7,
                        lat_e7,
                    ),
            decreases n - i,
        {
            let row = &self.poi[i];
            let key_match = bytes_eq(row.platform.as_str().as_bytes(), platform.as_bytes())
                && bytes_eq(row.name.as_str().as_bytes(), name.as_bytes()) && row.lon_e7 == lon_e7
                && row.lat_e7 == lat_e7;
            proof {
                crate::text::lemma_utf8_view_eq(self.poi@[i as int].platform@, platform@);
                crate::text::lemma_utf8_view_eq(self.poi@[i as int].name@, name@);
            }
            if key_match {
                return false;
            }
            i = i + 1;
        }
        let id = self.next_poi_id;
        self.next_poi_id = self.next_poi_id + 1;
        let row = PoiRow {
            id,
            name: name.to_owned(),
            lon_e7,
            lat_e7,
            original_lon_e7,
            original_lat_e7,
            category: category.to_owned(),
            category_id: category_id.to_owned(),
            address: address.to_owned(),
            phone: phone.to_owned(),
            platform: platform.to_owned(),
            region_code: region_code.to_owned(),
            raw_data: raw_data.to_owned(),
        };
        self.poi.push(row);
        proof {
            let last = self.poi@.len() - 1;
            assert(row_has_key(self.poi@[last], platform@, name@, lon_e7, lat_e7));
            assert forall|a: int, b2: int| 0 <= a < b2 < self.poi@.len() implies (
            #[trigger] self.poi@[a]).id < (#[trigger] self.poi@[b2]).id by {
                if b2 == last {
                    assert(self.poi@[a] == old(self).poi@[a]);
                    assert(old(self).poi@[a].id < old(self).next_poi_id);
                } else {
                    assert(self.poi@[a] == old(self).poi@[a]);
                    assert(self.poi@[b2] == old(self).poi@[b2]);
                }
            }
            assert forall|a: int| 0 <= a < self.poi@.len() implies (#[trigger] self.poi@[a]).id
                < self.next_poi_id by {
                if a < last {
                    assert(self.poi@[a] == old(self).poi@[a]);
                }
            }
            assert forall|a: int, b: int| 0 <= a < b < self.poi@.len() implies !same_poi_key(
                #[trigger] self.poi@[a],
                #[trigger] self.poi@[b],
            ) by {
                if b == last {
                    assert(self.poi@[a] == old(self).poi@[a]);
                    assert(!row_has_key(self.poi@[a], platform@, name@, lon_e7, lat_e7));
                } else {
                    assert(self.poi@[a] == old(self).poi@[a]);
                    assert(self.poi@[b] == old(self).poi@[b]);
                }
            }
        }
        true
    }

    /// At most one stored row ever carries a given key: two rows agreeing
    /// on the key are one and the same row.
    pub proof fn lemma_poi_key_unique(self, i: int, j: int)
        requires
            self.wf(),
            0 <= i < self.poi@.len(),
            0 <= j < self.poi@.len(),
            same_poi_key(self.poi@[i], self.poi@[j]),
        ensures
            i == j,
    {
        if i < j {
            assert(!same_poi_key(self.poi@[i], self.poi@[j]));
        } else if j < i {
            assert(!same_poi_key(self.poi@[j], self.poi@[i]));
        }
    }

    /// Counts the store: in total and grouped by platform and by category.
    /// Every stored platform and category appears in its group list with
    /// its exact row count.
    pub fn get_stats(&self) -> (r: Stats)
        requires
            self.wf(),
        ensures
            r.total == self.poi@.len(),
            platform_groups_wf(r.by_platform@, self.poi@, self.poi@.len() as int),
            category_groups_wf(r.by_category@, self.poi@, self.poi@.len() as int),
    {
        let total = self.poi.len() as i64;
        let n = self.poi.len();
        let mut by_platform: Vec<(String, i64)> = Vec::new();
        let mut i: usize = 0;
        while i < n
            invariant
                self.wf(),
                n == self.poi@.len(),
                i <= n,
                platform_groups_wf(by_platform@, self.poi@, i as int),
                forall|k: int|
                    0 <= k < by_platform@.len() ==> (#[trigger] by_platform@[k]).1 <= i,
            decreases n - i,
        {
            let tag = &self.poi[i].platform;
            let ghost before = by_platform@;
            let found = bump_group(&mut by_platform, tag, i);
            proof {
                let ghost tagv = self.poi@[i as int].platform@;
                if by_platform@.len() > before.len() {
                    assert forall|j: int| 0 <= j < i implies (#[trigger] self.poi@[j]).platform@
                        != tagv by {
                        let k0 = choose|k: int|
                            0 <= k < before.len() && (#[trigger] self.poi@[j]).platform@ == (
                            #[trigger] before[k]).0@;
                        if self.poi@[j].platform@ == tagv {
                            assert(before[k0].0@ == tagv);
                        }
                    }
                    lemma_count_platform_zero(self.poi@, i as int, tagv);
                }
                assert forall|k: int| 0 <= k < by_platform@.len() implies (
                #[trigger] by_platform@[k]).1 == count_platform(
                    self.poi@.subrange(0, i as int + 1),
                    by_platform@[k].0@,
                ) by {
                    lemma_count_platform_step(self.poi@, i as int, by_platform@[k].0@);
                    if k < before.len() {
                        assert(by_platform@[k].0@ == before[k].0@);
                    }
                }
                assert forall|j: int| 0 <= j < i + 1 implies exists|k: int|
                    0 <= k < by_platform@.len() && (#[trigger] self.poi@[j]).platform@ == (
                    #[trigger] by_platform@[k]).0@ by {
                    if j == i {
                        let k = choose|k: int|
                            0 <= k < by_platform@.len() && (#[trigger] by_platform@[k]).0@
                                == tagv;
                        assert(self.poi@[j].platform@ == by_platform@[k].0@);
                    } else {
                        let k0 = choose|k: int|
                            0 <= k < before.len() && (#[trigger] self.poi@[j]).platform@ == (
                            #[trigger] before[k]).0@;
                        assert(by_platform@[k0].0@ == before[k0].0@);
                        assert(self.poi@[j].platform@ == by_platform@[k0].0@);
                    }
                }
                assert(platform_groups_wf(by_platform@, self.poi@, i as int + 1));
            }
            i = i + 1;
        }
        let mut by_category: Vec<(String, i64)> = Vec::new();
        let mut i: usize = 0;
        while i < n
            invariant
                self.wf(),
                n == self.poi@.len(),
                i <= n,
                category_groups_wf(by_category@, self.poi@, i as int),
                forall|k: int|
                    0 <= k < by_category@.len() ==> (#[trigger] by_category@[k]).1 <= i,
            decreases n - i,
        {
            let tag = &self.poi[i].category;
            let ghost before = by_category@;
            let found = bump_group(&mut by_category, tag, i);
            proof {
                let ghost tagv = self.poi@[i as int].category@;
                if by_category@.len() > before.len() {
                    assert forall|j: int| 0 <= j < i implies (#[trigger] self.poi@[j]).category@
                        != tagv by {
                        let k0 = choose|k: int|
                            0 <= k < before.len() && (#[trigger] self.poi@[j]).category@ == (
                            #[trigger] before[k]).0@;
                        if self.poi@[j].category@ == tagv {
                            assert(before[k0].0@ == tagv);
                        }
                    }
                    lemma_count_category_zero(self.poi@, i as int, tagv);
                }
                assert forall|k: int| 0 <= k < by_category@.len() implies (
                #[trigger] by_category@[k]).1 == count_category(
                    self.poi@.subrange(0, i as int + 1),
                    by_category@[k].0@,
                ) by {
                    lemma_count_category_step(self.poi@, i as int, by_category@[k].0@);
                    if k < before.len() {
                        assert(by_category@[k].0@ == before[k].0@);
                    }
                }
                assert forall|j: int| 0 <= j < i + 1 implies exists|k: int|
                    0 <= k < by_category@.len() && (#[trigger] self.poi@[j]).category@ == (
                    #[trigger] by_category@[k]).0@ by {
                    if j == i {
                        let k = choose|k: int|
                            0 <= k < by_category@.len() && (#[trigger] by_category@[k]).0@
                                == tagv;
                        assert(self.poi@[j].category@ == by_category@[k].0@);
                    } else {
                        let k0 = choose|k: int|
                            0 <= k < before.len() && (#[trigger] self.poi@[j]).category@ == (
                            #[trigger] before[k]).0@;
                        assert(by_category@[k0].0@ == before[k0].0@);
                        assert(self.poi@[j].category@ == by_category@[k0].0@);
                    }
                }
                assert(category_groups_wf(by_category@, self.poi@, i as int + 1));
            }
            i = i + 1;
        }
        Stats { total, by_platform, by_category }
    }

    /// All keys of the store, in insertion order.
    pub fn get_all_api_keys(&self) -> (r: Vec<ApiKey>)
        ensures
            r@ == self.api_keys@,
    {
        let n = self.api_keys.len();
        let mut r: Vec<ApiKey> = Vec::new();
        let mut i: usize = 0;
        while i < n
            invariant
                n == self.api_keys@.len(),
                i <= n,
                r@ == self.api_keys@.subrange(0, i as int),
            decreases n - i,
        {
            r.push(clone_api_key(&self.api_keys[i]));
            assert(r@ =~= self.api_keys@.subrange(0, i as int + 1));
            i = i + 1;
        }
        proof {
            assert(self.api_keys@.subrange(0, n as int) =~= self.api_keys@);
        }
        r
    }

    /// Stores a new key and hands back its identifier.
    pub fn add_api_key(&mut self, platform: &str, api_key: &str, name: Option<&str>) -> (id: i64)
        requires
            old(self).next_key_id < i64::MAX,
        ensures
            id == old(self).next_key_id,
            final(self).next_key_id == old(self).next_key_id + 1,
            final(self).next_poi_id == old(self).next_poi_id,
            old(self).wf() ==> final(self).wf(),
            final(self).api_keys@.len() == old(self).api_keys@.len() + 1,
            forall|i: int|
                0 <= i < old(self).api_keys@.len() ==> final(self).api_keys@[i] == old(self).api_keys@[i],
            final(self).api_keys@.last().id == id,
            final(self).api_keys@.last().platform@ == platform@,
            final(self).api_keys@.last().api_key@ == api_key@,
            final(self).api_keys@.last().is_active == true,
            final(self).api_keys@.last().quota_exhausted == false,
            final(self).poi@ == old(self).poi@,
    {
        let id = self.next_key_id;
        self.next_key_id = self.next_key_id + 1;
        let display = match name {
            Some(n) => n.to_owned(),
            None => String::new(),
        };
        self.api_keys.push(
            ApiKey {
                id,
                name: display,
                api_key: api_key.to_owned(),
                platform: platform.to_owned(),
                is_active: true,
                quota_exhausted: false,
            },
        );
        id
    }

    /// Removes the key with the given identifier, if stored.
    pub fn delete_api_key(&mut self, key_id: i64)
        ensures
            final(self).next_poi_id == old(self).next_poi_id,
            final(self).next_key_id == old(self).next_key_id,
            old(self).wf() ==> final(self).wf(),
            forall|i: int|
                0 <= i < final(self).api_keys@.len() ==> (#[trigger] final(self).api_keys@[i]).id
                    != key_id,
            final(self).poi@ == old(self).poi@,
    {
        let n = self.api_keys.len();
        let mut kept: Vec<ApiKey> = Vec::new();
        let mut i: usize = 0;
        while i < n
            invariant
                n == self.api_keys@.len(),
                self.api_keys@ == old(self).api_keys@,
                self.poi@ == old(self).poi@,
                self.next_poi_id == old(self).next_poi_id,
                self.next_key_id == old(self).next_key_id,
                i <= n,
                forall|k: int| 0 <= k < kept@.len() ==> (#[trigger] kept@[k]).id != key_id,
            decreases n - i,
        {
            if self.api_keys[i].id != key_id {
                kept.push(clone_api_key(&self.api_keys[i]));
            }
            i = i + 1;
        }
        self.api_keys = kept;
        proof {
            assert forall|k: int| 0 <= k < self.api_keys@.len() implies (
            #[trigger] self.api_keys@[k]).id != key_id by {
                assert(self.api_keys@[k] == kept@[k]);
            }
        }
    }

    /// Marks a key as quota-exhausted; everything else on every key stays.
    pub fn mark_key_exhausted(&mut self, key_id: i64)
        ensures
            final(self).next_poi_id == old(self).next_poi_id,
            final(self).next_key_id == old(self).next_key_id,
            old(self).wf() ==> final(self).wf(),
            final(self).api_keys@.len() == old(self).api_keys@.len(),
            forall|i: int|
                0 <= i < old(self).api_keys@.len() && (#[trigger] old(self).api_keys@[i]).id
                    != key_id ==> final(self).api_keys@[i] == old(self).api_keys@[i],
            forall|i: int|
                0 <= i < old(self).api_keys@.len() && (#[trigger] old(self).api_keys@[i]).id
                    == key_id ==> final(self).api_keys@[i] == (ApiKey {
                    quota_exhausted: true,
                    ..old(self).api_keys@[i]
                }),
            final(self).poi@ == old(self).poi@,
    {
        let n = self.api_keys.len();
        let mut i: usize = 0;
        while i < n
            invariant
                n == old(self).api_keys@.len(),
                self.api_keys@.len() == n,
                self.poi@ == old(self).poi@,
                self.next_poi_id == old(self).next_poi_id,
                self.next_key_id == old(self).next_key_id,
                i <= n,
                forall|j: int| i <= j < n ==> self.api_keys@[j] == old(self).api_keys@[j],
                forall|j: int|
                    0 <= j < i && (#[trigger] old(self).api_keys@[j]).id != key_id
                        ==> self.api_keys@[j] == old(self).api_keys@[j],
                forall|j: int|
                    0 <= j < i && (#[trigger] old(self).api_keys@[j]).id == key_id
                        ==> self.api_keys@[j] == (ApiKey {
                        quota_exhausted: true,
                        ..old(self).api_keys@[j]
                    }),
            decreases n - i,
        {
            if self.api_keys[i].id == key_id {
                let prev = clone_api_key(&self.api_keys[i]);
                self.api_keys.set(i, ApiKey { quota_exhausted: true, ..prev });
            }
            i = i + 1;
        }
    }
}

/// The first usable key of a platform: active and not exhausted.
pub fn select_active_key(keys: &Vec<ApiKey>, platform: &str) -> (r: Option<ApiKey>)
    ensures
        r is Some ==> exists|i: int|
            0 <= i < keys@.len() && (#[trigger] keys@[i]).platform@ == platform@ && keys@[i].is_active
                && !keys@[i].quota_exhausted && keys@[i] == r->0 && forall|j: int|
                0 <= j < i ==> !((#[trigger] keys@[j]).platform@ == platform@
                    && keys@[j].is_active && !keys@[j].quota_exhausted),
        r is None ==> forall|i: int|
            0 <= i < keys@.len() ==> !((#[trigger] keys@[i]).platform@ == platform@
                && keys@[i].is_active && !keys@[i].quota_exhausted),
{
    let n = keys.len();
    let mut i: usize = 0;
    while i < n
        invariant
            n == keys@.len(),
            i <= n,
            forall|j: int|
                0 <= j < i ==> !((#[trigger] keys@[j]).platform@ == platform@
                    && keys@[j].is_active && !keys@[j].quota_exhausted),
        decreases n - i,
    {
        let k = &keys[i];
        let pmatch = bytes_eq(k.platform.as_str().as_bytes(), platform.as_bytes());
        proof {
            crate::text::lemma_utf8_view_eq(keys@[i as int].platform@, platform@);
        }
        if pmatch && k.is_active && !k.quota_exhausted {
            return Some(clone_api_key(&keys[i]));
        }
        i = i + 1;
    }
    None
}

/// Extending a row prefix adjusts a platform count by that row alone.
proof fn lemma_count_platform_step(rows: Seq<PoiRow>, k: int, tag: Seq<char>)
    requires
        0 <= k < rows.len(),
    ensures
        count_platform(rows.subrange(0, k + 1), tag) == count_platform(rows.subrange(0, k), tag)
            + if rows[k].platform@ == tag {
            1nat
        } else {
            0nat
        },
{
    assert(rows.subrange(0, k + 1).drop_last() =~= rows.subrange(0, k));
    assert(rows.subrange(0, k + 1).last() == rows[k]);
}

/// Extending a row prefix adjusts a category count by that row alone.
proof fn lemma_count_category_step(rows: Seq<PoiRow>, k: int, tag: Seq<char>)
    requires
        0 <= k < rows.len(),
    ensures
        count_category(rows.subrange(0, k + 1), tag) == count_category(rows.subrange(0, k), tag)
            + if rows[k].category@ == tag {
            1nat
        } else {
            0nat
        },
{
    assert(rows.subrange(0, k + 1).drop_last() =~= rows.subrange(0, k));
    assert(rows.subrange(0, k + 1).last() == rows[k]);
}

/// A platform absent from every row of a prefix counts zero there.
proof fn lemma_count_platform_zero(rows: Seq<PoiRow>, k: int, tag: Seq<char>)
    requires
        0 <= k <= rows.len(),
        forall|j: int| 0 <= j < k ==> (#[trigger] rows[j]).platform@ != tag,
    ensures
        count_platform(rows.subrange(0, k), tag) == 0,
    decreases k,
{
    if k > 0 {
        lemma_count_platform_zero(rows, k - 1, tag);
        lemma_count_platform_step(rows, k - 1, tag);
    } else {
        assert(rows.subrange(0, 0) =~= Seq::<PoiRow>::empty());
    }
}

/// A category absent from every row of a prefix counts zero there.
proof fn lemma_count_category_zero(rows: Seq<PoiRow>, k: int, tag: Seq<char>)
    requires
        0 <= k <= rows.len(),
        forall|j: int| 0 <= j < k ==> (#[trigger] rows[j]).category@ != tag,
    ensures
        count_category(rows.subrange(0, k), tag) == 0,
    decreases k,
{
    if k > 0 {
        lemma_count_category_zero(rows, k - 1, tag);
        lemma_count_category_step(rows, k - 1, tag);
    } else {
        assert(rows.subrange(0, 0) =~= Seq::<PoiRow>::empty());
    }
}

/// A field-true copy of a stored key.
fn clone_api_key(k: &ApiKey) -> (r: ApiKey)
    ensures
        r == *k,
{
    ApiKey {
        id: k.id,
        name: k.name.clone(),
        api_key: k.api_key.clone(),
        platform: k.platform.clone(),
        is_active: k.is_active,
        quota_exhausted: k.quota_exhausted,
    }
}

/// Adds one to the group entry of `tag`, creating it at one; reports
/// whether the entry existed.
fn bump_group(groups: &mut Vec<(String, i64)>, tag: &String, bound: usize) -> (found: bool)
    requires
        forall|k1: int, k2: int|
            0 <= k1 < k2 < old(groups)@.len() ==> (#[trigger] old(groups)@[k1]).0@ != (
            #[trigger] old(groups)@[k2]).0@,
        forall|k: int| 0 <= k < old(groups)@.len() ==> (#[trigger] old(groups)@[k]).1 <= bound,
        bound < 0x7fffffffffffffff,
    ensures
        final(groups)@.len() >= old(groups)@.len(),
        forall|k1: int, k2: int|
            0 <= k1 < k2 < final(groups)@.len() ==> (#[trigger] final(groups)@[k1]).0@ != (
            #[trigger] final(groups)@[k2]).0@,
        exists|k: int|
            0 <= k < final(groups)@.len() && (#[trigger] final(groups)@[k]).0@ == tag@,
        forall|k: int|
            0 <= k < old(groups)@.len() && (#[trigger] old(groups)@[k]).0@ != tag@ ==> final(groups)@[k] == old(groups)@[k],
        forall|k: int|
            0 <= k < old(groups)@.len() && (#[trigger] old(groups)@[k]).0@ == tag@ ==> final(groups)@[k].0 == old(groups)@[k].0 && final(groups)@[k].1 == old(groups)@[k].1 + 1,
        (exists|j: int| 0 <= j < old(groups)@.len() && (#[trigger] old(groups)@[j]).0@ == tag@)
            ==> final(groups)@.len() == old(groups)@.len(),
        !(exists|j: int| 0 <= j < old(groups)@.len() && (#[trigger] old(groups)@[j]).0@ == tag@)
            ==> final(groups)@.len() == old(groups)@.len() + 1 && final(groups)@.last().0@
            == tag@ && final(groups)@.last().1 == 1 && forall|k: int|
            0 <= k < old(groups)@.len() ==> final(groups)@[k] == old(groups)@[k],
        forall|k: int|
            0 <= k < final(groups)@.len() ==> (#[trigger] final(groups)@[k]).1 <= bound + 1,
{
    let n = groups.len();
    let mut i: usize = 0;
    let mut found_at: usize = n;
    while i < n && found_at == n
        invariant
            n == old(groups)@.len(),
            groups@ == old(groups)@,
            i <= n,
            found_at == n || (found_at < n && groups@[found_at as int].0@ == tag@),
            found_at == n ==> forall|j: int| 0 <= j < i ==> (#[trigger] groups@[j]).0@ != tag@,
        decreases n - i + if found_at == n { 1int } else { 0int },
    {
        let gmatch = bytes_eq(groups[i].0.as_str().as_bytes(), tag.as_str().as_bytes());
        proof {
            crate::text::lemma_utf8_view_eq(groups@[i as int].0@, tag@);
        }
        if gmatch {
            found_at = i;
        } else {
            i = i + 1;
        }
    }
    if found_at < n {
        let name = groups[found_at].0.clone();
        let cnt = groups[found_at].1;
        groups.set(found_at, (name, cnt + 1));
        proof {
            let fi = found_at as int;
            assert forall|k: int| 0 <= k < groups@.len() implies (#[trigger] groups@[k]).0@
                == old(groups)@[k].0@ by {
                if k != fi {
                    assert(groups@[k] == old(groups)@[k]);
                }
            }
            assert(groups@[fi].0@ == tag@);
            assert forall|k: int|
                0 <= k < old(groups)@.len() && (#[trigger] old(groups)@[k]).0@ == tag@ implies k
                == fi by {
                if k != fi {
                    if k < fi {
                        assert(old(groups)@[k].0@ != old(groups)@[fi].0@);
                    } else {
                        assert(old(groups)@[fi].0@ != old(groups)@[k].0@);
                    }
                }
            }
            assert forall|k1: int, k2: int| 0 <= k1 < k2 < groups@.len() implies (
            #[trigger] groups@[k1]).0@ != (#[trigger] groups@[k2]).0@ by {
                assert(groups@[k1].0@ == old(groups)@[k1].0@);
                assert(groups@[k2].0@ == old(groups)@[k2].0@);
            }
            assert(old(groups)@[fi].0@ == tag@);
        }
        true
    } else {
        groups.push((tag.clone(), 1));
        proof {
            let last = groups@.len() - 1;
            assert(groups@[last].0@ == tag@);
            assert(!(exists|j: int|
                0 <= j < old(groups)@.len() && (#[trigger] old(groups)@[j]).0@ == tag@));
            assert forall|k1: int, k2: int| 0 <= k1 < k2 < groups@.len() implies (
            #[trigger] groups@[k1]).0@ != (#[trigger] groups@[k2]).0@ by {
                if k2 == last {
                    assert(groups@[k1] == old(groups)@[k1]);
                } else {
                    assert(groups@[k1] == old(groups)@[k1]);
                    assert(groups@[k2] == old(groups)@[k2]);
                }
            }
        }
        false
    }
}


/// How a search pattern is applied.
#[derive(Debug, Clone, Copy, PartialEq, Eq, Structural)]
pub enum SearchMode {
    Exact,
    Prefix,
    Contains,
}

impl SearchMode {
    /// Which mode a tag denotes; the loose modes both read as containment.
    pub open spec fn parse_spec(b: Seq<u8>) -> SearchMode {
        if b == "exact".spec_bytes() {
            SearchMode::Exact
        } else if b == "prefix".spec_bytes() {
            SearchMode::Prefix
        } else {
            SearchMode::Contains
        }
    }

    /// Reads a mode tag.
    pub fn from(s: &str) -> (r: SearchMode)
        ensures
            r == SearchMode::parse_spec(s.spec_bytes()),
    {
        let b = s.as_bytes();
        if bytes_eq(b, "exact".as_bytes()) {
            SearchMode::Exact
        } else if bytes_eq(b, "prefix".as_bytes()) {
            SearchMode::Prefix
        } else {
            SearchMode::Contains
        }
    }
}

/// Whether a row answers a query: its name or address equals, starts
/// with, or contains the pattern, byte-wise, per the mode; and it carries
/// the platform when one is asked for.
pub open spec fn row_matches_query(
    r: PoiRow,
    q: Seq<u8>,
    mode: SearchMode,
    platform: Option<Seq<char>>,
) -> bool {
    &&& (match platform {
        Some(p) => r.platform@ == p,
        None => true,
    })
    &&& (match mode {
        SearchMode::Exact => vstd::utf8::encode_utf8(r.name@) == q || vstd::utf8::encode_utf8(
            r.address@,
        ) == q,
        SearchMode::Prefix => starts_with_bytes(vstd::utf8::encode_utf8(r.name@), q)
            || starts_with_bytes(vstd::utf8::encode_utf8(r.address@), q),
        SearchMode::Contains => contains_bytes(vstd::utf8::encode_utf8(r.name@), q)
            || contains_bytes(vstd::utf8::encode_utf8(r.address@), q),
    })
}


/// Field-for-field sameness of two rows, stated over views.
pub open spec fn row_fields_eq(a: PoiRow, b: PoiRow) -> bool {
    &&& a.id == b.id
    &&& a.name@ == b.name@
    &&& a.lon_e7 == b.lon_e7
    &&& a.lat_e7 == b.lat_e7
    &&& a.original_lon_e7 == b.original_lon_e7
    &&& a.original_lat_e7 == b.original_lat_e7
    &&& a.category@ == b.category@
    &&& a.category_id@ == b.category_id@
    &&& a.address@ == b.address@
    &&& a.phone@ == b.phone@
    &&& a.platform@ == b.platform@
    &&& a.region_code@ == b.region_code@
    &&& a.raw_data@ == b.raw_data@
}


/// How many rows carry the given region code.
pub open spec fn count_region(rows: Seq<PoiRow>, code: Seq<char>) -> nat
    decreases rows.len(),
{
    if rows.len() == 0 {
        0
    } else {
        count_region(rows.drop_last(), code) + if rows.last().region_code@ == code {
            1nat
        } else {
            0nat
        }
    }
}

/// Extending a row prefix adjusts a region count by that row alone.
proof fn lemma_count_region_step(rows: Seq<PoiRow>, k: int, code: Seq<char>)
    requires
        0 <= k < rows.len(),
    ensures
        count_region(rows.subrange(0, k + 1), code) == count_region(rows.subrange(0, k), code)
            + if rows[k].region_code@ == code {
            1nat
        } else {
            0nat
        },
{
    assert(rows.subrange(0, k + 1).drop_last() =~= rows.subrange(0, k));
    assert(rows.subrange(0, k + 1).last() == rows[k]);
}

/// A region code absent from every row of a prefix counts zero there.
proof fn lemma_count_region_zero(rows: Seq<PoiRow>, k: int, code: Seq<char>)
    requires
        0 <= k <= rows.len(),
        forall|j: int| 0 <= j < k ==> (#[trigger] rows[j]).region_code@ != code,
    ensures
        count_region(rows.subrange(0, k), code) == 0,
    decreases k,
{
    if k > 0 {
        lemma_count_region_zero(rows, k - 1, code);
        lemma_count_region_step(rows, k - 1, code);
    } else {
        assert(rows.subrange(0, 0) =~= Seq::<PoiRow>::empty());
    }
}

/// Region group entries carry correct counts, pairwise distinct codes, and
/// cover every row of the listing.
pub open spec fn region_groups_wf(
    groups: Seq<(String, i64)>,
    rows: Seq<PoiRow>,
    upto: int,
) -> bool {
    &&& forall|k: int|
        0 <= k < groups.len() ==> (#[trigger] groups[k]).1 == count_region(
            rows.subrange(0, upto),
            groups[k].0@,
        )
    &&& forall|k1: int, k2: int|
        0 <= k1 < k2 < groups.len() ==> (#[trigger] groups[k1]).0@ != (#[trigger] groups[k2]).0@
    &&& forall|j: int|
        0 <= j < upto ==> exists|k: int|
            0 <= k < groups.len() && (#[trigger] rows[j]).region_code@ == (
            #[trigger] groups[k]).0@
}

/// The rows carrying the given platform, in table order; no filter keeps
/// every row.
pub open spec fn platform_filter(rows: Seq<PoiRow>, platform: Option<Seq<char>>) -> Seq<PoiRow>
    decreases rows.len(),
{
    if rows.len() == 0 {
        Seq::empty()
    } else {
        platform_filter(rows.drop_last(), platform) + if (match platform {
            Some(p) => rows.last().platform@ == p,
            None => true,
        }) {
            seq![rows.last()]
        } else {
            Seq::empty()
        }
    }
}

/// One more row extends the platform filter by that row alone.
proof fn lemma_platform_filter_step(rows: Seq<PoiRow>, k: int, platform: Option<Seq<char>>)
    requires
        0 <= k < rows.len(),
    ensures
        platform_filter(rows.subrange(0, k + 1), platform) == platform_filter(
            rows.subrange(0, k),
            platform,
        ) + if (match platform {
            Some(p) => rows[k].platform@ == p,
            None => true,
        }) {
            seq![rows[k]]
        } else {
            Seq::<PoiRow>::empty()
        },
{
    assert(rows.subrange(0, k + 1).drop_last() =~= rows.subrange(0, k));
    assert(rows.subrange(0, k + 1).last() == rows[k]);
}

/// Every filtered row is a row of the table.
proof fn lemma_platform_filter_member(rows: Seq<PoiRow>, platform: Option<Seq<char>>, k: int)
    requires
        0 <= k < platform_filter(rows, platform).len(),
    ensures
        exists|i: int|
            0 <= i < rows.len() && #[trigger] rows[i] == platform_filter(rows, platform)[k],
    decreases rows.len(),
{
    let all = platform_filter(rows, platform);
    let init = platform_filter(rows.drop_last(), platform);
    if k < init.len() {
        lemma_platform_filter_member(rows.drop_last(), platform, k);
        let i = choose|i: int|
            0 <= i < rows.drop_last().len() && #[trigger] rows.drop_last()[i] == init[k];
        assert(rows[i] == all[k]);
    } else {
        assert(rows[rows.len() - 1] == all[k]);
    }
}

/// Keeping every row keeps the length.
proof fn lemma_platform_filter_none_len(rows: Seq<PoiRow>)
    ensures
        platform_filter(rows, None).len() == rows.len(),
    decreases rows.len(),
{
    if rows.len() > 0 {
        lemma_platform_filter_none_len(rows.drop_last());
    }
}

/// Whether a code is in the given list.
pub open spec fn code_listed(c: Seq<char>, codes: Seq<Seq<char>>) -> bool {
    exists|k: int| 0 <= k < codes.len() && codes[k] == c
}

/// The rows whose region code is not in the list, in table order.
pub open spec fn without_codes(rows: Seq<PoiRow>, codes: Seq<Seq<char>>) -> Seq<PoiRow>
    decreases rows.len(),
{
    if rows.len() == 0 {
        Seq::empty()
    } else {
        without_codes(rows.drop_last(), codes) + if code_listed(
            rows.last().region_code@,
            codes,
        ) {
            Seq::empty()
        } else {
            seq![rows.last()]
        }
    }
}

/// One more row extends the kept listing by that row alone.
proof fn lemma_without_codes_step(rows: Seq<PoiRow>, k: int, codes: Seq<Seq<char>>)
    requires
        0 <= k < rows.len(),
    ensures
        without_codes(rows.subrange(0, k + 1), codes) == without_codes(
            rows.subrange(0, k),
            codes,
        ) + if code_listed(rows[k].region_code@, codes) {
            Seq::<PoiRow>::empty()
        } else {
            seq![rows[k]]
        },
{
    assert(rows.subrange(0, k + 1).drop_last() =~= rows.subrange(0, k));
    assert(rows.subrange(0, k + 1).last() == rows[k]);
}

/// Every kept row is a row of the table.
pub proof fn lemma_without_codes_member(rows: Seq<PoiRow>, codes: Seq<Seq<char>>, k: int)
    requires
        0 <= k < without_codes(rows, codes).len(),
    ensures
        exists|i: int|
            0 <= i < rows.len() && #[trigger] rows[i] == without_codes(rows, codes)[k],
    decreases rows.len(),
{
    let all = without_codes(rows, codes);
    let init = without_codes(rows.drop_last(), codes);
    if k < init.len() {
        lemma_without_codes_member(rows.drop_last(), codes, k);
        let i = choose|i: int|
            0 <= i < rows.drop_last().len() && #[trigger] rows.drop_last()[i] == init[k];
        assert(rows[i] == all[k]);
    } else {
        assert(rows[rows.len() - 1] == all[k]);
    }
}

/// Filtering rows keeps distinct keys and ascending identifiers.
proof fn lemma_without_codes_pairwise(rows: Seq<PoiRow>, codes: Seq<Seq<char>>)
    requires
        forall|i: int, j: int|
            0 <= i < j < rows.len() ==> !same_poi_key(#[trigger] rows[i], #[trigger] rows[j]),
        forall|i: int, j: int|
            0 <= i < j < rows.len() ==> (#[trigger] rows[i]).id < (#[trigger] rows[j]).id,
    ensures
        forall|i: int, j: int|
            0 <= i < j < without_codes(rows, codes).len() ==> !same_poi_key(
                #[trigger] without_codes(rows, codes)[i],
                #[trigger] without_codes(rows, codes)[j],
            ),
        forall|i: int, j: int|
            0 <= i < j < without_codes(rows, codes).len() ==> (#[trigger] without_codes(
                rows,
                codes,
            )[i]).id < (#[trigger] without_codes(rows, codes)[j]).id,
        forall|k: int|
            #![trigger without_codes(rows, codes)[k]]
            0 <= k < without_codes(rows, codes).len() ==> exists|i: int|
                0 <= i < rows.len() && #[trigger] rows[i] == without_codes(rows, codes)[k],
    decreases rows.len(),
{
    let all = without_codes(rows, codes);
    let init = without_codes(rows.drop_last(), codes);
    if rows.len() > 0 {
        assert(forall|i: int, j: int|
            0 <= i < j < rows.drop_last().len() ==> !same_poi_key(
                #[trigger] rows.drop_last()[i],
                #[trigger] rows.drop_last()[j],
            ));
        assert(forall|i: int, j: int|
            0 <= i < j < rows.drop_last().len() ==> (#[trigger] rows.drop_last()[i]).id < (
            #[trigger] rows.drop_last()[j]).id);
        lemma_without_codes_pairwise(rows.drop_last(), codes);
        assert forall|k: int| #![trigger all[k]] 0 <= k < all.len() implies exists|i: int|
            0 <= i < rows.len() && #[trigger] rows[i] == all[k] by {
            lemma_without_codes_member(rows, codes, k);
        }
        assert forall|i: int, j: int| 0 <= i < j < all.len() implies !same_poi_key(
            #[trigger] all[i],
            #[trigger] all[j],
        ) && (#[trigger] all[i]).id < (#[trigger] all[j]).id by {
            if j < init.len() {
                assert(all[i] == init[i] && all[j] == init[j]);
            } else {
                assert(all[j] == rows.last());
                assert(all[i] == init[i]);
                lemma_without_codes_member(rows.drop_last(), codes, i);
                let a = choose|a: int|
                    0 <= a < rows.drop_last().len() && #[trigger] rows.drop_last()[a] == init[i];
                assert(rows[a] == all[i]);
                assert(!same_poi_key(rows[a], rows.last()));
                assert(rows[a].id < rows.last().id);
            }
        }
    }
}

/// The export projection of a stored row.
pub open spec fn export_matches(e: ExportPOI, r: PoiRow) -> bool {
    &&& e.id == r.id
    &&& e.name@ == r.name@
    &&& e.lon_e7 == r.lon_e7
    &&& e.lat_e7 == r.lat_e7
    &&& e.address@ == r.address@
    &&& e.phone@ == r.phone@
    &&& e.category@ == r.category@
    &&& e.platform@ == r.platform@
    &&& e.region_code@ == r.region_code@
}


/// How many stored rows answer a query.
pub open spec fn count_matching(
    rows: Seq<PoiRow>,
    q: Seq<u8>,
    mode: SearchMode,
    platform: Option<Seq<char>>,
) -> nat
    decreases rows.len(),
{
    if rows.len() == 0 {
        0
    } else {
        count_matching(rows.drop_last(), q, mode, platform) + if row_matches_query(
            rows.last(),
            q,
            mode,
            platform,
        ) {
            1nat
        } else {
            0nat
        }
    }
}

/// The matching rows themselves, in table order.
pub open spec fn matching_filter(
    rows: Seq<PoiRow>,
    q: Seq<u8>,
    mode: SearchMode,
    platform: Option<Seq<char>>,
) -> Seq<PoiRow>
    decreases rows.len(),
{
    if rows.len() == 0 {
        Seq::empty()
    } else {
        matching_filter(rows.drop_last(), q, mode, platform) + if row_matches_query(
            rows.last(),
            q,
            mode,
            platform,
        ) {
            seq![rows.last()]
        } else {
            Seq::empty()
        }
    }
}

/// There are as many matching rows as the count says.
proof fn lemma_matching_filter_len(
    rows: Seq<PoiRow>,
    q: Seq<u8>,
    mode: SearchMode,
    platform: Option<Seq<char>>,
)
    ensures
        matching_filter(rows, q, mode, platform).len() == count_matching(rows, q, mode, platform),
    decreases rows.len(),
{
    if rows.len() > 0 {
        lemma_matching_filter_len(rows.drop_last(), q, mode, platform);
    }
}

/// One more row extends the match listing by that row alone.
proof fn lemma_matching_filter_step(
    rows: Seq<PoiRow>,
    k: int,
    q: Seq<u8>,
    mode: SearchMode,
    platform: Option<Seq<char>>,
)
    requires
        0 <= k < rows.len(),
    ensures
        matching_filter(rows.subrange(0, k + 1), q, mode, platform) == matching_filter(
            rows.subrange(0, k),
            q,
            mode,
            platform,
        ) + if row_matches_query(rows[k], q, mode, platform) {
            seq![rows[k]]
        } else {
            Seq::<PoiRow>::empty()
        },
{
    assert(rows.subrange(0, k + 1).drop_last() =~= rows.subrange(0, k));
    assert(rows.subrange(0, k + 1).last() == rows[k]);
}

/// A prefix of the table matches a prefix of the full match listing.
proof fn lemma_matching_filter_prefix_take(
    rows: Seq<PoiRow>,
    k: int,
    q: Seq<u8>,
    mode: SearchMode,
    platform: Option<Seq<char>>,
)
    requires
        0 <= k <= rows.len(),
    ensures
        matching_filter(rows.subrange(0, k), q, mode, platform) == matching_filter(
            rows,
            q,
            mode,
            platform,
        ).take(matching_filter(rows.subrange(0, k), q, mode, platform).len() as int),
        matching_filter(rows.subrange(0, k), q, mode, platform).len() <= matching_filter(
            rows,
            q,
            mode,
            platform,
        ).len(),
    decreases rows.len() - k,
{
    if k == rows.len() {
        assert(rows.subrange(0, k) =~= rows);
        assert(matching_filter(rows, q, mode, platform).take(
            matching_filter(rows, q, mode, platform).len() as int,
        ) =~= matching_filter(rows, q, mode, platform));
    } else {
        lemma_matching_filter_step(rows, k, q, mode, platform);
        lemma_matching_filter_prefix_take(rows, k + 1, q, mode, platform);
        let a = matching_filter(rows.subrange(0, k + 1), q, mode, platform);
        let pk = matching_filter(rows.subrange(0, k), q, mode, platform);
        let full = matching_filter(rows, q, mode, platform);
        let ck = pk.len() as int;
        let ck1 = a.len() as int;
        assert forall|j: int| 0 <= j < ck implies pk[j] == full.take(ck)[j] by {
            assert(pk[j] == a[j]);
            assert(a[j] == full.take(ck1)[j]);
            assert(full.take(ck1)[j] == full[j]);
            assert(full.take(ck)[j] == full[j]);
        }
        assert(pk =~= full.take(ck));
    }
}

/// The search projection of a stored row.
pub open spec fn poi_projects(p: POI, r: PoiRow) -> bool {
    &&& p.id == r.id
    &&& p.name@ == r.name@
    &&& p.lon_e7 == r.lon_e7
    &&& p.lat_e7 == r.lat_e7
    &&& p.address@ == r.address@
    &&& p.category@ == r.category@
    &&& p.platform@ == r.platform@
}

/// One more row adjusts the matching count by that row alone.
proof fn lemma_count_matching_step(
    rows: Seq<PoiRow>,
    k: int,
    q: Seq<u8>,
    mode: SearchMode,
    platform: Option<Seq<char>>,
)
    requires
        0 <= k < rows.len(),
    ensures
        count_matching(rows.subrange(0, k + 1), q, mode, platform) == count_matching(
            rows.subrange(0, k),
            q,
            mode,
            platform,
        ) + if row_matches_query(rows[k], q, mode, platform) {
            1nat
        } else {
            0nat
        },
{
    assert(rows.subrange(0, k + 1).drop_last() =~= rows.subrange(0, k));
    assert(rows.subrange(0, k + 1).last() == rows[k]);
}

/// A prefix never matches more rows than the whole.
proof fn lemma_count_matching_prefix(
    rows: Seq<PoiRow>,
    k: int,
    q: Seq<u8>,
    mode: SearchMode,
    platform: Option<Seq<char>>,
)
    requires
        0 <= k <= rows.len(),
    ensures
        count_matching(rows.subrange(0, k), q, mode, platform) <= count_matching(
            rows,
            q,
            mode,
            platform,
        ),
    decreases rows.len() - k,
{
    if k == rows.len() {
        assert(rows.subrange(0, k) =~= rows);
    } else {
        lemma_count_matching_step(rows, k, q, mode, platform);
        lemma_count_matching_prefix(rows, k + 1, q, mode, platform);
    }
}

impl Database {
    /// Answers a search: exactly the first matching rows, up to `limit`,
    /// projected in table order — name or address equal to, starting with,
    /// or containing the pattern per the mode, restricted to one platform
    /// when asked.
    pub fn search_poi(&self, query: &str, platform: Option<&str>, mode: &str, limit: usize) -> (
        r: Vec<POI>)
        ensures
            r@.len() == if count_matching(
                self.poi@,
                query.spec_bytes(),
                SearchMode::parse_spec(mode.spec_bytes()),
                match platform {
                    Some(p) => Some(p@),
                    None => None,
                },
            ) < limit {
                count_matching(
                    self.poi@,
                    query.spec_bytes(),
                    SearchMode::parse_spec(mode.spec_bytes()),
                    match platform {
                        Some(p) => Some(p@),
                        None => None,
                    },
                )
            } else {
                limit as nat
            },
            forall|k: int|
                #![trigger r@[k]]
                0 <= k < r@.len() ==> poi_projects(
                    r@[k],
                    matching_filter(
                        self.poi@,
                        query.spec_bytes(),
                        SearchMode::parse_spec(mode.spec_bytes()),
                        match platform {
                            Some(p) => Some(p@),
                            None => None,
                        },
                    )[k],
                ),
    {
        let m = SearchMode::from(mode);
        let ghost pv: Option<Seq<char>> = match platform {
            Some(p) => Some(p@),
            None => None,
        };
        let qb = query.as_bytes();
        let n = self.poi.len();
        let mut r: Vec<POI> = Vec::new();
        let mut i: usize = 0;
        while i < n && r.len() < limit
            invariant
                n == self.poi@.len(),
                i <= n,
                r@.len() <= limit,
                qb@ == query.spec_bytes(),
                m == SearchMode::parse_spec(mode.spec_bytes()),
                pv == (match platform {
                    Some(p) => Some(p@),
                    None => None,
                }),
                r@.len() == count_matching(
                    self.poi@.subrange(0, i as int),
                    query.spec_bytes(),
                    m,
                    pv,
                ) || (r@.len() == limit && r@.len() <= count_matching(
                    self.poi@.subrange(0, i as int),
                    query.spec_bytes(),
                    m,
                    pv,
                )),
                forall|k: int|
                    #![trigger r@[k]]
                    0 <= k < r@.len() ==> poi_projects(
                        r@[k],
                        matching_filter(self.poi@, query.spec_bytes(), m, pv)[k],
                    ),
            decreases n - i,
        {
            proof {
                lemma_count_matching_step(self.poi@, i as int, query.spec_bytes(), m, pv);
                lemma_matching_filter_step(self.poi@, i as int, query.spec_bytes(), m, pv);
                lemma_matching_filter_len(
                    self.poi@.subrange(0, i as int),
                    query.spec_bytes(),
                    m,
                    pv,
                );
                lemma_matching_filter_len(
                    self.poi@.subrange(0, i as int + 1),
                    query.spec_bytes(),
                    m,
                    pv,
                );
                lemma_matching_filter_prefix_take(
                    self.poi@,
                    i as int + 1,
                    query.spec_bytes(),
                    m,
                    pv,
                );
            }
            let row = &self.poi[i];
            let pl_ok = match platform {
                Some(p) => {
                    let same = bytes_eq(row.platform.as_str().as_bytes(), p.as_bytes());
                    proof {
                        crate::text::lemma_utf8_view_eq(
                            self.poi@[i as int].platform@,
                            (pv->0),
                        );
                    }
                    same
                },
                None => true,
            };
            let text_ok = if pl_ok {
                match m {
                    SearchMode::Exact => bytes_eq(row.name.as_str().as_bytes(), qb) || bytes_eq(
                        row.address.as_str().as_bytes(),
                        qb,
                    ),
                    SearchMode::Prefix => crate::text::str_starts_with(
                        row.name.as_str(),
                        query,
                    ) || crate::text::str_starts_with(row.address.as_str(), query),
                    SearchMode::Contains => str_contains_str(row.name.as_str(), query)
                        || str_contains_str(row.address.as_str(), query),
                }
            } else {
                false
            };
            if pl_ok && text_ok {
                assert(row_matches_query(self.poi@[i as int], query.spec_bytes(), m, pv));
                let ghost prev = r@;
                let ghost pfx = matching_filter(
                    self.poi@.subrange(0, i as int),
                    query.spec_bytes(),
                    m,
                    pv,
                );
                let ghost pfx1 = matching_filter(
                    self.poi@.subrange(0, i as int + 1),
                    query.spec_bytes(),
                    m,
                    pv,
                );
                let hit = POI {
                    id: row.id,
                    name: row.name.clone(),
                    lon_e7: row.lon_e7,
                    lat_e7: row.lat_e7,
                    address: row.address.clone(),
                    category: row.category.clone(),
                    platform: row.platform.clone(),
                };
                r.push(hit);
                proof {
                    let full = matching_filter(self.poi@, query.spec_bytes(), m, pv);
                    // the new entry sits at position |pfx| of the full match
                    // listing, which is this very row
                    assert(pfx1 == full.take(pfx1.len() as int));
                    assert(pfx1[pfx.len() as int] == self.poi@[i as int]);
                    assert(full[pfx.len() as int] == self.poi@[i as int]);
                    assert forall|k: int| #![trigger r@[k]] 0 <= k < r@.len() implies
                        poi_projects(r@[k], full[k]) by {
                        if k < prev.len() {
                            assert(r@[k] == prev[k]);
                        } else {
                            assert(k == pfx.len());
                            assert(poi_projects(r@[k], self.poi@[i as int]));
                        }
                    }
                }
            } else {
                assert(!row_matches_query(self.poi@[i as int], query.spec_bytes(), m, pv));
            }
            i = i + 1;
        }
        proof {
            if i == n {
                assert(self.poi@.subrange(0, n as int) =~= self.poi@);
            } else {
                lemma_count_matching_prefix(self.poi@, i as int, query.spec_bytes(), m, pv);
            }
        }
        r
    }

    /// Every stored row, restricted to one platform when asked, projected
    /// for export in table order — which, in a well-formed store, is
    /// ascending identifier order.
    pub fn get_all_poi(&self, platform: Option<&str>) -> (r: Vec<ExportPOI>)
        requires
            self.wf(),
        ensures
            r@.len() == platform_filter(
                self.poi@,
                match platform {
                    Some(p) => Some(p@),
                    None => None,
                },
            ).len(),
            forall|k: int|
                #![trigger r@[k]]
                0 <= k < r@.len() ==> export_matches(
                    r@[k],
                    platform_filter(
                        self.poi@,
                        match platform {
                            Some(p) => Some(p@),
                            None => None,
                        },
                    )[k],
                ),
            forall|k1: int, k2: int|
                0 <= k1 < k2 < r@.len() ==> (#[trigger] r@[k1]).id < (#[trigger] r@[k2]).id,
            platform is None ==> r@.len() == self.poi@.len(),
    {
        let n = self.poi.len();
        let ghost pv: Option<Seq<char>> = match platform {
            Some(p) => Some(p@),
            None => None,
        };
        let mut r: Vec<ExportPOI> = Vec::new();
        let mut i: usize = 0;
        while i < n
            invariant
                self.wf(),
                n == self.poi@.len(),
                i <= n,
                pv == (match platform {
                    Some(p) => Some(p@),
                    None => None,
                }),
                r@.len() == platform_filter(self.poi@.subrange(0, i as int), pv).len(),
                forall|k: int|
                    #![trigger r@[k]]
                    0 <= k < r@.len() ==> export_matches(
                        r@[k],
                        platform_filter(self.poi@.subrange(0, i as int), pv)[k],
                    ),
                forall|k: int|
                    #![trigger r@[k]]
                    0 <= k < r@.len() ==> exists|j: int|
                        0 <= j < i && r@[k].id == (#[trigger] self.poi@[j]).id,
                forall|k1: int, k2: int|
                    0 <= k1 < k2 < r@.len() ==> (#[trigger] r@[k1]).id < (#[trigger] r@[k2]).id,
            decreases n - i,
        {
            proof {
                lemma_platform_filter_step(self.poi@, i as int, pv);
            }
            let row = &self.poi[i];
            let keep = match platform {
                Some(p) => {
                    let same = bytes_eq(row.platform.as_str().as_bytes(), p.as_bytes());
                    proof {
                        crate::text::lemma_utf8_view_eq(self.poi@[i as int].platform@, p@);
                    }
                    same
                },
                None => true,
            };
            if keep {
                let ghost prev = r@;
                let ghost pf1 = platform_filter(self.poi@.subrange(0, i as int + 1), pv);
                r.push(
                    ExportPOI {
                        id: row.id,
                        name: row.name.clone(),
                        lon_e7: row.lon_e7,
                        lat_e7: row.lat_e7,
                        address: row.address.clone(),
                        phone: row.phone.clone(),
                        category: row.category.clone(),
                        platform: row.platform.clone(),
                        region_code: row.region_code.clone(),
                    },
                );
                proof {
                    assert forall|k: int| #![trigger r@[k]] 0 <= k < r@.len() implies
                        export_matches(r@[k], pf1[k]) by {
                        if k < prev.len() {
                            assert(r@[k] == prev[k]);
                            assert(pf1[k] == platform_filter(
                                self.poi@.subrange(0, i as int),
                                pv,
                            )[k]);
                        } else {
                            assert(pf1[k] == self.poi@[i as int]);
                            assert(export_matches(r@[k], self.poi@[i as int]));
                        }
                    }
                    assert forall|k: int| #![trigger r@[k]] 0 <= k < r@.len() implies exists|
                        j: int,
                    |
                        0 <= j < i + 1 && r@[k].id == (#[trigger] self.poi@[j]).id by {
                        if k < prev.len() {
                            assert(r@[k] == prev[k]);
                        } else {
                            assert(r@[k].id == self.poi@[i as int].id);
                        }
                    }
                    assert forall|k1: int, k2: int| 0 <= k1 < k2 < r@.len() implies (
                    #[trigger] r@[k1]).id < (#[trigger] r@[k2]).id by {
                        if k2 < prev.len() {
                            assert(r@[k1] == prev[k1] && r@[k2] == prev[k2]);
                        } else {
                            assert(r@[k1] == prev[k1]);
                            let j = choose|j: int|
                                0 <= j < i && prev[k1].id == (#[trigger] self.poi@[j]).id;
                            assert(self.poi@[j].id < self.poi@[i as int].id);
                            assert(r@[k2].id == self.poi@[i as int].id);
                        }
                    }
                }
            }
            i = i + 1;
        }
        proof {
            assert(self.poi@.subrange(0, n as int) =~= self.poi@);
            if platform is None {
                lemma_platform_filter_none_len(self.poi@);
            }
        }
        r
    }

    /// Backfills missing region codes from the address text: the first
    /// matching place name decides, in a fixed order; rows already coded
    /// keep their code.  Returns how many rows changed and how many are
    /// still uncoded.
    pub fn fix_region_codes(&mut self) -> (r: (u64, u64))
        ensures
            final(self).poi@.len() == old(self).poi@.len(),
            forall|j: int|
                #![trigger final(self).poi@[j]]
                0 <= j < old(self).poi@.len() ==> fixed_row_matches(
                    final(self).poi@[j],
                    old(self).poi@[j],
                ),
            r.0 == count_backfilled(old(self).poi@),
            r.1 == count_uncoded_after(old(self).poi@),
            final(self).api_keys@ == old(self).api_keys@,
            old(self).wf() ==> final(self).wf(),
    {
        let n = self.poi.len();
        let mut fixed: u64 = 0;
        let mut i: usize = 0;
        while i < n
            invariant
                n == old(self).poi@.len(),
                self.poi@.len() == n,
                self.api_keys@ == old(self).api_keys@,
                self.next_poi_id == old(self).next_poi_id,
                self.next_key_id == old(self).next_key_id,
                i <= n,
                fixed <= i,
                fixed == count_backfilled(old(self).poi@.subrange(0, i as int)),
                forall|j: int| i <= j < n ==> self.poi@[j] == old(self).poi@[j],
                forall|j: int|
                    #![trigger self.poi@[j]]
                    0 <= j < i ==> fixed_row_matches(self.poi@[j], old(self).poi@[j]),
            decreases n - i,
        {
            proof {
                lemma_backfill_counts_step(old(self).poi@, i as int);
                reveal_strlit("320924");
                reveal_strlit("320923");
                reveal_strlit("320900");
                assert("320924"@.len() == 6 && "320923"@.len() == 6 && "320900"@.len() == 6);
            }
            let needs_code = self.poi[i].region_code.as_str().unicode_len() == 0;
            if needs_code {
                let addr = &self.poi[i].address;
                let code: Option<&'static str> = if str_contains_str(addr.as_str(), "射阳") {
                    Some("320924")
                } else if str_contains_str(addr.as_str(), "阜宁") {
                    Some("320923")
                } else if str_contains_str(addr.as_str(), "盐城") {
                    Some("320900")
                } else {
                    None
                };
                if let Some(c) = code {
                    let row = &self.poi[i];
                    let new_row = PoiRow {
                        id: row.id,
                        name: row.name.clone(),
                        lon_e7: row.lon_e7,
                        lat_e7: row.lat_e7,
                        original_lon_e7: row.original_lon_e7,
                        original_lat_e7: row.original_lat_e7,
                        category: row.category.clone(),
                        category_id: row.category_id.clone(),
                        address: row.address.clone(),
                        phone: row.phone.clone(),
                        platform: row.platform.clone(),
                        region_code: c.to_owned(),
                        raw_data: row.raw_data.clone(),
                    };
                    self.poi.set(i, new_row);
                    fixed = fixed + 1;
                }
            }
            assert(fixed_row_matches(self.poi@[i as int], old(self).poi@[i as int]));
            assert(fixed == count_backfilled(old(self).poi@.subrange(0, i as int + 1)));
            i = i + 1;
        }
        proof {
            assert(old(self).poi@.subrange(0, n as int) =~= old(self).poi@);
        }
        let mut remaining: u64 = 0;
        let mut i: usize = 0;
        while i < n
            invariant
                n == self.poi@.len(),
                n == old(self).poi@.len(),
                i <= n,
                remaining <= i,
                remaining == count_uncoded_after(old(self).poi@.subrange(0, i as int)),
                forall|j: int|
                    #![trigger self.poi@[j]]
                    0 <= j < n ==> fixed_row_matches(self.poi@[j], old(self).poi@[j]),
            decreases n - i,
        {
            proof {
                lemma_backfill_counts_step(old(self).poi@, i as int);
            }
            if self.poi[i].region_code.as_str().unicode_len() == 0 {
                assert(fixed_region_code(old(self).poi@[i as int]).len() == 0);
                remaining = remaining + 1;
            } else {
                assert(fixed_region_code(old(self).poi@[i as int]).len() != 0);
            }
            i = i + 1;
        }
        proof {
            assert(old(self).poi@.subrange(0, n as int) =~= old(self).poi@);
            lemma_same_key_fixed(old(self).poi@, self.poi@);
        }
        (fixed, remaining)
    }

    /// Counts the store by region code: every stored code appears with its
    /// exact row count.
    pub fn get_poi_stats_by_region(&self) -> (r: Vec<(String, i64)>)
        requires
            self.wf(),
        ensures
            region_groups_wf(r@, self.poi@, self.poi@.len() as int),
    {
        let n = self.poi.len();
        let mut groups: Vec<(String, i64)> = Vec::new();
        let mut i: usize = 0;
        while i < n
            invariant
                self.wf(),
                n == self.poi@.len(),
                i <= n,
                region_groups_wf(groups@, self.poi@, i as int),
                forall|k: int| 0 <= k < groups@.len() ==> (#[trigger] groups@[k]).1 <= i,
            decreases n - i,
        {
            let tag = &self.poi[i].region_code;
            let ghost before = groups@;
            let found = bump_group(&mut groups, tag, i);
            proof {
                let ghost tagv = self.poi@[i as int].region_code@;
                if groups@.len() > before.len() {
                    assert forall|j: int| 0 <= j < i implies (
                    #[trigger] self.poi@[j]).region_code@ != tagv by {
                        let k0 = choose|k: int|
                            0 <= k < before.len() && (#[trigger] self.poi@[j]).region_code@ == (
                            #[trigger] before[k]).0@;
                        if self.poi@[j].region_code@ == tagv {
                            assert(before[k0].0@ == tagv);
                        }
                    }
                    lemma_count_region_zero(self.poi@, i as int, tagv);
                }
                assert forall|k: int| 0 <= k < groups@.len() implies (#[trigger] groups@[k]).1
                    == count_region(self.poi@.subrange(0, i as int + 1), groups@[k].0@) by {
                    lemma_count_region_step(self.poi@, i as int, groups@[k].0@);
                    if k < before.len() {
                        assert(groups@[k].0@ == before[k].0@);
                    }
                }
                assert forall|j: int| 0 <= j < i + 1 implies exists|k: int|
                    0 <= k < groups@.len() && (#[trigger] self.poi@[j]).region_code@ == (
                    #[trigger] groups@[k]).0@ by {
                    if j == i {
                        let k = choose|k: int|
                            0 <= k < groups@.len() && (#[trigger] groups@[k]).0@ == tagv;
                        assert(self.poi@[j].region_code@ == groups@[k].0@);
                    } else {
                        let k0 = choose|k: int|
                            0 <= k < before.len() && (#[trigger] self.poi@[j]).region_code@ == (
                            #[trigger] before[k]).0@;
                        assert(groups@[k0].0@ == before[k0].0@);
                        assert(self.poi@[j].region_code@ == groups@[k0].0@);
                    }
                }
                assert(region_groups_wf(groups@, self.poi@, i as int + 1));
            }
            i = i + 1;
        }
        proof {
            assert(self.poi@.subrange(0, n as int) =~= self.poi@);
        }
        groups
    }

    /// Removes every row whose region code is in the given list: what
    /// stays is, field for field, exactly the rows with unlisted codes in
    /// table order, and `removed` is the rest.
    pub fn delete_poi_by_region_codes(&mut self, codes: &Vec<String>) -> (removed: usize)
        ensures
            final(self).poi@.len() == without_codes(
                old(self).poi@,
                crate::regions::code_views(codes@),
            ).len(),
            forall|k: int|
                #![trigger final(self).poi@[k]]
                0 <= k < final(self).poi@.len() ==> row_fields_eq(
                    final(self).poi@[k],
                    without_codes(old(self).poi@, crate::regions::code_views(codes@))[k],
                ),
            final(self).poi@.len() + removed == old(self).poi@.len(),
            final(self).api_keys@ == old(self).api_keys@,
            final(self).next_poi_id == old(self).next_poi_id,
            final(self).next_key_id == old(self).next_key_id,
            old(self).wf() ==> final(self).wf(),
    {
        let ghost cv = crate::regions::code_views(codes@);
        let n = self.poi.len();
        let mut kept: Vec<PoiRow> = Vec::new();
        let mut removed: usize = 0;
        let mut i: usize = 0;
        while i < n
            invariant
                cv == crate::regions::code_views(codes@),
                n == self.poi@.len(),
                self.poi@ == old(self).poi@,
                self.api_keys@ == old(self).api_keys@,
                i <= n,
                kept@.len() + removed == i,
                kept@.len() == without_codes(self.poi@.subrange(0, i as int), cv).len(),
                forall|k: int|
                    #![trigger kept@[k]]
                    0 <= k < kept@.len() ==> row_fields_eq(
                        kept@[k],
                        without_codes(self.poi@.subrange(0, i as int), cv)[k],
                    ),
            decreases n - i,
        {
            proof {
                lemma_without_codes_step(self.poi@, i as int, cv);
            }
            let mut in_list = false;
            let mut c: usize = 0;
            while c < codes.len()
                invariant
                    cv == crate::regions::code_views(codes@),
                    n == self.poi@.len(),
                    i < n,
                    c <= codes@.len(),
                    in_list ==> code_listed(self.poi@[i as int].region_code@, cv),
                    !in_list ==> forall|k: int|
                        0 <= k < c ==> cv[k] != self.poi@[i as int].region_code@,
                decreases codes@.len() - c,
            {
                let same = bytes_eq(
                    self.poi[i].region_code.as_str().as_bytes(),
                    codes[c].as_str().as_bytes(),
                );
                proof {
                    crate::text::lemma_utf8_view_eq(
                        self.poi@[i as int].region_code@,
                        codes@[c as int]@,
                    );
                }
                if same {
                    assert(cv[c as int] == self.poi@[i as int].region_code@);
                    in_list = true;
                }
                c = c + 1;
            }
            proof {
                if !in_list {
                    assert(!code_listed(self.poi@[i as int].region_code@, cv));
                }
            }
            if in_list {
                removed = removed + 1;
            } else {
                let ghost prev = kept@;
                let ghost wc1 = without_codes(self.poi@.subrange(0, i as int + 1), cv);
                let row = &self.poi[i];
                kept.push(
                    PoiRow {
                        id: row.id,
                        name: row.name.clone(),
                        lon_e7: row.lon_e7,
                        lat_e7: row.lat_e7,
                        original_lon_e7: row.original_lon_e7,
                        original_lat_e7: row.original_lat_e7,
                        category: row.category.clone(),
                        category_id: row.category_id.clone(),
                        address: row.address.clone(),
                        phone: row.phone.clone(),
                        platform: row.platform.clone(),
                        region_code: row.region_code.clone(),
                        raw_data: row.raw_data.clone(),
                    },
                );
                proof {
                    assert forall|k: int| #![trigger kept@[k]] 0 <= k < kept@.len() implies
                        row_fields_eq(kept@[k], wc1[k]) by {
                        if k < prev.len() {
                            assert(kept@[k] == prev[k]);
                            assert(wc1[k] == without_codes(
                                self.poi@.subrange(0, i as int),
                                cv,
                            )[k]);
                        } else {
                            assert(wc1[k] == self.poi@[i as int]);
                            assert(row_fields_eq(kept@[k], self.poi@[i as int]));
                        }
                    }
                }
            }
            i = i + 1;
        }
        self.poi = kept;
        proof {
            assert(old(self).poi@.subrange(0, n as int) =~= old(self).poi@);
            assert forall|k: int| #![trigger self.poi@[k]] 0 <= k < self.poi@.len() implies
                row_fields_eq(self.poi@[k], without_codes(old(self).poi@, cv)[k]) by {
                assert(self.poi@[k] == kept@[k]);
            }
            if old(self).wf() {
                lemma_without_codes_pairwise(old(self).poi@, cv);
                let wc = without_codes(old(self).poi@, cv);
                assert forall|a: int, b2: int| 0 <= a < b2 < self.poi@.len() implies
                    !same_poi_key(#[trigger] self.poi@[a], #[trigger] self.poi@[b2]) && (
                self.poi@[a]).id < (self.poi@[b2]).id by {
                    assert(row_fields_eq(self.poi@[a], wc[a]));
                    assert(row_fields_eq(self.poi@[b2], wc[b2]));
                    assert(!same_poi_key(wc[a], wc[b2]));
                    assert(wc[a].id < wc[b2].id);
                }
                assert forall|a: int| 0 <= a < self.poi@.len() implies (
                #[trigger] self.poi@[a]).id < self.next_poi_id by {
                    assert(row_fields_eq(self.poi@[a], wc[a]));
                    let i = choose|i: int|
                        0 <= i < old(self).poi@.len() && #[trigger] old(self).poi@[i] == wc[a];
                    assert(old(self).poi@[i].id < old(self).next_poi_id);
                }
            }
        }
        removed
    }

    /// Empties the record table; reports how many rows it held.
    pub fn clear_all_poi(&mut self) -> (removed: usize)
        ensures
            final(self).poi@.len() == 0,
            removed == old(self).poi@.len(),
            final(self).api_keys@ == old(self).api_keys@,
            old(self).wf() ==> final(self).wf(),
    {
        let removed = self.poi.len();
        self.poi = Vec::new();
        removed
    }
}

/// Whether the backfill changes a row: it was uncoded and its address
/// names one of the known places.
pub open spec fn row_backfilled(r: PoiRow) -> bool {
    r.region_code@.len() == 0 && fixed_region_code(r).len() != 0
}

/// How many rows the backfill changes.
pub open spec fn count_backfilled(rows: Seq<PoiRow>) -> nat
    decreases rows.len(),
{
    if rows.len() == 0 {
        0
    } else {
        count_backfilled(rows.drop_last()) + if row_backfilled(rows.last()) {
            1nat
        } else {
            0nat
        }
    }
}

/// How many rows stay uncoded after the backfill.
pub open spec fn count_uncoded_after(rows: Seq<PoiRow>) -> nat
    decreases rows.len(),
{
    if rows.len() == 0 {
        0
    } else {
        count_uncoded_after(rows.drop_last()) + if fixed_region_code(rows.last()).len() == 0 {
            1nat
        } else {
            0nat
        }
    }
}

/// One more row adjusts the backfill counts by that row alone.
proof fn lemma_backfill_counts_step(rows: Seq<PoiRow>, k: int)
    requires
        0 <= k < rows.len(),
    ensures
        count_backfilled(rows.subrange(0, k + 1)) == count_backfilled(rows.subrange(0, k))
            + if row_backfilled(rows[k]) {
            1nat
        } else {
            0nat
        },
        count_uncoded_after(rows.subrange(0, k + 1)) == count_uncoded_after(
            rows.subrange(0, k),
        ) + if fixed_region_code(rows[k]).len() == 0 {
            1nat
        } else {
            0nat
        },
{
    assert(rows.subrange(0, k + 1).drop_last() =~= rows.subrange(0, k));
    assert(rows.subrange(0, k + 1).last() == rows[k]);
}

/// The region code the backfill leaves on a row: an uncoded row gains the
/// code of the first place name found in its address; a coded row keeps
/// its code.
pub open spec fn fixed_region_code(r: PoiRow) -> Seq<char> {
    if r.region_code@.len() != 0 {
        r.region_code@
    } else if contains_bytes(
        vstd::utf8::encode_utf8(r.address@),
        vstd::utf8::encode_utf8("射阳"@),
    ) {
        "320924"@
    } else if contains_bytes(
        vstd::utf8::encode_utf8(r.address@),
        vstd::utf8::encode_utf8("阜宁"@),
    ) {
        "320923"@
    } else if contains_bytes(
        vstd::utf8::encode_utf8(r.address@),
        vstd::utf8::encode_utf8("盐城"@),
    ) {
        "320900"@
    } else {
        r.region_code@
    }
}

/// Whether the backfill output row corresponds to an input row: everything
/// but the region code is kept, and the code is the backfilled one.
pub open spec fn fixed_row_matches(after: PoiRow, before: PoiRow) -> bool {
    &&& after.id == before.id
    &&& after.name == before.name
    &&& after.lon_e7 == before.lon_e7
    &&& after.lat_e7 == before.lat_e7
    &&& after.original_lon_e7 == before.original_lon_e7
    &&& after.original_lat_e7 == before.original_lat_e7
    &&& after.category == before.category
    &&& after.category_id == before.category_id
    &&& after.address == before.address
    &&& after.phone == before.phone
    &&& after.platform == before.platform
    &&& after.raw_data == before.raw_data
    &&& after.region_code@ == fixed_region_code(before)
}

/// The backfill changes region codes only, so keys, identifiers and their
/// order are kept.
proof fn lemma_same_key_fixed(before: Seq<PoiRow>, after: Seq<PoiRow>)
    requires
        before.len() == after.len(),
        forall|j: int|
            #![trigger after[j]]
            0 <= j < before.len() ==> fixed_row_matches(after[j], before[j]),
    ensures
        (forall|i: int, j: int|
            0 <= i < j < before.len() ==> !same_poi_key(
                #[trigger] before[i],
                #[trigger] before[j],
            )) ==> (forall|i: int, j: int|
            0 <= i < j < after.len() ==> !same_poi_key(#[trigger] after[i], #[trigger] after[j])),
        forall|j: int| 0 <= j < before.len() ==> (#[trigger] after[j]).id == before[j].id,
{
    assert forall|j: int| 0 <= j < before.len() implies (#[trigger] after[j]).platform
        == before[j].platform && after[j].name == before[j].name && after[j].lon_e7
        == before[j].lon_e7 && after[j].lat_e7 == before[j].lat_e7 && after[j].id == before[
        j].id by {}
}

} // verus!
