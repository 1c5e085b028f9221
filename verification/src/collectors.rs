//! POI provider adapters.
//!
//! The host performs the HTTP round trip and JSON field extraction; each
//! adapter here owns the protocol decisions: request parameters, success
//! and quota classification, paging, the region post-filter, and record
//! assembly.  Every record an adapter returns lies inside the configured
//! region bounds and carries a non-blank name.

use vstd::prelude::*;
use crate::text::{
    bytes_eq,
    contains_bytes,
    trim_bytes,
    trim_ascii,
    utf8_to_string,
    u64_to_string,
    e7_to_string,
    e7_rep,
    ascii_view,
};

verus! {

use vstd::string::StringSliceAdditionalSpecFns;
use vstd::utf8::{encode_utf8, decode_utf8, valid_utf8, encode_utf8_decode_utf8};

/// A region's bounding box in fixed-point degrees.
#[derive(Debug, Clone, Copy, PartialEq, Eq, Structural)]
pub struct Bounds {
    pub min_lon_e7: i64,
    pub max_lon_e7: i64,
    pub min_lat_e7: i64,
    pub max_lat_e7: i64,
}

/// Whether a point lies inside a region box.
pub open spec fn in_bounds_spec(lon_e7: i64, lat_e7: i64, b: Bounds) -> bool {
    b.min_lon_e7 <= lon_e7 <= b.max_lon_e7 && b.min_lat_e7 <= lat_e7 <= b.max_lat_e7
}

/// Region box test.
pub fn in_bounds(lon_e7: i64, lat_e7: i64, b: &Bounds) -> (r: bool)
    ensures
        r == in_bounds_spec(lon_e7, lat_e7, *b),
{
    b.min_lon_e7 <= lon_e7 && lon_e7 <= b.max_lon_e7 && b.min_lat_e7 <= lat_e7 && lat_e7
        <= b.max_lat_e7
}

/// The country-wide box two providers are given when the provider's own
/// name filter is relied on: the box is deliberately loose and records are
/// accepted anywhere the provider says they belong.
pub fn country_wide_bounds() -> (r: Bounds)
    ensures
        r == (Bounds {
            min_lon_e7: 730000000,
            max_lon_e7: 1350000000,
            min_lat_e7: 180000000,
            max_lat_e7: 540000000,
        }),
{
    Bounds {
        min_lon_e7: 730000000,
        max_lon_e7: 1350000000,
        min_lat_e7: 180000000,
        max_lat_e7: 540000000,
    }
}

/// The region a collector works.
#[derive(Debug, Clone)]
pub struct RegionConfig {
    pub name: String,
    pub admin_code: String,
    pub city_code: String,
    pub bounds: Bounds,
}

/// One collected point of interest, with both the stored global-datum
/// coordinate and the provider's original pair.
#[derive(Debug, Clone)]
pub struct POIData {
    pub name: String,
    pub lon_e7: i64,
    pub lat_e7: i64,
    pub original_lon_e7: i64,
    pub original_lat_e7: i64,
    pub category: String,
    pub category_id: String,
    pub address: String,
    pub phone: String,
    pub platform: String,
    pub raw_data: String,
}

/// A provider response item after field extraction and datum conversion,
/// before the adapter's own filtering.
#[derive(Debug, Clone)]
pub struct CandidatePoi {
    pub name: String,
    pub wgs_lon_e7: i64,
    pub wgs_lat_e7: i64,
    pub original_lon_e7: i64,
    pub original_lat_e7: i64,
    pub address: String,
    pub phone: String,
    pub raw_data: String,
}

/// Why a search failed.
#[derive(Debug, Clone, PartialEq, Eq)]
pub enum SearchError {
    Network(String),
    Decode(String),
    Quota(String),
    RateLimited(String),
    Other(String),
}

/// The name as it would be stored: trimmed of ASCII whitespace.
pub open spec fn stored_name_bytes(c: CandidatePoi) -> Seq<u8> {
    trim_bytes(encode_utf8(c.name@))
}

/// Whether an extracted item survives the adapter's filter: original
/// coordinates not both-axes-zero where that rule applies, global
/// coordinate inside the region box, and a usable non-empty name.
pub open spec fn candidate_kept(c: CandidatePoi, b: Bounds, reject_zero: bool) -> bool {
    &&& (!reject_zero || (c.original_lon_e7 != 0 && c.original_lat_e7 != 0))
    &&& in_bounds_spec(c.wgs_lon_e7, c.wgs_lat_e7, b)
    &&& stored_name_bytes(c).len() > 0
    &&& valid_utf8(stored_name_bytes(c))
}

/// How many items survive the filter.
pub open spec fn count_kept(items: Seq<CandidatePoi>, b: Bounds, reject_zero: bool) -> nat
    decreases items.len(),
{
    if items.len() == 0 {
        0
    } else {
        count_kept(items.drop_last(), b, reject_zero) + if candidate_kept(
            items.last(),
            b,
            reject_zero,
        ) {
            1nat
        } else {
            0nat
        }
    }
}

/// One more item adjusts the kept count by that item alone.
proof fn lemma_count_kept_step(items: Seq<CandidatePoi>, k: int, b: Bounds, rz: bool)
    requires
        0 <= k < items.len(),
    ensures
        count_kept(items.subrange(0, k + 1), b, rz) == count_kept(items.subrange(0, k), b, rz)
            + if candidate_kept(items[k], b, rz) {
            1nat
        } else {
            0nat
        },
{
    assert(items.subrange(0, k + 1).drop_last() =~= items.subrange(0, k));
    assert(items.subrange(0, k + 1).last() == items[k]);
}

/// The record the adapter builds from a kept item.
pub open spec fn poi_matches(
    p: POIData,
    c: CandidatePoi,
    platform: Seq<char>,
    cat: Seq<char>,
    cid: Seq<char>,
) -> bool {
    &&& p.name@ == decode_utf8(stored_name_bytes(c))
    &&& p.lon_e7 == c.wgs_lon_e7
    &&& p.lat_e7 == c.wgs_lat_e7
    &&& p.original_lon_e7 == c.original_lon_e7
    &&& p.original_lat_e7 == c.original_lat_e7
    &&& p.category@ == cat
    &&& p.category_id@ == cid
    &&& p.address@ == c.address@
    &&& p.phone@ == c.phone@
    &&& p.platform@ == platform
    &&& p.raw_data@ == c.raw_data@
}

/// What holds of an adapter's output: exactly the surviving items, each
/// inside the region box, each carrying a non-empty name and the platform
/// and category tags.
pub open spec fn good_records(
    records: Seq<POIData>,
    items: Seq<CandidatePoi>,
    b: Bounds,
    reject_zero: bool,
    platform: Seq<char>,
    cat: Seq<char>,
    cid: Seq<char>,
) -> bool {
    &&& records.len() == count_kept(items, b, reject_zero)
    &&& forall|k: int|
        #![trigger records[k]]
        0 <= k < records.len() ==> {
            &&& in_bounds_spec(records[k].lon_e7, records[k].lat_e7, b)
            &&& records[k].name@.len() > 0
            &&& records[k].platform@ == platform
            &&& exists|i: int|
                0 <= i < items.len() && candidate_kept(#[trigger] items[i], b, reject_zero)
                    && poi_matches(records[k], items[i], platform, cat, cid)
        }
}

/// Runs the shared post-filter over extracted items and builds the records
/// to store.
pub fn collect_candidates(
    items: &Vec<CandidatePoi>,
    b: &Bounds,
    reject_zero: bool,
    platform: &str,
    cat: &str,
    cid: &str,
) -> (r: Vec<POIData>)
    ensures
        good_records(r@, items@, *b, reject_zero, platform@, cat@, cid@),
{
    let mut r: Vec<POIData> = Vec::new();
    let n = items.len();
    let mut i: usize = 0;
    while i < n
        invariant
            n == items@.len(),
            i <= n,
            r@.len() == count_kept(items@.subrange(0, i as int), *b, reject_zero),
            forall|k: int|
                #![trigger r@[k]]
                0 <= k < r@.len() ==> {
                    &&& in_bounds_spec(r@[k].lon_e7, r@[k].lat_e7, *b)
                    &&& r@[k].name@.len() > 0
                    &&& r@[k].platform@ == platform@
                    &&& exists|j: int|
                        0 <= j < items@.len() && candidate_kept(
                            #[trigger] items@[j],
                            *b,
                            reject_zero,
                        ) && poi_matches(r@[k], items@[j], platform@, cat@, cid@)
                },
        decreases n - i,
    {
        proof {
            lemma_count_kept_step(items@, i as int, *b, reject_zero);
        }
        let item = &items[i];
        let zero_ok = !reject_zero || (item.original_lon_e7 != 0 && item.original_lat_e7 != 0);
        let inside = in_bounds(item.wgs_lon_e7, item.wgs_lat_e7, b);
        if zero_ok && inside {
            let trimmed = trim_ascii(item.name.as_str().as_bytes());
            if trimmed.len() > 0 {
                match utf8_to_string(trimmed) {
                    Some(nm) => {
                        proof {
                            encode_utf8_decode_utf8(nm@);
                            assert(candidate_kept(items@[i as int], *b, reject_zero));
                            if encode_utf8(nm@).len() == 0 {
                                assert(nm@.len() == 0);
                            }
                        }
                        let ghost prev = r@;
                        let rec = POIData {
                            name: nm,
                            lon_e7: item.wgs_lon_e7,
                            lat_e7: item.wgs_lat_e7,
                            original_lon_e7: item.original_lon_e7,
                            original_lat_e7: item.original_lat_e7,
                            category: cat.to_owned(),
                            category_id: cid.to_owned(),
                            address: item.address.clone(),
                            phone: item.phone.clone(),
                            platform: platform.to_owned(),
                            raw_data: item.raw_data.clone(),
                        };
                        r.push(rec);
                        assert forall|k: int| #![trigger r@[k]] 0 <= k < r@.len() implies {
                            &&& in_bounds_spec(r@[k].lon_e7, r@[k].lat_e7, *b)
                            &&& r@[k].name@.len() > 0
                            &&& r@[k].platform@ == platform@
                            &&& exists|j: int|
                                0 <= j < items@.len() && candidate_kept(
                                    #[trigger] items@[j],
                                    *b,
                                    reject_zero,
                                ) && poi_matches(r@[k], items@[j], platform@, cat@, cid@)
                        } by {
                            if k < prev.len() {
                                assert(r@[k] == prev[k]);
                            } else {
                                assert(candidate_kept(items@[i as int], *b, reject_zero)
                                    && poi_matches(
                                    r@[k],
                                    items@[i as int],
                                    platform@,
                                    cat@,
                                    cid@,
                                ));
                            }
                        }
                    },
                    None => {
                        assert(!candidate_kept(items@[i as int], *b, reject_zero));
                    },
                }
            } else {
                assert(!candidate_kept(items@[i as int], *b, reject_zero));
            }
        } else {
            assert(!candidate_kept(items@[i as int], *b, reject_zero));
        }
        i = i + 1;
    }
    proof {
        assert(items@.subrange(0, n as int) =~= items@);
    }
    r
}

/// JSON string escaping, byte-wise: quotes and backslashes get a backslash.
/// Both bytes only ever occur as whole characters in UTF-8, so this equals
/// character-level escaping.
pub open spec fn json_escaped(s: Seq<u8>) -> Seq<u8>
    decreases s.len(),
{
    if s.len() == 0 {
        Seq::empty()
    } else {
        json_escaped(s.drop_last()) + if s.last() == 34 {
            seq![92u8, 34u8]
        } else if s.last() == 92 {
            seq![92u8, 92u8]
        } else {
            seq![s.last()]
        }
    }
}

/// Escapes a byte string for embedding in a JSON literal.
pub fn json_escape(b: &[u8]) -> (r: Vec<u8>)
    ensures
        r@ == json_escaped(b@),
{
    let mut r: Vec<u8> = Vec::new();
    let mut i: usize = 0;
    while i < b.len()
        invariant
            i <= b@.len(),
            r@ == json_escaped(b@.subrange(0, i as int)),
        decreases b@.len() - i,
    {
        proof {
            assert(b@.subrange(0, i as int + 1).drop_last() =~= b@.subrange(0, i as int));
            assert(b@.subrange(0, i as int + 1).last() == b@[i as int]);
        }
        let c = b[i];
        if c == 34 {
            r.push(92);
            r.push(34);
        } else if c == 92 {
            r.push(92);
            r.push(92);
        } else {
            r.push(c);
        }
        assert(r@ =~= json_escaped(b@.subrange(0, i as int + 1)));
        i = i + 1;
    }
    proof {
        assert(b@.subrange(0, b@.len() as int) =~= b@);
    }
    r
}

/// The provider sends page contents and a total; more pages exist while the
/// pages seen so far cover less than the total and the last page was full.
pub open spec fn paged_has_more(page: u64, page_size: u64, total: i64, fetched: usize) -> bool {
    &&& total > 0
    &&& page * page_size < total
    &&& fetched >= page_size
}

/// Paging test, free of overflow for any page number.
pub fn has_more_pages(page: u64, page_size: u64, total: i64, fetched: usize) -> (r: bool)
    ensures
        r == paged_has_more(page, page_size, total, fetched),
{
    if total <= 0 {
        false
    } else {
        proof {
            vstd::arithmetic::mul::lemma_mul_upper_bound(
                page as int,
                0xFFFFFFFFFFFFFFFF,
                page_size as int,
                0xFFFFFFFFFFFFFFFF,
            );
        }
        let seen: u128 = (page as u128) * (page_size as u128);
        seen < (total as u128) && (fetched as u128) >= (page_size as u128)
    }
}

/// The HTTP-level throttle reply, which every provider treats as a
/// rate-limit failure.
pub fn classify_http_status(code: u16) -> (r: Option<SearchError>)
    ensures
        code == 429 ==> r matches Some(SearchError::RateLimited(_)),
        code != 429 ==> r is None,
{
    if code == 429 {
        Some(SearchError::RateLimited("too many requests (429)".to_owned()))
    } else {
        None
    }
}

/// Collector for the first national private provider.
#[derive(Debug, Clone)]
pub struct AmapCollector {
    pub api_key: String,
    pub region: Option<RegionConfig>,
}

/// The quota codes of the first private provider, given as strings.
pub open spec fn amap_quota_spec(status: Seq<u8>, infocode: Seq<u8>) -> bool {
    &&& status == "0".spec_bytes()
    &&& {
        ||| infocode == "10003".spec_bytes()
        ||| infocode == "10004".spec_bytes()
        ||| infocode == "10005".spec_bytes()
        ||| infocode == "10009".spec_bytes()
        ||| infocode == "10044".spec_bytes()
    }
}

impl AmapCollector {
    /// A collector holding its key, with no region yet.
    pub fn new(api_key: String) -> (r: AmapCollector)
        ensures
            r.api_key == api_key,
            r.region is None,
    {
        AmapCollector { api_key, region: None }
    }

    /// The platform tag of this collector.
    pub fn platform(&self) -> (r: &'static str)
        ensures
            r@ == "amap"@,
    {
        "amap"
    }

    /// Replaces the key.
    pub fn set_api_key(&mut self, key: String)
        ensures
            final(self).api_key == key,
            final(self).region == old(self).region,
    {
        self.api_key = key;
    }

    /// Sets the region whose box filters every record.
    pub fn set_region(&mut self, region: RegionConfig)
        ensures
            final(self).region == Some(region),
            final(self).api_key == old(self).api_key,
    {
        self.region = Some(region);
    }

    /// Whether a response spells quota exhaustion.
    pub fn is_quota_error(&self, status: &str, infocode: &str) -> (r: bool)
        ensures
            r == amap_quota_spec(status.spec_bytes(), infocode.spec_bytes()),
    {
        bytes_eq(status.as_bytes(), "0".as_bytes()) && (bytes_eq(
            infocode.as_bytes(),
            "10003".as_bytes(),
        ) || bytes_eq(infocode.as_bytes(), "10004".as_bytes()) || bytes_eq(
            infocode.as_bytes(),
            "10005".as_bytes(),
        ) || bytes_eq(infocode.as_bytes(), "10009".as_bytes()) || bytes_eq(
            infocode.as_bytes(),
            "10044".as_bytes(),
        ))
    }

    /// The query parameters of one search request.
    pub fn search_params(&self, keyword: &str, page: u64) -> (r: Result<
        Vec<(String, String)>,
        SearchError,
    >)
        ensures
            self.region is None <==> r is Err,
            r matches Ok(ps) ==> {
                &&& ps@.len() == 7
                &&& ps@[0].0@ == "key"@ && ps@[0].1@ == self.api_key@
                &&& ps@[1].0@ == "keywords"@ && ps@[1].1@ == keyword@
                &&& ps@[2].0@ == "city"@ && ps@[2].1@ == (self.region->0).city_code@
                &&& ps@[3].0@ == "citylimit"@ && ps@[3].1@ == "true"@
                &&& ps@[4].0@ == "offset"@ && ps@[4].1@ == "25"@
                &&& ps@[5].0@ == "page"@ && ps@[5].1@ == ascii_view(
                    crate::text::dec_rep(page as nat),
                )
                &&& ps@[6].0@ == "extensions"@ && ps@[6].1@ == "all"@
            },
    {
        let region = match &self.region {
            Some(r) => r,
            None => {
                return Err(SearchError::Other("no region configured".to_owned()));
            },
        };
        let mut ps: Vec<(String, String)> = Vec::new();
        ps.push(("key".to_owned(), self.api_key.clone()));
        ps.push(("keywords".to_owned(), keyword.to_owned()));
        ps.push(("city".to_owned(), region.city_code.clone()));
        ps.push(("citylimit".to_owned(), "true".to_owned()));
        ps.push(("offset".to_owned(), "25".to_owned()));
        ps.push(("page".to_owned(), u64_to_string(page)));
        ps.push(("extensions".to_owned(), "all".to_owned()));
        Ok(ps)
    }

    /// Decides a decoded search response: quota errors are fatal, any other
    /// non-success ends the keyword quietly, and a success yields the
    /// filtered records plus whether another page is worth requesting.
    pub fn handle_response(
        &self,
        status: &str,
        infocode: &str,
        count: i64,
        items: &Vec<CandidatePoi>,
        fetched: usize,
        page: u64,
    ) -> (r: Result<(Vec<POIData>, bool), SearchError>)
        ensures
            self.region is None ==> r matches Err(SearchError::Other(_)),
            self.region is Some && status.spec_bytes() != "1".spec_bytes() && amap_quota_spec(
                status.spec_bytes(),
                infocode.spec_bytes(),
            ) ==> (r matches Err(SearchError::Quota(m)) && m@ == "API quota exhausted"@),
            self.region is Some && status.spec_bytes() != "1".spec_bytes() && !amap_quota_spec(
                status.spec_bytes(),
                infocode.spec_bytes(),
            ) ==> (r matches Ok(p) && p.0@.len() == 0 && p.1 == false),
            self.region is Some && status.spec_bytes() == "1".spec_bytes() ==> (r matches Ok(p)
                && good_records(
                p.0@,
                items@,
                (self.region->0).bounds,
                false,
                "amap"@,
                ""@,
                ""@,
            ) && p.1 == paged_has_more(page, 25, count, fetched)),
    {
        let region = match &self.region {
            Some(r) => r,
            None => {
                return Err(SearchError::Other("no region configured".to_owned()));
            },
        };
        if !bytes_eq(status.as_bytes(), "1".as_bytes()) {
            if self.is_quota_error(status, infocode) {
                return Err(SearchError::Quota("API quota exhausted".to_owned()));
            }
            return Ok((Vec::new(), false));
        }
        let records = collect_candidates(items, &region.bounds, false, "amap", "", "");
        let more = has_more_pages(page, 25, count, fetched);
        Ok((records, more))
    }
}

/// Collector for the second national private provider.
#[derive(Debug, Clone)]
pub struct BaiduCollector {
    pub api_key: String,
    pub region: Option<RegionConfig>,
}

/// The quota codes of the second private provider, as integer statuses.
pub open spec fn baidu_quota_spec(status: i64) -> bool {
    status == 302 || status == 401 || status == 402 || status == 4
}

impl BaiduCollector {
    /// A collector holding its key, with no region yet.
    pub fn new(api_key: String) -> (r: BaiduCollector)
        ensures
            r.api_key == api_key,
            r.region is None,
    {
        BaiduCollector { api_key, region: None }
    }

    /// The platform tag of this collector.
    pub fn platform(&self) -> (r: &'static str)
        ensures
            r@ == "baidu"@,
    {
        "baidu"
    }

    /// Replaces the key.
    pub fn set_api_key(&mut self, key: String)
        ensures
            final(self).api_key == key,
            final(self).region == old(self).region,
    {
        self.api_key = key;
    }

    /// Sets the region whose box filters every record.
    pub fn set_region(&mut self, region: RegionConfig)
        ensures
            final(self).region == Some(region),
            final(self).api_key == old(self).api_key,
    {
        self.region = Some(region);
    }

    /// Whether a status spells quota exhaustion.
    pub fn is_quota_error(&self, status: i64) -> (r: bool)
        ensures
            r == baidu_quota_spec(status),
    {
        status == 302 || status == 401 || status == 402 || status == 4
    }

    /// The query parameters of one search request.
    pub fn search_params(&self, keyword: &str, page: u64) -> (r: Result<
        Vec<(String, String)>,
        SearchError,
    >)
        requires
            page >= 1,
        ensures
            self.region is None <==> r is Err,
            r matches Ok(ps) ==> {
                &&& ps@.len() == 8
                &&& ps@[0].0@ == "ak"@ && ps@[0].1@ == self.api_key@
                &&& ps@[1].0@ == "query"@ && ps@[1].1@ == keyword@
                &&& ps@[2].0@ == "region"@ && ps@[2].1@ == (self.region->0).name@
                &&& ps@[3].0@ == "city_limit"@ && ps@[3].1@ == "true"@
                &&& ps@[4].0@ == "output"@ && ps@[4].1@ == "json"@
                &&& ps@[5].0@ == "page_size"@ && ps@[5].1@ == "20"@
                &&& ps@[6].0@ == "page_num"@ && ps@[6].1@ == ascii_view(
                    crate::text::dec_rep((page - 1) as nat),
                )
                &&& ps@[7].0@ == "scope"@ && ps@[7].1@ == "2"@
            },
    {
        let region = match &self.region {
            Some(r) => r,
            None => {
                return Err(SearchError::Other("no region configured".to_owned()));
            },
        };
        let mut ps: Vec<(String, String)> = Vec::new();
        ps.push(("ak".to_owned(), self.api_key.clone()));
        ps.push(("query".to_owned(), keyword.to_owned()));
        ps.push(("region".to_owned(), region.name.clone()));
        ps.push(("city_limit".to_owned(), "true".to_owned()));
        ps.push(("output".to_owned(), "json".to_owned()));
        ps.push(("page_size".to_owned(), "20".to_owned()));
        ps.push(("page_num".to_owned(), u64_to_string(page - 1)));
        ps.push(("scope".to_owned(), "2".to_owned()));
        Ok(ps)
    }

    /// Decides a decoded search response.  Items whose original coordinate
    /// is zero on either axis are rejected before any other filter.
    pub fn handle_response(
        &self,
        status: i64,
        total: i64,
        items: &Vec<CandidatePoi>,
        fetched: usize,
        page: u64,
    ) -> (r: Result<(Vec<POIData>, bool), SearchError>)
        ensures
            self.region is None ==> r matches Err(SearchError::Other(_)),
            self.region is Some && status != 0 && baidu_quota_spec(status) ==> (r matches Err(
                SearchError::Quota(m),
            ) && m@ == "API quota exhausted"@),
            self.region is Some && status != 0 && !baidu_quota_spec(status) ==> (r matches Ok(p)
                && p.0@.len() == 0 && p.1 == false),
            self.region is Some && status == 0 ==> (r matches Ok(p) && good_records(
                p.0@,
                items@,
                (self.region->0).bounds,
                true,
                "baidu"@,
                ""@,
                ""@,
            ) && p.1 == paged_has_more(page, 20, total, fetched)),
    {
        let region = match &self.region {
            Some(r) => r,
            None => {
                return Err(SearchError::Other("no region configured".to_owned()));
            },
        };
        if status != 0 {
            if self.is_quota_error(status) {
                return Err(SearchError::Quota("API quota exhausted".to_owned()));
            }
            return Ok((Vec::new(), false));
        }
        let records = collect_candidates(items, &region.bounds, true, "baidu", "", "");
        let more = has_more_pages(page, 20, total, fetched);
        Ok((records, more))
    }
}

/// Collector for the national official provider.
#[derive(Debug, Clone)]
pub struct TianDiTuCollector {
    pub api_key: String,
    pub region: Option<RegionConfig>,
}

/// The quota codes of the official provider.
pub open spec fn tianditu_quota_spec(infocode: i64) -> bool {
    infocode == 10001 || infocode == 10002 || infocode == 10003
}

/// The JSON search body the official provider expects, over escaped bytes.
pub open spec fn tianditu_post_body(
    region_name: Seq<u8>,
    keyword: Seq<u8>,
    b: Bounds,
    start: u64,
) -> Seq<u8> {
    "{\"keyWord\":\"".spec_bytes() + json_escaped(region_name) + " ".spec_bytes()
        + json_escaped(keyword) + "\",\"level\":12,\"mapBound\":\"".spec_bytes() + e7_rep(
        b.min_lon_e7 as int,
    ) + ",".spec_bytes() + e7_rep(b.min_lat_e7 as int) + ",".spec_bytes() + e7_rep(
        b.max_lon_e7 as int,
    ) + ",".spec_bytes() + e7_rep(b.max_lat_e7 as int)
        + "\",\"queryType\":1,\"start\":".spec_bytes() + crate::text::dec_rep(start as nat)
        + ",\"count\":100}".spec_bytes()
}

impl TianDiTuCollector {
    /// A collector holding its key, with no region yet.
    pub fn new(api_key: String) -> (r: TianDiTuCollector)
        ensures
            r.api_key == api_key,
            r.region is None,
    {
        TianDiTuCollector { api_key, region: None }
    }

    /// The platform tag of this collector.
    pub fn platform(&self) -> (r: &'static str)
        ensures
            r@ == "tianditu"@,
    {
        "tianditu"
    }

    /// Replaces the key.
    pub fn set_api_key(&mut self, key: String)
        ensures
            final(self).api_key == key,
            final(self).region == old(self).region,
    {
        self.api_key = key;
    }

    /// Sets the region whose box filters every record.
    pub fn set_region(&mut self, region: RegionConfig)
        ensures
            final(self).region == Some(region),
            final(self).api_key == old(self).api_key,
    {
        self.region = Some(region);
    }

    /// Whether a response code spells quota exhaustion.
    pub fn is_quota_error(&self, infocode: i64) -> (r: bool)
        ensures
            r == tianditu_quota_spec(infocode),
    {
        infocode == 10001 || infocode == 10002 || infocode == 10003
    }

    /// The JSON body of one search request: the keyword prefixed with the
    /// region name, the region box, and the page window.
    pub fn post_body(&self, keyword: &str, page: u64) -> (r: Result<Option<String>, SearchError>)
        requires
            1 <= page <= 1000000000,
        ensures
            self.region is None <==> r is Err,
            r matches Ok(opt) ==> {
                &&& (opt is Some <==> valid_utf8(
                    tianditu_post_body(
                        vstd::utf8::encode_utf8((self.region->0).name@),
                        vstd::utf8::encode_utf8(keyword@),
                        (self.region->0).bounds,
                        ((page - 1) * 100) as u64,
                    ),
                ))
                &&& (opt matches Some(s) ==> encode_utf8(s@) == tianditu_post_body(
                    vstd::utf8::encode_utf8((self.region->0).name@),
                    vstd::utf8::encode_utf8(keyword@),
                    (self.region->0).bounds,
                    ((page - 1) * 100) as u64,
                ))
            },
    {
        let region = match &self.region {
            Some(r) => r,
            None => {
                return Err(SearchError::Other("no region configured".to_owned()));
            },
        };
        let start: u64 = (page - 1) * 100;
        let mut body: Vec<u8> = Vec::new();
        append_bytes(&mut body, "{\"keyWord\":\"".as_bytes());
        let mut piece = json_escape(region.name.as_str().as_bytes());
        body.append(&mut piece);
        append_bytes(&mut body, " ".as_bytes());
        let mut piece = json_escape(keyword.as_bytes());
        body.append(&mut piece);
        append_bytes(&mut body, "\",\"level\":12,\"mapBound\":\"".as_bytes());
        append_e7(&mut body, region.bounds.min_lon_e7);
        append_bytes(&mut body, ",".as_bytes());
        append_e7(&mut body, region.bounds.min_lat_e7);
        append_bytes(&mut body, ",".as_bytes());
        append_e7(&mut body, region.bounds.max_lon_e7);
        append_bytes(&mut body, ",".as_bytes());
        append_e7(&mut body, region.bounds.max_lat_e7);
        append_bytes(&mut body, "\",\"queryType\":1,\"start\":".as_bytes());
        let mut digits: Vec<u8> = Vec::new();
        crate::text::push_dec_u64(&mut digits, start);
        body.append(&mut digits);
        append_bytes(&mut body, ",\"count\":100}".as_bytes());
        assert(body@ =~= tianditu_post_body(
            vstd::utf8::encode_utf8(region.name@),
            vstd::utf8::encode_utf8(keyword@),
            region.bounds,
            start,
        ));
        Ok(utf8_to_string(body))
    }

    /// The query parameters wrapping the body.
    pub fn search_params(&self, post_str: String) -> (r: Vec<(String, String)>)
        ensures
            r@.len() == 3,
            r@[0].0@ == "postStr"@ && r@[0].1 == post_str,
            r@[1].0@ == "type"@ && r@[1].1@ == "query"@,
            r@[2].0@ == "tk"@ && r@[2].1@ == self.api_key@,
    {
        let mut ps: Vec<(String, String)> = Vec::new();
        ps.push(("postStr".to_owned(), post_str));
        ps.push(("type".to_owned(), "query".to_owned()));
        ps.push(("tk".to_owned(), self.api_key.clone()));
        ps
    }

    /// Decides a decoded search response.  The official provider reports
    /// success as code one thousand and pages by full batches of a hundred.
    pub fn handle_response(
        &self,
        infocode: i64,
        items: &Vec<CandidatePoi>,
        fetched: usize,
        category_name: &str,
        category_id: &str,
    ) -> (r: Result<(Vec<POIData>, bool), SearchError>)
        ensures
            self.region is None ==> r matches Err(SearchError::Other(_)),
            self.region is Some && infocode != 1000 && tianditu_quota_spec(infocode)
                ==> (r matches Err(SearchError::Quota(m)) && m@ == "API quota exhausted"@),
            self.region is Some && infocode != 1000 && !tianditu_quota_spec(infocode)
                ==> (r matches Ok(p) && p.0@.len() == 0 && p.1 == false),
            self.region is Some && infocode == 1000 ==> (r matches Ok(p) && good_records(
                p.0@,
                items@,
                (self.region->0).bounds,
                false,
                "tianditu"@,
                category_name@,
                category_id@,
            ) && p.1 == (fetched >= 100)),
    {
        let region = match &self.region {
            Some(r) => r,
            None => {
                return Err(SearchError::Other("no region configured".to_owned()));
            },
        };
        if infocode != 1000 {
            if self.is_quota_error(infocode) {
                return Err(SearchError::Quota("API quota exhausted".to_owned()));
            }
            return Ok((Vec::new(), false));
        }
        let records = collect_candidates(
            items,
            &region.bounds,
            false,
            "tianditu",
            category_name,
            category_id,
        );
        let more = fetched >= 100;
        Ok((records, more))
    }
}

/// One element of an open-geodata query answer: an id, a kind, a
/// coordinate (directly or as a computed centre), and free-form tags.
#[derive(Debug, Clone)]
pub struct OsmElement {
    pub id: i64,
    pub element_type: String,
    /// The element's own coordinate, longitude then latitude.
    pub lonlat: Option<(i64, i64)>,
    /// The centre handed back for extended shapes.
    pub center: Option<(i64, i64)>,
    pub tags: Vec<(String, String)>,
}

/// First value stored under a tag key.
pub open spec fn tag_lookup(tags: Seq<(String, String)>, key: Seq<char>) -> Option<Seq<char>>
    decreases tags.len(),
{
    if tags.len() == 0 {
        None
    } else if tags[0].0@ == key {
        Some(tags[0].1@)
    } else {
        tag_lookup(tags.drop_first(), key)
    }
}

/// Looks a tag up by key.
pub fn tag_get(tags: &Vec<(String, String)>, key: &str) -> (r: Option<String>)
    ensures
        r is Some <==> tag_lookup(tags@, key@) is Some,
        r matches Some(v) ==> tag_lookup(tags@, key@) == Some(v@),
{
    let n = tags.len();
    let mut i: usize = 0;
    assert(tags@.skip(0) =~= tags@);
    while i < n
        invariant
            n == tags@.len(),
            i <= n,
            tag_lookup(tags@, key@) == tag_lookup(tags@.skip(i as int), key@),
        decreases n - i,
    {
        proof {
            assert(tags@.skip(i as int)[0] == tags@[i as int]);
            assert(tags@.skip(i as int).drop_first() =~= tags@.skip(i as int + 1));
        }
        if bytes_eq(tags[i].0.as_str().as_bytes(), key.as_bytes()) {
            proof {
                crate::text::lemma_utf8_view_eq(tags@[i as int].0@, key@);
            }
            return Some(tags[i].1.clone());
        }
        proof {
            crate::text::lemma_utf8_view_eq(tags@[i as int].0@, key@);
        }
        i = i + 1;
    }
    proof {
        assert(tags@.skip(n as int) =~= Seq::<(String, String)>::empty());
    }
    None
}

/// The composite category of an element: the first match among the common
/// class keys, rendered `key=value`; `unknown` when none is set.
pub open spec fn osm_category_spec(tags: Seq<(String, String)>) -> Seq<char> {
    if tag_lookup(tags, "amenity"@) is Some {
        "amenity"@ + "="@ + tag_lookup(tags, "amenity"@)->0
    } else if tag_lookup(tags, "shop"@) is Some {
        "shop"@ + "="@ + tag_lookup(tags, "shop"@)->0
    } else if tag_lookup(tags, "tourism"@) is Some {
        "tourism"@ + "="@ + tag_lookup(tags, "tourism"@)->0
    } else if tag_lookup(tags, "leisure"@) is Some {
        "leisure"@ + "="@ + tag_lookup(tags, "leisure"@)->0
    } else if tag_lookup(tags, "building"@) is Some {
        "building"@ + "="@ + tag_lookup(tags, "building"@)->0
    } else if tag_lookup(tags, "landuse"@) is Some {
        "landuse"@ + "="@ + tag_lookup(tags, "landuse"@)->0
    } else if tag_lookup(tags, "highway"@) is Some {
        "highway"@ + "="@ + tag_lookup(tags, "highway"@)->0
    } else {
        "unknown"@
    }
}

/// Builds the composite category tag.
pub fn get_osm_category(tags: &Vec<(String, String)>) -> (r: String)
    ensures
        r@ == osm_category_spec(tags@),
{
    if let Some(v) = tag_get(tags, "amenity") {
        let mut s = "amenity".to_owned();
        s.append("=");
        s.append(v.as_str());
        return s;
    }
    if let Some(v) = tag_get(tags, "shop") {
        let mut s = "shop".to_owned();
        s.append("=");
        s.append(v.as_str());
        return s;
    }
    if let Some(v) = tag_get(tags, "tourism") {
        let mut s = "tourism".to_owned();
        s.append("=");
        s.append(v.as_str());
        return s;
    }
    if let Some(v) = tag_get(tags, "leisure") {
        let mut s = "leisure".to_owned();
        s.append("=");
        s.append(v.as_str());
        return s;
    }
    if let Some(v) = tag_get(tags, "building") {
        let mut s = "building".to_owned();
        s.append("=");
        s.append(v.as_str());
        return s;
    }
    if let Some(v) = tag_get(tags, "landuse") {
        let mut s = "landuse".to_owned();
        s.append("=");
        s.append(v.as_str());
        return s;
    }
    if let Some(v) = tag_get(tags, "highway") {
        let mut s = "highway".to_owned();
        s.append("=");
        s.append(v.as_str());
        return s;
    }
    "unknown".to_owned()
}

/// The street fragment of an address: street name plus house number when
/// both are tagged, the street alone otherwise, nothing without a street.
pub open spec fn street_part_spec(tags: Seq<(String, String)>) -> Seq<char> {
    match tag_lookup(tags, "addr:street"@) {
        Some(st) => match tag_lookup(tags, "addr:housenumber"@) {
            Some(h) => st + h,
            None => st,
        },
        None => Seq::empty(),
    }
}

/// The address of an element: the region name, the street fragment, and
/// the full tagged address unless it already repeats one of the parts.
pub open spec fn address_spec(tags: Seq<(String, String)>, region: Seq<char>) -> Seq<char> {
    let base = region + street_part_spec(tags);
    match tag_lookup(tags, "addr:full"@) {
        Some(f) => {
            if contains_bytes(encode_utf8(f), encode_utf8(region)) || (tag_lookup(
                tags,
                "addr:street"@,
            ) is Some && contains_bytes(encode_utf8(f), encode_utf8(street_part_spec(tags)))) {
                base
            } else {
                base + f
            }
        },
        None => base,
    }
}

/// Builds the address of an element.
pub fn build_address(tags: &Vec<(String, String)>, region_name: &str) -> (r: String)
    ensures
        r@ == address_spec(tags@, region_name@),
{
    let mut s = region_name.to_owned();
    let mut street_part = String::new();
    let mut have_street = false;
    if let Some(st) = tag_get(tags, "addr:street") {
        have_street = true;
        street_part.append(st.as_str());
        if let Some(h) = tag_get(tags, "addr:housenumber") {
            street_part.append(h.as_str());
        }
        s.append(street_part.as_str());
    }
    assert(street_part@ == street_part_spec(tags@));
    assert(s@ == region_name@ + street_part_spec(tags@));
    if let Some(f) = tag_get(tags, "addr:full") {
        let dup = crate::text::str_contains_str(f.as_str(), region_name) || (have_street
            && crate::text::str_contains_str(f.as_str(), street_part.as_str()));
        if !dup {
            s.append(f.as_str());
        }
    }
    s
}

/// Collector for the open provider: no key, no quota, no paging.
#[derive(Debug, Clone)]
pub struct OsmCollector {
    pub region: Option<RegionConfig>,
}

/// The coordinate an element contributes: its own, or the centre of its
/// shape.
pub open spec fn osm_coords(e: OsmElement) -> Option<(i64, i64)> {
    if e.lonlat is Some {
        e.lonlat
    } else {
        e.center
    }
}

/// Whether an element becomes a record: it has a coordinate inside the
/// region box and a non-empty name tag.
pub open spec fn osm_kept(e: OsmElement, b: Bounds) -> bool {
    &&& osm_coords(e) is Some
    &&& in_bounds_spec((osm_coords(e)->0).0, (osm_coords(e)->0).1, b)
    &&& tag_lookup(e.tags@, "name"@) is Some
    &&& (tag_lookup(e.tags@, "name"@)->0).len() > 0
}

/// How many elements become records.
pub open spec fn count_osm_kept(elements: Seq<OsmElement>, b: Bounds) -> nat
    decreases elements.len(),
{
    if elements.len() == 0 {
        0
    } else {
        count_osm_kept(elements.drop_last(), b) + if osm_kept(elements.last(), b) {
            1nat
        } else {
            0nat
        }
    }
}

/// The raw payload stored with an open-provider record.
pub open spec fn osm_raw_spec(e: OsmElement) -> Seq<char> {
    "{\"id\":"@ + ascii_view(crate::text::i64_rep(e.id as int)) + ",\"type\":\""@ + e.element_type@
        + "\",\"osm_category\":\""@ + osm_category_spec(e.tags@) + "\"}"@
}

/// The record built from a kept element.
pub open spec fn osm_record_matches(
    p: POIData,
    e: OsmElement,
    region: Seq<char>,
    cat: Seq<char>,
    cid: Seq<char>,
) -> bool {
    &&& p.name@ == tag_lookup(e.tags@, "name"@)->0
    &&& p.lon_e7 == (osm_coords(e)->0).0
    &&& p.lat_e7 == (osm_coords(e)->0).1
    &&& p.original_lon_e7 == (osm_coords(e)->0).0
    &&& p.original_lat_e7 == (osm_coords(e)->0).1
    &&& p.category@ == cat
    &&& p.category_id@ == cid
    &&& p.address@ == address_spec(e.tags@, region)
    &&& p.phone@ == (match tag_lookup(e.tags@, "phone"@) {
        Some(ph) => ph,
        None => match tag_lookup(e.tags@, "contact:phone"@) {
            Some(cp) => cp,
            None => Seq::empty(),
        },
    })
    &&& p.platform@ == "osm"@
    &&& p.raw_data@ == osm_raw_spec(e)
}

impl OsmCollector {
    /// A collector with no region yet; the open provider wants no key.
    pub fn new() -> (r: OsmCollector)
        ensures
            r.region is None,
    {
        OsmCollector { region: None }
    }

    /// The platform tag of this collector.
    pub fn platform(&self) -> (r: &'static str)
        ensures
            r@ == "osm"@,
    {
        "osm"
    }

    /// The open provider needs no key; the call changes nothing.
    pub fn set_api_key(&mut self, key: String)
        ensures
            *final(self) == *old(self),
    {
    }

    /// Sets the region whose box filters every record.
    pub fn set_region(&mut self, region: RegionConfig)
        ensures
            final(self).region == Some(region),
    {
        self.region = Some(region);
    }

    /// The open provider has no quota concept.
    pub fn is_quota_error(&self, _status: i64) -> (r: bool)
        ensures
            r == false,
    {
        false
    }

    /// Turns query answer elements into records.  The provider does not
    /// page: any page past the first is empty, and the first never reports
    /// more.
    pub fn handle_elements(
        &self,
        elements: &Vec<OsmElement>,
        page: u64,
        category_name: &str,
        category_id: &str,
    ) -> (r: Result<(Vec<POIData>, bool), SearchError>)
        ensures
            self.region is None ==> r matches Err(SearchError::Other(_)),
            self.region is Some && page > 1 ==> (r matches Ok(p) && p.0@.len() == 0 && p.1
                == false),
            self.region is Some && page <= 1 ==> (r matches Ok(p) && p.1 == false && p.0@.len()
                == count_osm_kept(elements@, (self.region->0).bounds) && forall|k: int|
                #![trigger p.0@[k]]
                0 <= k < p.0@.len() ==> {
                    &&& in_bounds_spec(p.0@[k].lon_e7, p.0@[k].lat_e7, (self.region->0).bounds)
                    &&& p.0@[k].name@.len() > 0
                    &&& exists|i: int|
                        0 <= i < elements@.len() && osm_kept(
                            #[trigger] elements@[i],
                            (self.region->0).bounds,
                        ) && osm_record_matches(
                            p.0@[k],
                            elements@[i],
                            (self.region->0).name@,
                            category_name@,
                            category_id@,
                        )
                }),
    {
        let region = match &self.region {
            Some(r) => r,
            None => {
                return Err(SearchError::Other("no region configured".to_owned()));
            },
        };
        if page > 1 {
            return Ok((Vec::new(), false));
        }
        let b = &region.bounds;
        let mut out: Vec<POIData> = Vec::new();
        let n = elements.len();
        let mut i: usize = 0;
        while i < n
            invariant
                n == elements@.len(),
                i <= n,
                out@.len() == count_osm_kept(elements@.subrange(0, i as int), *b),
                forall|k: int|
                    #![trigger out@[k]]
                    0 <= k < out@.len() ==> {
                        &&& in_bounds_spec(out@[k].lon_e7, out@[k].lat_e7, *b)
                        &&& out@[k].name@.len() > 0
                        &&& exists|j: int|
                            0 <= j < elements@.len() && osm_kept(#[trigger] elements@[j], *b)
                                && osm_record_matches(
                                out@[k],
                                elements@[j],
                                region.name@,
                                category_name@,
                                category_id@,
                            )
                    },
            decreases n - i,
        {
            proof {
                assert(elements@.subrange(0, i as int + 1).drop_last() =~= elements@.subrange(
                    0,
                    i as int,
                ));
                assert(elements@.subrange(0, i as int + 1).last() == elements@[i as int]);
            }
            let e = &elements[i];
            let coords: Option<(i64, i64)> = match &e.lonlat {
                Some(c) => Some(*c),
                None => match &e.center {
                    Some(c) => Some(*c),
                    None => None,
                },
            };
            match coords {
                Some((lon, lat)) => {
                    if in_bounds(lon, lat, b) {
                        match tag_get(&e.tags, "name") {
                            Some(name) => {
                                if name.as_str().unicode_len() > 0 {
                                    let phone = match tag_get(&e.tags, "phone") {
                                        Some(ph) => ph,
                                        None => match tag_get(&e.tags, "contact:phone") {
                                            Some(cp) => cp,
                                            None => String::new(),
                                        },
                                    };
                                    let address = build_address(&e.tags, region.name.as_str());
                                    let category = get_osm_category(&e.tags);
                                    let raw = osm_raw_data(e.id, &e.element_type, &category);
                                    let ghost prev = out@;
                                    let rec = POIData {
                                        name,
                                        lon_e7: lon,
                                        lat_e7: lat,
                                        original_lon_e7: lon,
                                        original_lat_e7: lat,
                                        category: category_name.to_owned(),
                                        category_id: category_id.to_owned(),
                                        address,
                                        phone,
                                        platform: "osm".to_owned(),
                                        raw_data: raw,
                                    };
                                    out.push(rec);
                                    assert(osm_kept(elements@[i as int], *b));
                                    assert(osm_record_matches(
                                        out@[prev.len() as int],
                                        elements@[i as int],
                                        region.name@,
                                        category_name@,
                                        category_id@,
                                    ));
                                    assert forall|k: int| #![trigger out@[k]] 0 <= k < out@.len()
                                        implies {
                                        &&& in_bounds_spec(out@[k].lon_e7, out@[k].lat_e7, *b)
                                        &&& out@[k].name@.len() > 0
                                        &&& exists|j: int|
                                            0 <= j < elements@.len() && osm_kept(
                                                #[trigger] elements@[j],
                                                *b,
                                            ) && osm_record_matches(
                                                out@[k],
                                                elements@[j],
                                                region.name@,
                                                category_name@,
                                                category_id@,
                                            )
                                    } by {
                                        if k < prev.len() {
                                            assert(out@[k] == prev[k]);
                                        }
                                    }
                                } else {
                                    assert(!osm_kept(elements@[i as int], *b));
                                }
                            },
                            None => {
                                assert(!osm_kept(elements@[i as int], *b));
                            },
                        }
                    } else {
                        assert(!osm_kept(elements@[i as int], *b));
                    }
                },
                None => {
                    assert(!osm_kept(elements@[i as int], *b));
                },
            }
            i = i + 1;
        }
        proof {
            assert(elements@.subrange(0, n as int) =~= elements@);
        }
        Ok((out, false))
    }
}

/// Renders the raw payload stored with an open-provider record.
fn osm_raw_data(id: i64, element_type: &String, category: &String) -> (r: String)
    ensures
        r@ == "{\"id\":"@ + ascii_view(crate::text::i64_rep(id as int)) + ",\"type\":\""@
            + element_type@ + "\",\"osm_category\":\""@ + category@ + "\"}"@,
{
    let mut s = "{\"id\":".to_owned();
    let digits = crate::text::i64_to_string(id);
    s.append(digits.as_str());
    s.append(",\"type\":\"");
    s.append(element_type.as_str());
    s.append("\",\"osm_category\":\"");
    s.append(category.as_str());
    s.append("\"}");
    s
}

/// The characters removed from values embedded in an overpass query.
pub open spec fn query_escaped(s: Seq<u8>) -> Seq<u8>
    decreases s.len(),
{
    if s.len() == 0 {
        Seq::empty()
    } else {
        query_escaped(s.drop_last()) + if s.last() == 34 || s.last() == 92 {
            Seq::empty()
        } else {
            seq![s.last()]
        }
    }
}

/// Strips quotes and backslashes from a value before embedding it.
pub fn query_escape(b: &[u8]) -> (r: Vec<u8>)
    ensures
        r@ == query_escaped(b@),
{
    let mut r: Vec<u8> = Vec::new();
    let mut i: usize = 0;
    while i < b.len()
        invariant
            i <= b@.len(),
            r@ == query_escaped(b@.subrange(0, i as int)),
        decreases b@.len() - i,
    {
        proof {
            assert(b@.subrange(0, i as int + 1).drop_last() =~= b@.subrange(0, i as int));
            assert(b@.subrange(0, i as int + 1).last() == b@[i as int]);
        }
        let c = b[i];
        if c != 34 && c != 92 {
            r.push(c);
        }
        assert(r@ =~= query_escaped(b@.subrange(0, i as int + 1)));
        i = i + 1;
    }
    proof {
        assert(b@.subrange(0, b@.len() as int) =~= b@);
    }
    r
}

/// The overpass query for a name search scoped to an administrative area.
pub open spec fn overpass_query_spec(keyword: Seq<u8>, region: Seq<u8>) -> Seq<u8> {
    "[out:json][timeout:60];\narea[\"name\"~\"".spec_bytes() + query_escaped(region)
        + "\"][\"boundary\"=\"administrative\"]->.searchArea;\n(\n  node[\"name\"~\"".spec_bytes()
        + query_escaped(keyword) + "\",i](area.searchArea);\n  way[\"name\"~\"".spec_bytes()
        + query_escaped(keyword) + "\",i](area.searchArea);\n  relation[\"name\"~\"".spec_bytes()
        + query_escaped(keyword) + "\",i](area.searchArea);\n);\nout center body;\n".spec_bytes()
}

/// Builds the overpass query body for a keyword in a named region.
pub fn build_overpass_query(keyword: &str, region_name: &str) -> (r: Option<String>)
    ensures
        r is Some <==> valid_utf8(
            overpass_query_spec(
                vstd::utf8::encode_utf8(keyword@),
                vstd::utf8::encode_utf8(region_name@),
            ),
        ),
        r matches Some(s) ==> encode_utf8(s@) == overpass_query_spec(
            vstd::utf8::encode_utf8(keyword@),
            vstd::utf8::encode_utf8(region_name@),
        ),
{
    let mut body: Vec<u8> = Vec::new();
    append_bytes(&mut body, "[out:json][timeout:60];\narea[\"name\"~\"".as_bytes());
    let mut piece = query_escape(region_name.as_bytes());
    body.append(&mut piece);
    append_bytes(
        &mut body,
        "\"][\"boundary\"=\"administrative\"]->.searchArea;\n(\n  node[\"name\"~\"".as_bytes(),
    );
    let mut piece = query_escape(keyword.as_bytes());
    body.append(&mut piece);
    append_bytes(&mut body, "\",i](area.searchArea);\n  way[\"name\"~\"".as_bytes());
    let mut piece = query_escape(keyword.as_bytes());
    body.append(&mut piece);
    append_bytes(&mut body, "\",i](area.searchArea);\n  relation[\"name\"~\"".as_bytes());
    let mut piece = query_escape(keyword.as_bytes());
    body.append(&mut piece);
    append_bytes(
        &mut body,
        "\",i](area.searchArea);\n);\nout center body;\n".as_bytes(),
    );
    assert(body@ =~= overpass_query_spec(
        vstd::utf8::encode_utf8(keyword@),
        vstd::utf8::encode_utf8(region_name@),
    ));
    utf8_to_string(body)
}

/// The mirror endpoints tried in order for the open provider's queries.
pub fn overpass_endpoints() -> (r: Vec<String>)
    ensures
        r@.len() == 4,
        r@[0]@ == "https://overpass.openstreetmap.ru/api/interpreter"@,
        r@[1]@ == "https://maps.mail.ru/osm/tools/overpass/api/interpreter"@,
        r@[2]@ == "https://overpass.kumi.systems/api/interpreter"@,
        r@[3]@ == "https://overpass-api.de/api/interpreter"@,
{
    let mut r: Vec<String> = Vec::new();
    r.push("https://overpass.openstreetmap.ru/api/interpreter".to_owned());
    r.push("https://maps.mail.ru/osm/tools/overpass/api/interpreter".to_owned());
    r.push("https://overpass.kumi.systems/api/interpreter".to_owned());
    r.push("https://overpass-api.de/api/interpreter".to_owned());
    r
}

/// Copies a byte slice onto the end of a vector.
fn append_bytes(out: &mut Vec<u8>, b: &[u8])
    ensures
        final(out)@ == old(out)@ + b@,
{
    let mut i: usize = 0;
    while i < b.len()
        invariant
            i <= b@.len(),
            out@ == old(out)@ + b@.subrange(0, i as int),
        decreases b@.len() - i,
    {
        out.push(b[i]);
        assert(out@ =~= old(out)@ + b@.subrange(0, i as int + 1));
        i = i + 1;
    }
    proof {
        assert(b@.subrange(0, b@.len() as int) =~= b@);
    }
}

/// Appends the decimal rendering of a fixed-point degree value.
fn append_e7(out: &mut Vec<u8>, v: i64)
    ensures
        final(out)@ == old(out)@ + e7_rep(v as int),
{
    let s = e7_to_string(v);
    proof {
        crate::text::lemma_e7_rep_ascii(v as int);
        crate::text::lemma_ascii_encode(e7_rep(v as int));
    }
    append_bytes(out, s.as_str().as_bytes());
}

} // verus!
