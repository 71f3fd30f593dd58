//! Response deduplication: endpoints whose responses are structurally
//! identical are grouped by fingerprint, and once a group is large enough
//! its endpoints can be skipped.
use vstd::prelude::*;
use std::collections::hash_map::DefaultHasher;
use std::hash::Hasher;
use vstd::std_specs::hash::DefaultHasherAdditionalSpecFns;
use std::time::Instant;
use crate::clock::instant_now;
use crate::text::{copy_text, holds_text, same_text, views};

verus! {

/// When endpoints count as duplicates and how many are tracked.
#[derive(Debug, Clone)]
pub struct DedupConfig {
    pub min_duplicates_to_skip: usize,
    pub max_tracked_responses: usize,
    pub include_headers_in_hash: bool,
    pub ignore_status_codes: Vec<u16>,
}

impl Default for DedupConfig {
    fn default() -> (c: Self)
        ensures
            c.min_duplicates_to_skip == 3,
            c.max_tracked_responses == 10_000,
            !c.include_headers_in_hash,
            c.ignore_status_codes@.len() == 0,
    {
        DedupConfig {
            min_duplicates_to_skip: 3,
            max_tracked_responses: 10_000,
            include_headers_in_hash: false,
            ignore_status_codes: Vec::new(),
        }
    }
}

impl DedupConfig {
    /// Sets the group size from which endpoints are skipped, at least one.
    pub fn with_min_duplicates(self, n: usize) -> (c: Self)
        ensures
            c == (DedupConfig { min_duplicates_to_skip: if n >= 1 { n } else { 1 }, ..self }),
    {
        let mut c = self;
        c.min_duplicates_to_skip = if n >= 1 { n } else { 1 };
        c
    }

    /// Sets how many endpoints are tracked at most.
    pub fn with_max_tracked(self, n: usize) -> (c: Self)
        ensures
            c == (DedupConfig { max_tracked_responses: n, ..self }),
    {
        let mut c = self;
        c.max_tracked_responses = n;
        c
    }

    /// Sets whether headers are part of the hash.
    pub fn with_headers_in_hash(self, b: bool) -> (c: Self)
        ensures
            c == (DedupConfig { include_headers_in_hash: b, ..self }),
    {
        let mut c = self;
        c.include_headers_in_hash = b;
        c
    }

    /// Sets the status codes whose responses are not recorded.
    pub fn with_ignored_status_codes(self, codes: Vec<u16>) -> (c: Self)
        ensures
            c == (DedupConfig { ignore_status_codes: codes, ..self }),
    {
        let mut c = self;
        c.ignore_status_codes = codes;
        c
    }
}

/// The structure of a response: status, length, body hash and content
/// type.
#[derive(Debug, Clone, Hash, Eq, PartialEq)]
pub struct ResponseFingerprint {
    pub status_code: u16,
    pub content_length: usize,
    pub body_hash: u64,
    pub content_type: Option<String>,
}

/// A `ResponseFingerprint` with its content type as a character sequence.
pub struct FingerprintModel {
    pub status_code: u16,
    pub content_length: usize,
    pub body_hash: u64,
    pub content_type: Option<Seq<char>>,
}

impl View for ResponseFingerprint {
    type V = FingerprintModel;

    open spec fn view(&self) -> FingerprintModel {
        FingerprintModel {
            status_code: self.status_code,
            content_length: self.content_length,
            body_hash: self.body_hash,
            content_type: match self.content_type {
                Some(t) => Some(t@),
                None => None,
            },
        }
    }
}

/// Endpoints whose responses share a fingerprint.
#[derive(Debug, Clone)]
pub struct DuplicateGroup {
    pub fingerprint: ResponseFingerprint,
    pub endpoints: Vec<String>,
    pub first_seen_at: Instant,
    pub should_skip: bool,
}

/// A `DuplicateGroup` without its time of creation.
pub struct GroupModel {
    pub fingerprint: FingerprintModel,
    pub endpoints: Seq<Seq<char>>,
    pub should_skip: bool,
}

impl View for DuplicateGroup {
    type V = GroupModel;

    open spec fn view(&self) -> GroupModel {
        GroupModel { fingerprint: self.fingerprint@, endpoints: views(self.endpoints@), should_skip: self.should_skip }
    }
}

/// Running totals of the deduplicator.
#[derive(Debug, Clone)]
pub struct DedupStats {
    pub total_responses_seen: u64,
    pub unique_fingerprints: usize,
    pub duplicate_groups: usize,
    pub endpoints_skipped: u64,
    pub bytes_saved_estimate: u64,
}

impl Default for DedupStats {
    fn default() -> (s: Self)
        ensures
            s == (DedupStats {
                total_responses_seen: 0,
                unique_fingerprints: 0,
                duplicate_groups: 0,
                endpoints_skipped: 0,
                bytes_saved_estimate: 0,
            }),
    {
        DedupStats {
            total_responses_seen: 0,
            unique_fingerprints: 0,
            duplicate_groups: 0,
            endpoints_skipped: 0,
            bytes_saved_estimate: 0,
        }
    }
}

pub open spec fn group_views(v: Seq<DuplicateGroup>) -> Seq<GroupModel> {
    v.map_values(|g: DuplicateGroup| g@)
}

pub open spec fn tracked_views(v: Seq<(String, ResponseFingerprint)>) -> Seq<(Seq<char>, FingerprintModel)> {
    v.map_values(|p: (String, ResponseFingerprint)| (p.0@, p.1@))
}

/// The position of endpoint `e` among the tracked ones.
pub open spec fn endpoint_index(t: Seq<(Seq<char>, FingerprintModel)>, e: Seq<char>) -> Option<int> {
    if exists|i: int| 0 <= i < t.len() && t[i].0 == e {
        Some(choose|i: int| 0 <= i < t.len() && t[i].0 == e)
    } else {
        None
    }
}

/// The position of the group with fingerprint `fp`.
pub open spec fn group_index(g: Seq<GroupModel>, fp: FingerprintModel) -> Option<int> {
    if exists|i: int| 0 <= i < g.len() && g[i].fingerprint == fp {
        Some(choose|i: int| 0 <= i < g.len() && g[i].fingerprint == fp)
    } else {
        None
    }
}

/// The number of skippable groups among the first `k`.
pub open spec fn count_skip(g: Seq<GroupModel>, k: int) -> nat
    decreases k,
{
    if k <= 0 {
        0
    } else {
        count_skip(g, k - 1) + if g[k - 1].should_skip {
            1nat
        } else {
            0nat
        }
    }
}

/// A group after endpoint `e` responded with its fingerprint: `e` is
/// listed once, and the group is skippable from `min` endpoints on.
pub open spec fn grown(g: GroupModel, e: Seq<char>, min: usize) -> GroupModel {
    let eps = if g.endpoints.contains(e) {
        g.endpoints
    } else {
        g.endpoints.push(e)
    };
    GroupModel { fingerprint: g.fingerprint, endpoints: eps, should_skip: eps.len() >= min }
}

/// A new group for a first response.
pub open spec fn fresh_group(fp: FingerprintModel, e: Seq<char>, min: usize) -> GroupModel {
    GroupModel { fingerprint: fp, endpoints: seq![e], should_skip: 1 >= min }
}

pub open spec fn distinct_texts(s: Seq<Seq<char>>) -> bool {
    forall|i: int, j: int| 0 <= i < j < s.len() ==> s[i] != s[j]
}

/// Tracks response fingerprints across endpoints.
pub struct ResponseDeduplicator {
    config: DedupConfig,
    groups: Vec<DuplicateGroup>,
    entries: Vec<(String, ResponseFingerprint)>,
    stats: DedupStats,
}

impl ResponseDeduplicator {
    pub closed spec fn spec_config(self) -> DedupConfig {
        self.config
    }

    /// The tracked endpoints with their latest fingerprints, in order of
    /// first record.
    pub closed spec fn spec_entries(self) -> Seq<(Seq<char>, FingerprintModel)> {
        tracked_views(self.entries@)
    }

    /// The groups, in order of creation.
    pub closed spec fn spec_groups(self) -> Seq<GroupModel> {
        group_views(self.groups@)
    }

    pub closed spec fn spec_stats(self) -> DedupStats {
        self.stats
    }

    /// No endpoint is tracked twice, no fingerprint has two groups, no
    /// group lists an endpoint twice or none at all, a group is skippable
    /// exactly when it has at least the configured number of endpoints,
    /// every tracked endpoint is listed in the group of its fingerprint, and
    /// the counts of groups agree with the groups.
    pub open spec fn wf(self) -> bool {
        let t = self.spec_entries();
        let g = self.spec_groups();
        &&& forall|i: int, j: int| 0 <= i < j < t.len() ==> t[i].0 != t[j].0
        &&& forall|i: int, j: int| 0 <= i < j < g.len() ==> g[i].fingerprint != g[j].fingerprint
        &&& forall|i: int|
            0 <= i < g.len() ==> distinct_texts(#[trigger] g[i].endpoints) && g[i].endpoints.len() > 0
                && g[i].should_skip == (g[i].endpoints.len() >= self.spec_config().min_duplicates_to_skip)
        &&& forall|i: int|
            0 <= i < t.len() ==> match group_index(g, #[trigger] t[i].1) {
                Some(k) => g[k].endpoints.contains(t[i].0),
                None => false,
            }
        &&& self.spec_stats().unique_fingerprints == g.len()
        &&& self.spec_stats().duplicate_groups == count_skip(g, g.len() as int)
    }
}

/// The tracked endpoints after `e` responded with `fp`: its fingerprint
/// replaced in place, or the endpoint added last.
pub open spec fn entries_after(t: Seq<(Seq<char>, FingerprintModel)>, e: Seq<char>, fp: FingerprintModel) -> Seq<
    (Seq<char>, FingerprintModel),
> {
    match endpoint_index(t, e) {
        Some(i) => t.update(i, (e, fp)),
        None => t.push((e, fp)),
    }
}

/// The group that a response of `e` with `fp` lands in, after it landed.
pub open spec fn landing_group(g: Seq<GroupModel>, e: Seq<char>, fp: FingerprintModel, min: usize) -> GroupModel {
    match group_index(g, fp) {
        Some(k) => grown(g[k], e, min),
        None => fresh_group(fp, e, min),
    }
}

/// The groups after `e` responded with `fp`.
pub open spec fn groups_after(g: Seq<GroupModel>, e: Seq<char>, fp: FingerprintModel, min: usize) -> Seq<GroupModel> {
    match group_index(g, fp) {
        Some(k) => g.update(k, grown(g[k], e, min)),
        None => g.push(fresh_group(fp, e, min)),
    }
}

proof fn lemma_endpoint_index(t: Seq<(Seq<char>, FingerprintModel)>, e: Seq<char>, i: int)
    requires
        forall|a: int, b: int| 0 <= a < b < t.len() ==> t[a].0 != t[b].0,
        0 <= i < t.len(),
        t[i].0 == e,
    ensures
        endpoint_index(t, e) == Some(i),
{
    let c = choose|c: int| 0 <= c < t.len() && t[c].0 == e;
    if c < i {
        assert(t[c].0 != t[i].0);
    } else if c > i {
        assert(t[i].0 != t[c].0);
    }
}

proof fn lemma_group_index(g: Seq<GroupModel>, fp: FingerprintModel, k: int)
    requires
        forall|a: int, b: int| 0 <= a < b < g.len() ==> g[a].fingerprint != g[b].fingerprint,
        0 <= k < g.len(),
        g[k].fingerprint == fp,
    ensures
        group_index(g, fp) == Some(k),
{
    let c = choose|c: int| 0 <= c < g.len() && g[c].fingerprint == fp;
    if c < k {
        assert(g[c].fingerprint != g[k].fingerprint);
    } else if c > k {
        assert(g[k].fingerprint != g[c].fingerprint);
    }
}

fn same_fingerprint(a: &ResponseFingerprint, b: &ResponseFingerprint) -> (r: bool)
    ensures
        r == (a@ == b@),
{
    if a.status_code != b.status_code || a.content_length != b.content_length || a.body_hash != b.body_hash {
        return false;
    }
    match (&a.content_type, &b.content_type) {
        (Some(x), Some(y)) => same_text(x.as_str(), y.as_str()),
        (None, None) => true,
        _ => false,
    }
}

fn copy_fingerprint(f: &ResponseFingerprint) -> (r: ResponseFingerprint)
    ensures
        r@ == f@,
{
    ResponseFingerprint {
        status_code: f.status_code,
        content_length: f.content_length,
        body_hash: f.body_hash,
        content_type: match &f.content_type {
            Some(t) => Some(copy_text(t.as_str())),
            None => None,
        },
    }
}

fn holds_code(codes: &Vec<u16>, code: u16) -> (r: bool)
    ensures
        r == codes@.contains(code),
{
    let mut i: usize = 0;
    while i < codes.len()
        invariant
            i <= codes@.len(),
            forall|j: int| 0 <= j < i ==> codes@[j] != code,
        decreases codes.len() - i,
    {
        if codes[i] == code {
            return true;
        }
        i += 1;
    }
    false
}

impl ResponseDeduplicator {
    /// An empty deduplicator.
    pub fn new(config: DedupConfig) -> (d: Self)
        ensures
            d.wf(),
            d.spec_config() == config,
            d.spec_entries().len() == 0,
            d.spec_groups().len() == 0,
            d.spec_stats() == DedupStats::default_spec(),
    {
        let d = ResponseDeduplicator { config, groups: Vec::new(), entries: Vec::new(), stats: DedupStats::default() };
        assert(d.spec_groups() =~= Seq::<GroupModel>::empty());
        assert(d.spec_entries() =~= Seq::<(Seq<char>, FingerprintModel)>::empty());
        d
    }

    /// An empty deduplicator with the default configuration.
    pub fn with_default_config() -> (d: Self)
        ensures
            d.wf(),
            d.spec_config().min_duplicates_to_skip == 3,
            d.spec_config().max_tracked_responses == 10_000,
            !d.spec_config().include_headers_in_hash,
            d.spec_config().ignore_status_codes@.len() == 0,
            d.spec_entries().len() == 0,
            d.spec_groups().len() == 0,
            d.spec_stats() == DedupStats::default_spec(),
    {
        Self::new(DedupConfig::default())
    }

    /// The fingerprint of a response: its status, its body's length and
    /// hash, and its content type. The hash is std's `DefaultHasher`, fresh,
    /// fed the body's bytes in one write.
    pub fn fingerprint_response(status_code: u16, body: &[u8], content_type: Option<&str>) -> (f: ResponseFingerprint)
        ensures
            f.status_code == status_code,
            f.content_length == body@.len(),
            f.body_hash == DefaultHasher::spec_finish(seq![body@]),
            f@.content_type == match content_type {
                Some(t) => Some(t@),
                None => None::<Seq<char>>,
            },
    {
        let mut hasher = DefaultHasher::new();
        hasher.write(body);
        let body_hash = hasher.finish();
        ResponseFingerprint {
            status_code,
            content_length: body.len(),
            body_hash,
            content_type: match content_type {
                Some(t) => Some(copy_text(t)),
                None => None,
            },
        }
    }

    /// The response is recorded: its status is not ignored, and either the
    /// endpoint is already tracked or there is room for it.
    pub open spec fn accepts(self, e: Seq<char>, fp: FingerprintModel) -> bool {
        &&& !self.spec_config().ignore_status_codes@.contains(fp.status_code)
        &&& !(self.spec_entries().len() >= self.spec_config().max_tracked_responses && endpoint_index(
            self.spec_entries(),
            e,
        ) is None)
    }

    fn find_entry(&self, endpoint: &str) -> (r: Option<usize>)
        requires
            self.wf(),
        ensures
            match endpoint_index(self.spec_entries(), endpoint@) {
                Some(i) => r is Some && r->0 == i && i < self.spec_entries().len(),
                None => r is None,
            },
    {
        let mut i: usize = 0;
        while i < self.entries.len()
            invariant
                self.wf(),
                i <= self.entries@.len(),
                forall|j: int| 0 <= j < i ==> self.spec_entries()[j].0 != endpoint@,
            decreases self.entries.len() - i,
        {
            if same_text(self.entries[i].0.as_str(), endpoint) {
                proof {
                    lemma_endpoint_index(self.spec_entries(), endpoint@, i as int);
                }
                return Some(i);
            }
            i += 1;
        }
        None
    }

    fn find_group(&self, fp: &ResponseFingerprint) -> (r: Option<usize>)
        requires
            self.wf(),
        ensures
            match group_index(self.spec_groups(), fp@) {
                Some(k) => r is Some && r->0 == k && k < self.spec_groups().len(),
                None => r is None,
            },
    {
        let mut i: usize = 0;
        while i < self.groups.len()
            invariant
                self.wf(),
                i <= self.groups@.len(),
                forall|j: int| 0 <= j < i ==> self.spec_groups()[j].fingerprint != fp@,
            decreases self.groups.len() - i,
        {
            if same_fingerprint(&self.groups[i].fingerprint, fp) {
                proof {
                    lemma_group_index(self.spec_groups(), fp@, i as int);
                }
                return Some(i);
            }
            i += 1;
        }
        None
    }
}

impl DedupStats {
    /// All totals zero.
    pub open spec fn default_spec() -> DedupStats {
        DedupStats {
            total_responses_seen: 0,
            unique_fingerprints: 0,
            duplicate_groups: 0,
            endpoints_skipped: 0,
            bytes_saved_estimate: 0,
        }
    }
}

fn count_skip_exec(groups: &Vec<DuplicateGroup>) -> (n: usize)
    ensures
        n == count_skip(group_views(groups@), groups@.len() as int),
{
    let ghost g = group_views(groups@);
    let mut n: usize = 0;
    let mut i: usize = 0;
    while i < groups.len()
        invariant
            i <= groups@.len(),
            g == group_views(groups@),
            n == count_skip(g, i as int),
            n <= i,
        decreases groups.len() - i,
    {
        if groups[i].should_skip {
            n = n + 1;
        }
        i += 1;
    }
    n
}

impl ResponseDeduplicator {
    /// Records that `endpoint` answered with `fingerprint`. Responses with
    /// an ignored status, and new endpoints once the tracking limit is
    /// reached, change nothing. Otherwise the endpoint's fingerprint is
    /// set, it joins the group of that fingerprint (created if new), and a
    /// response landing in a skippable group counts as skipped, with its
    /// length as bytes saved.
    pub fn record_response(&mut self, endpoint: &str, fingerprint: ResponseFingerprint)
        requires
            old(self).wf(),
            old(self).accepts(endpoint@, fingerprint@) ==> {
                &&& old(self).spec_stats().total_responses_seen < u64::MAX
                &&& old(self).spec_stats().endpoints_skipped < u64::MAX
                &&& old(self).spec_stats().bytes_saved_estimate + fingerprint.content_length <= u64::MAX
            },
        ensures
            final(self).wf(),
            final(self).spec_config() == old(self).spec_config(),
            !old(self).accepts(endpoint@, fingerprint@) ==> {
                &&& final(self).spec_entries() == old(self).spec_entries()
                &&& final(self).spec_groups() == old(self).spec_groups()
                &&& final(self).spec_stats() == old(self).spec_stats()
            },
            old(self).accepts(endpoint@, fingerprint@) ==> {
                let min = old(self).spec_config().min_duplicates_to_skip;
                let landed = landing_group(old(self).spec_groups(), endpoint@, fingerprint@, min);
                let s = old(self).spec_stats();
                &&& final(self).spec_entries() == entries_after(old(self).spec_entries(), endpoint@, fingerprint@)
                &&& final(self).spec_groups() == groups_after(old(self).spec_groups(), endpoint@, fingerprint@, min)
                &&& final(self).spec_stats().total_responses_seen == s.total_responses_seen + 1
                &&& final(self).spec_stats().endpoints_skipped == s.endpoints_skipped + if landed.should_skip {
                    1int
                } else {
                    0int
                }
                &&& final(self).spec_stats().bytes_saved_estimate == s.bytes_saved_estimate + if landed.should_skip {
                    fingerprint.content_length as int
                } else {
                    0int
                }
            },
    {
        if holds_code(&self.config.ignore_status_codes, fingerprint.status_code) {
            return;
        }
        let pos = self.find_entry(endpoint);
        if self.entries.len() >= self.config.max_tracked_responses && pos.is_none() {
            return;
        }
        let gpos = self.find_group(&fingerprint);
        let ghost t0 = self.spec_entries();
        let ghost g0 = self.spec_groups();
        let ghost fp = fingerprint@;
        let ghost e = endpoint@;
        let min = self.config.min_duplicates_to_skip;
        self.stats.total_responses_seen = self.stats.total_responses_seen + 1;
        let content_length = fingerprint.content_length as u64;
        let entry = (copy_text(endpoint), copy_fingerprint(&fingerprint));
        match pos {
            Some(i) => {
                let _ = self.entries.remove(i);
                self.entries.insert(i, entry);
                assert(self.spec_entries() =~= t0.update(i as int, (e, fp)));
            },
            None => {
                self.entries.push(entry);
                assert(self.spec_entries() =~= t0.push((e, fp)));
            },
        }
        let skip;
        match gpos {
            Some(k) => {
                let mut g = self.groups.remove(k);
                let ghost gv = g@;
                assert(gv == g0[k as int]);
                if !holds_text(&g.endpoints, endpoint) {
                    g.endpoints.push(copy_text(endpoint));
                    assert(g@.endpoints =~= gv.endpoints.push(e));
                }
                if g.endpoints.len() >= min && !g.should_skip {
                    g.should_skip = true;
                }
                skip = g.should_skip;
                assert(g@ == grown(gv, e, min));
                self.groups.insert(k, g);
                assert(self.spec_groups() =~= g0.update(k as int, grown(gv, e, min)));
            },
            None => {
                let mut eps: Vec<String> = Vec::new();
                eps.push(copy_text(endpoint));
                let g = DuplicateGroup {
                    fingerprint,
                    endpoints: eps,
                    first_seen_at: instant_now(),
                    should_skip: 1 >= min,
                };
                skip = g.should_skip;
                assert(g@.endpoints =~= seq![e]);
                self.groups.push(g);
                assert(self.spec_groups() =~= g0.push(fresh_group(fp, e, min)));
            },
        }
        if skip {
            self.stats.endpoints_skipped = self.stats.endpoints_skipped + 1;
            self.stats.bytes_saved_estimate = self.stats.bytes_saved_estimate + content_length;
        }
        self.stats.unique_fingerprints = self.groups.len();
        self.stats.duplicate_groups = count_skip_exec(&self.groups);
        proof {
            self.lemma_recorded_wf(old(self).spec_entries(), old(self).spec_groups(), e, fp);
        }
    }

    proof fn lemma_recorded_wf(
        self,
        t0: Seq<(Seq<char>, FingerprintModel)>,
        g0: Seq<GroupModel>,
        e: Seq<char>,
        fp: FingerprintModel,
    )
        requires
            forall|i: int, j: int| 0 <= i < j < t0.len() ==> t0[i].0 != t0[j].0,
            forall|i: int, j: int| 0 <= i < j < g0.len() ==> g0[i].fingerprint != g0[j].fingerprint,
            forall|i: int|
                0 <= i < g0.len() ==> distinct_texts(#[trigger] g0[i].endpoints) && g0[i].endpoints.len() > 0
                    && g0[i].should_skip == (g0[i].endpoints.len() >= self.spec_config().min_duplicates_to_skip),
            forall|i: int|
                0 <= i < t0.len() ==> match group_index(g0, #[trigger] t0[i].1) {
                    Some(k) => g0[k].endpoints.contains(t0[i].0),
                    None => false,
                },
            self.spec_entries() == entries_after(t0, e, fp),
            self.spec_groups() == groups_after(g0, e, fp, self.spec_config().min_duplicates_to_skip),
            self.spec_stats().unique_fingerprints == self.spec_groups().len(),
            self.spec_stats().duplicate_groups == count_skip(self.spec_groups(), self.spec_groups().len() as int),
        ensures
            self.wf(),
    {
        let min = self.spec_config().min_duplicates_to_skip;
        let t = self.spec_entries();
        let g = self.spec_groups();
        // No endpoint twice.
        assert forall|i: int, j: int| 0 <= i < j < t.len() implies t[i].0 != t[j].0 by {
            match endpoint_index(t0, e) {
                Some(p) => {},
                None => {
                    if j == t0.len() {
                        assert(t[i].0 == t0[i].0);
                    }
                },
            }
        }
        // No fingerprint twice, groups well formed.
        let gi = group_index(g0, fp);
        assert forall|i: int, j: int| 0 <= i < j < g.len() implies g[i].fingerprint != g[j].fingerprint by {
            match gi {
                Some(k) => {},
                None => {
                    if j == g0.len() {
                        assert(g[i].fingerprint == g0[i].fingerprint);
                    }
                },
            }
        }
        assert forall|i: int| 0 <= i < g.len() implies distinct_texts(#[trigger] g[i].endpoints) && g[i].endpoints.len() > 0
            && g[i].should_skip == (g[i].endpoints.len() >= min) by {
            match gi {
                Some(k) => {
                    if i == k {
                        let old_eps = g0[k].endpoints;
                        if !old_eps.contains(e) {
                            assert forall|a: int, b: int| 0 <= a < b < g[i].endpoints.len() implies g[i].endpoints[a]
                                != g[i].endpoints[b] by {
                                if b == old_eps.len() {
                                    assert(g[i].endpoints[a] == old_eps[a]);
                                }
                            }
                        }
                    }
                },
                None => {},
            }
        }
        // Every tracked endpoint is in the group of its fingerprint.
        assert forall|i: int| 0 <= i < t.len() implies match group_index(g, #[trigger] t[i].1) {
            Some(k) => g[k].endpoints.contains(t[i].0),
            None => false,
        } by {
            let (ei, fi) = t[i];
            let k = match gi {
                Some(k) => k,
                None => g0.len() as int,
            };
            assert(g[k].fingerprint == fp);
            assert(g[k].endpoints.contains(e)) by {
                match gi {
                    Some(kk) => {
                        if g0[kk].endpoints.contains(e) {
                        } else {
                            assert(g[k].endpoints[g0[kk].endpoints.len() as int] == e);
                        }
                    },
                    None => {
                        assert(g[k].endpoints[0] == e);
                    },
                }
            }
            if fi == fp {
                lemma_group_index(g, fp, k);
                if ei != e {
                    assert(0 <= i < t0.len() && t0[i] == t[i]);
                    match gi {
                        Some(kk) => {
                            lemma_group_index(g0, fp, kk);
                            let w = choose|w: int| 0 <= w < g0[kk].endpoints.len() && g0[kk].endpoints[w] == ei;
                            assert(g[k].endpoints[w] == ei);
                        },
                        None => {
                            assert(false);
                        },
                    }
                }
            } else {
                assert(0 <= i < t0.len() && t0[i] == t[i]);
                let k0 = group_index(g0, fi)->0;
                assert(g0[k0].fingerprint == fi);
                assert(g[k0] == g0[k0]);
                lemma_group_index(g, fi, k0);
            }
        }
    }
}

/// The group of `fp` is skippable.
pub open spec fn skip_of(g: Seq<GroupModel>, fp: FingerprintModel) -> bool {
    match group_index(g, fp) {
        Some(k) => g[k].should_skip,
        None => false,
    }
}

pub open spec fn group_refs(v: Seq<&DuplicateGroup>) -> Seq<GroupModel> {
    v.map_values(|g: &DuplicateGroup| g@)
}

pub open spec fn str_views(v: Seq<&str>) -> Seq<Seq<char>> {
    v.map_values(|s: &str| s@)
}

/// The endpoints, in order, whose fingerprint's group is skippable.
pub open spec fn skippable_of(t: Seq<(Seq<char>, FingerprintModel)>, g: Seq<GroupModel>) -> Seq<Seq<char>>
    decreases t.len(),
{
    if t.len() == 0 {
        Seq::empty()
    } else {
        skippable_of(t.drop_last(), g) + if skip_of(g, t.last().1) {
            seq![t.last().0]
        } else {
            Seq::empty()
        }
    }
}

impl ResponseDeduplicator {
    /// Whether the endpoint is tracked and its fingerprint's group is
    /// skippable.
    pub fn should_skip(&self, endpoint: &str) -> (r: bool)
        requires
            self.wf(),
        ensures
            r == match endpoint_index(self.spec_entries(), endpoint@) {
                Some(i) => skip_of(self.spec_groups(), self.spec_entries()[i].1),
                None => false,
            },
    {
        match self.find_entry(endpoint) {
            Some(i) => self.should_skip_fingerprint(&self.entries[i].1),
            None => false,
        }
    }

    /// Whether the group of the fingerprint is skippable.
    pub fn should_skip_fingerprint(&self, fingerprint: &ResponseFingerprint) -> (r: bool)
        requires
            self.wf(),
        ensures
            r == skip_of(self.spec_groups(), fingerprint@),
    {
        match self.find_group(fingerprint) {
            Some(k) => self.groups[k].should_skip,
            None => false,
        }
    }

    /// The group of a fingerprint.
    pub fn get_duplicate_group(&self, fingerprint: &ResponseFingerprint) -> (r: Option<&DuplicateGroup>)
        requires
            self.wf(),
        ensures
            match group_index(self.spec_groups(), fingerprint@) {
                Some(k) => r is Some && r->0@ == self.spec_groups()[k],
                None => r is None,
            },
    {
        match self.find_group(fingerprint) {
            Some(k) => Some(&self.groups[k]),
            None => None,
        }
    }

    /// The latest fingerprint of an endpoint.
    pub fn get_endpoint_fingerprint(&self, endpoint: &str) -> (r: Option<&ResponseFingerprint>)
        requires
            self.wf(),
        ensures
            match endpoint_index(self.spec_entries(), endpoint@) {
                Some(i) => r is Some && r->0@ == self.spec_entries()[i].1,
                None => r is None,
            },
    {
        match self.find_entry(endpoint) {
            Some(i) => Some(&self.entries[i].1),
            None => None,
        }
    }

    /// The skippable groups, in order of creation.
    pub fn duplicate_groups(&self) -> (r: Vec<&DuplicateGroup>)
        ensures
            group_refs(r@) == self.spec_groups().filter(|g: GroupModel| g.should_skip),
    {
        let ghost g = self.spec_groups();
        let mut r: Vec<&DuplicateGroup> = Vec::new();
        let mut i: usize = 0;
        while i < self.groups.len()
            invariant
                i <= self.groups@.len(),
                g == self.spec_groups(),
                group_refs(r@) == g.take(i as int).filter(|x: GroupModel| x.should_skip),
            decreases self.groups.len() - i,
        {
            if self.groups[i].should_skip {
                r.push(&self.groups[i]);
            }
            proof {
                assert(g.take(i + 1).drop_last() =~= g.take(i as int));
                reveal(Seq::filter);
                assert(g[i as int] == self.groups@[i as int]@);
            }
            i += 1;
            assert(group_refs(r@) =~= g.take(i as int).filter(|x: GroupModel| x.should_skip));
        }
        assert(g.take(i as int) =~= g);
        r
    }

    /// The tracked endpoints whose group is skippable, in order.
    pub fn skippable_endpoints(&self) -> (r: Vec<&str>)
        requires
            self.wf(),
        ensures
            str_views(r@) == skippable_of(self.spec_entries(), self.spec_groups()),
    {
        let ghost t = self.spec_entries();
        let mut r: Vec<&str> = Vec::new();
        let mut i: usize = 0;
        while i < self.entries.len()
            invariant
                self.wf(),
                i <= self.entries@.len(),
                t == self.spec_entries(),
                str_views(r@) == skippable_of(t.take(i as int), self.spec_groups()),
            decreases self.entries.len() - i,
        {
            let ghost before = r@;
            if self.should_skip_fingerprint(&self.entries[i].1) {
                r.push(self.entries[i].0.as_str());
                assert(str_views(r@) =~= str_views(before).push(t[i as int].0));
            }
            assert(t.take(i + 1).drop_last() =~= t.take(i as int));
            i += 1;
        }
        assert(t.take(i as int) =~= t);
        r
    }

    /// The running totals.
    pub fn stats(&self) -> (s: &DedupStats)
        ensures
            *s == self.spec_stats(),
    {
        &self.stats
    }

    /// Forgets every endpoint and group and zeroes the totals.
    pub fn reset(&mut self)
        ensures
            final(self).wf(),
            final(self).spec_config() == old(self).spec_config(),
            final(self).spec_entries().len() == 0,
            final(self).spec_groups().len() == 0,
            final(self).spec_stats() == DedupStats::default_spec(),
    {
        self.groups.clear();
        self.entries.clear();
        self.stats = DedupStats::default();
        assert(self.spec_groups() =~= Seq::<GroupModel>::empty());
        assert(self.spec_entries() =~= Seq::<(Seq<char>, FingerprintModel)>::empty());
    }

    /// The number of distinct fingerprints seen.
    pub fn unique_fingerprint_count(&self) -> (n: usize)
        ensures
            n == self.spec_groups().len(),
    {
        self.groups.len()
    }

    /// The number of endpoints tracked.
    pub fn total_endpoints_tracked(&self) -> (n: usize)
        ensures
            n == self.spec_entries().len(),
    {
        self.entries.len()
    }
}

/// Recording a response makes its endpoint tracked with that fingerprint,
/// leaves every other endpoint's fingerprint as it was, and keeps each
/// endpoint tracked once.
pub proof fn law_record_tracks_endpoint(
    t: Seq<(Seq<char>, FingerprintModel)>,
    e: Seq<char>,
    fp: FingerprintModel,
    other: Seq<char>,
)
    requires
        forall|i: int, j: int| 0 <= i < j < t.len() ==> t[i].0 != t[j].0,
    ensures
        ({
            let t2 = entries_after(t, e, fp);
            &&& forall|i: int, j: int| 0 <= i < j < t2.len() ==> t2[i].0 != t2[j].0
            &&& endpoint_index(t2, e) matches Some(k) && t2[k].1 == fp
            &&& other != e ==> match (endpoint_index(t, other), endpoint_index(t2, other)) {
                (Some(a), Some(b)) => t[a].1 == t2[b].1,
                (None, None) => true,
                _ => false,
            }
        }),
{
    let t2 = entries_after(t, e, fp);
    let k = match endpoint_index(t, e) {
        Some(i) => i,
        None => t.len() as int,
    };
    assert forall|i: int, j: int| 0 <= i < j < t2.len() implies t2[i].0 != t2[j].0 by {
        if endpoint_index(t, e) is None && j == t.len() {
            assert(t2[i].0 == t[i].0);
        }
    }
    lemma_endpoint_index(t2, e, k);
    if other != e {
        match endpoint_index(t, other) {
            Some(a) => {
                assert(t2[a] == t[a]);
                lemma_endpoint_index(t2, other, a);
            },
            None => {
                if endpoint_index(t2, other) is Some {
                    let b = endpoint_index(t2, other)->0;
                    assert(t2[b].0 == other);
                    assert(b != k);
                    assert(t[b].0 == other);
                }
            },
        }
    }
}

/// In a well-formed deduplicator a fingerprint is skipped exactly when
/// its group has reached the configured number of endpoints.
pub proof fn law_skip_means_enough_duplicates(d: ResponseDeduplicator, fp: FingerprintModel)
    requires
        d.wf(),
    ensures
        skip_of(d.spec_groups(), fp) == match group_index(d.spec_groups(), fp) {
            Some(k) => d.spec_groups()[k].endpoints.len() >= d.spec_config().min_duplicates_to_skip,
            None => false,
        },
{
    match group_index(d.spec_groups(), fp) {
        Some(k) => {
            assert(0 <= k < d.spec_groups().len());
        },
        None => {},
    }
}

} // verus!
