//! Race-condition testing: bursts of identical requests, their raw
//! HTTP/1.1 form, single-packet payloads, and the anomalies of a burst.
use vstd::prelude::*;
use std::time::Duration;
use crate::clock::duration_from_millis;
use crate::text::{chars_of, decimal, push_decimal, push_str, string_of};

verus! {

/// A category of state-dependent operation open to a race.
#[derive(Debug, Clone, Copy, PartialEq, Eq, Hash, Structural)]
pub enum RaceTarget {
    CouponRedemption,
    BalanceTransfer,
    RateLimitBypass,
    InventoryCheck,
    DuplicateCreation,
    VoteManipulation,
    FileUploadRace,
    SessionStateRace,
    TokenReuse,
    SequencePrediction,
}

impl RaceTarget {
    /// The target's name.
    pub open spec fn label(self) -> Seq<char> {
        match self {
            RaceTarget::CouponRedemption => "coupon_redemption"@,
            RaceTarget::BalanceTransfer => "balance_transfer"@,
            RaceTarget::RateLimitBypass => "rate_limit_bypass"@,
            RaceTarget::InventoryCheck => "inventory_check"@,
            RaceTarget::DuplicateCreation => "duplicate_creation"@,
            RaceTarget::VoteManipulation => "vote_manipulation"@,
            RaceTarget::FileUploadRace => "file_upload_race"@,
            RaceTarget::SessionStateRace => "session_state_race"@,
            RaceTarget::TokenReuse => "token_reuse"@,
            RaceTarget::SequencePrediction => "sequence_prediction"@,
        }
    }

    /// Renders the target's name.
    pub fn to_string(&self) -> (s: String)
        ensures s@ == self.label(),
    {
        match self {
            RaceTarget::CouponRedemption => String::from_str("coupon_redemption"),
            RaceTarget::BalanceTransfer => String::from_str("balance_transfer"),
            RaceTarget::RateLimitBypass => String::from_str("rate_limit_bypass"),
            RaceTarget::InventoryCheck => String::from_str("inventory_check"),
            RaceTarget::DuplicateCreation => String::from_str("duplicate_creation"),
            RaceTarget::VoteManipulation => String::from_str("vote_manipulation"),
            RaceTarget::FileUploadRace => String::from_str("file_upload_race"),
            RaceTarget::SessionStateRace => String::from_str("session_state_race"),
            RaceTarget::TokenReuse => String::from_str("token_reuse"),
            RaceTarget::SequencePrediction => String::from_str("sequence_prediction"),
        }
    }
}

/// How the requests of a burst are delivered.
#[derive(Debug, Clone, Copy, PartialEq, Eq, Structural)]
pub enum DeliveryStrategy {
    SinglePacket,
    LastByte,
    ParallelBurst,
    Pipelined,
}

impl DeliveryStrategy {
    /// The strategy's name.
    pub open spec fn label(self) -> Seq<char> {
        match self {
            DeliveryStrategy::SinglePacket => "single_packet"@,
            DeliveryStrategy::LastByte => "last_byte"@,
            DeliveryStrategy::ParallelBurst => "parallel_burst"@,
            DeliveryStrategy::Pipelined => "pipelined"@,
        }
    }

    /// Renders the strategy's name.
    pub fn to_string(&self) -> (s: String)
        ensures s@ == self.label(),
    {
        match self {
            DeliveryStrategy::SinglePacket => String::from_str("single_packet"),
            DeliveryStrategy::LastByte => String::from_str("last_byte"),
            DeliveryStrategy::ParallelBurst => String::from_str("parallel_burst"),
            DeliveryStrategy::Pipelined => String::from_str("pipelined"),
        }
    }
}

/// Maximum bytes for a single-packet payload (a conservative Ethernet MSS).
pub const MAX_SINGLE_PACKET_SIZE: usize = 1400;

/// The configuration of a race attack.
#[derive(Debug, Clone)]
pub struct RaceConfig {
    pub target_type: RaceTarget,
    pub strategy: DeliveryStrategy,
    pub burst_size: u32,
    pub endpoint: String,
    pub method: String,
    pub headers: Vec<(String, String)>,
    pub body: Option<Vec<u8>>,
    pub warmup_rounds: u32,
    pub verification_delay: Duration,
    pub max_retries: u32,
}

impl Default for RaceConfig {
    /// Coupon redemption by parallel burst of ten `POST`s, two warm-up
    /// rounds, half a second before verifying, three retries.
    fn default() -> (c: Self)
        ensures
            c.target_type == RaceTarget::CouponRedemption,
            c.strategy == DeliveryStrategy::ParallelBurst,
            c.burst_size == 10,
            c.endpoint@ == Seq::<char>::empty(),
            c.method@ == "POST"@,
            c.headers@.len() == 0,
            c.body is None,
            c.warmup_rounds == 2,
            c.max_retries == 3,
    {
        RaceConfig {
            target_type: RaceTarget::CouponRedemption,
            strategy: DeliveryStrategy::ParallelBurst,
            burst_size: 10,
            endpoint: String::new(),
            method: String::from_str("POST"),
            headers: Vec::new(),
            body: None,
            warmup_rounds: 2,
            verification_delay: duration_from_millis(500),
            max_retries: 3,
        }
    }
}

/// One request of a race burst.
#[derive(Debug, Clone)]
pub struct RaceRequest {
    pub index: u32,
    pub method: String,
    pub path: String,
    pub headers: Vec<(String, String)>,
    pub body: Option<Vec<u8>>,
}

/// The raw HTTP/1.1 bytes of a request; everything before `boundary_offset`
/// can be sent ahead, the rest held for a synchronized release.
#[derive(Debug, Clone)]
pub struct RawHttpRequest {
    pub bytes: Vec<u8>,
    pub boundary_offset: usize,
}

/// The result of one race burst.
#[derive(Debug, Clone)]
pub struct RaceBurstResult {
    pub burst_index: u32,
    pub strategy: DeliveryStrategy,
    pub request_count: u32,
    pub success_count: u32,
    pub response_statuses: Vec<u16>,
    pub timing_spread_us: u64,
    pub anomalies: Vec<RaceAnomaly>,
}

/// An anomaly seen during race testing.
#[derive(Debug, Clone)]
pub enum RaceAnomaly {
    MultipleSuccesses { expected_max: u32, actual: u32 },
    StateInconsistency { description: String },
    ResponseDivergence { status_a: u16, status_b: u16 },
    LockContention { fast_ms: u64, slow_ms: u64 },
}

/// A `RaceAnomaly` with its text as a character sequence.
pub enum RaceAnomalyModel {
    MultipleSuccesses { expected_max: u32, actual: u32 },
    StateInconsistency { description: Seq<char> },
    ResponseDivergence { status_a: u16, status_b: u16 },
    LockContention { fast_ms: u64, slow_ms: u64 },
}

impl View for RaceAnomaly {
    type V = RaceAnomalyModel;

    open spec fn view(&self) -> RaceAnomalyModel {
        match self {
            RaceAnomaly::MultipleSuccesses { expected_max, actual } => RaceAnomalyModel::MultipleSuccesses {
                expected_max: *expected_max,
                actual: *actual,
            },
            RaceAnomaly::StateInconsistency { description } => RaceAnomalyModel::StateInconsistency {
                description: description@,
            },
            RaceAnomaly::ResponseDivergence { status_a, status_b } => RaceAnomalyModel::ResponseDivergence {
                status_a: *status_a,
                status_b: *status_b,
            },
            RaceAnomaly::LockContention { fast_ms, slow_ms } => RaceAnomalyModel::LockContention {
                fast_ms: *fast_ms,
                slow_ms: *slow_ms,
            },
        }
    }
}

pub open spec fn anomaly_views(v: Seq<RaceAnomaly>) -> Seq<RaceAnomalyModel> {
    v.map_values(|a: RaceAnomaly| a@)
}

impl RaceAnomalyModel {
    /// The anomaly's description.
    pub open spec fn text(self) -> Seq<char> {
        match self {
            RaceAnomalyModel::MultipleSuccesses { expected_max, actual } => "multiple successes: expected max "@
                + decimal(expected_max as nat) + ", got "@ + decimal(actual as nat),
            RaceAnomalyModel::StateInconsistency { description } => "state inconsistency: "@ + description,
            RaceAnomalyModel::ResponseDivergence { status_a, status_b } => "response divergence: "@
                + decimal(status_a as nat) + " vs "@ + decimal(status_b as nat),
            RaceAnomalyModel::LockContention { fast_ms, slow_ms } => "lock contention: "@ + decimal(fast_ms as nat)
                + "ms vs "@ + decimal(slow_ms as nat) + "ms"@,
        }
    }
}

impl RaceAnomaly {
    /// Renders the anomaly's description.
    pub fn to_string(&self) -> (s: String)
        ensures
            s@ == self@.text(),
    {
        let mut out: Vec<char> = Vec::new();
        match self {
            RaceAnomaly::MultipleSuccesses { expected_max, actual } => {
                push_str(&mut out, "multiple successes: expected max ");
                push_decimal(&mut out, *expected_max as u64);
                push_str(&mut out, ", got ");
                push_decimal(&mut out, *actual as u64);
            },
            RaceAnomaly::StateInconsistency { description } => {
                push_str(&mut out, "state inconsistency: ");
                push_str(&mut out, description.as_str());
            },
            RaceAnomaly::ResponseDivergence { status_a, status_b } => {
                push_str(&mut out, "response divergence: ");
                push_decimal(&mut out, *status_a as u64);
                push_str(&mut out, " vs ");
                push_decimal(&mut out, *status_b as u64);
            },
            RaceAnomaly::LockContention { fast_ms, slow_ms } => {
                push_str(&mut out, "lock contention: ");
                push_decimal(&mut out, *fast_ms);
                push_str(&mut out, "ms vs ");
                push_decimal(&mut out, *slow_ms);
                push_str(&mut out, "ms");
            },
        }
        assert(out@ =~= self@.text());
        string_of(out.as_slice())
    }
}

/// Header pairs as character sequences.
pub open spec fn header_views(hs: Seq<(String, String)>) -> Seq<(Seq<char>, Seq<char>)> {
    hs.map_values(|h: (String, String)| (h.0@, h.1@))
}

/// An optional body as bytes.
pub open spec fn body_view(b: Option<Vec<u8>>) -> Option<Seq<u8>> {
    match b {
        Some(v) => Some(v@),
        None => None,
    }
}

/// A copy of header pairs.
fn copy_headers(hs: &Vec<(String, String)>) -> (r: Vec<(String, String)>)
    ensures
        header_views(r@) == header_views(hs@),
{
    let mut r: Vec<(String, String)> = Vec::new();
    let mut i: usize = 0;
    while i < hs.len()
        invariant
            i <= hs@.len(),
            header_views(r@) == header_views(hs@).take(i as int),
        decreases hs.len() - i,
    {
        let k = hs[i].0.clone();
        let v = hs[i].1.clone();
        let ghost before = r@;
        r.push((k, v));
        assert(header_views(r@) =~= header_views(before).push((hs@[i as int].0@, hs@[i as int].1@)));
        assert(header_views(hs@).take(i + 1) =~= header_views(hs@).take(i as int).push(header_views(hs@)[i as int]));
        i += 1;
    }
    assert(header_views(hs@).take(i as int) =~= header_views(hs@));
    r
}

/// A copy of bytes.
fn copy_bytes(b: &[u8]) -> (r: Vec<u8>)
    ensures
        r@ == b@,
{
    let mut r: Vec<u8> = Vec::new();
    let mut i: usize = 0;
    while i < b.len()
        invariant
            i <= b@.len(),
            r@ == b@.take(i as int),
        decreases b.len() - i,
    {
        r.push(b[i]);
        assert(b@.take(i + 1) =~= b@.take(i as int).push(b@[i as int]));
        i += 1;
    }
    assert(b@.take(i as int) =~= b@);
    r
}

/// A copy of an optional body.
fn copy_body(b: &Option<Vec<u8>>) -> (r: Option<Vec<u8>>)
    ensures
        body_view(r) == body_view(*b),
{
    match b {
        Some(v) => Some(copy_bytes(v.as_slice())),
        None => None,
    }
}

/// `burst_size` copies of the configured request, numbered from zero.
pub fn build_race_batch(config: &RaceConfig) -> (batch: Vec<RaceRequest>)
    ensures
        batch@.len() == config.burst_size,
        forall|i: int| 0 <= i < batch@.len() ==> {
            &&& (#[trigger] batch@[i]).index == i
            &&& batch@[i].method@ == config.method@
            &&& batch@[i].path@ == config.endpoint@
            &&& header_views(batch@[i].headers@) == header_views(config.headers@)
            &&& body_view(batch@[i].body) == body_view(config.body)
        },
{
    let mut batch: Vec<RaceRequest> = Vec::new();
    let mut i: u32 = 0;
    while i < config.burst_size
        invariant
            i <= config.burst_size,
            batch@.len() == i,
            forall|k: int| 0 <= k < batch@.len() ==> {
                &&& (#[trigger] batch@[k]).index == k
                &&& batch@[k].method@ == config.method@
                &&& batch@[k].path@ == config.endpoint@
                &&& header_views(batch@[k].headers@) == header_views(config.headers@)
                &&& body_view(batch@[k].body) == body_view(config.body)
            },
        decreases config.burst_size - i,
    {
        batch.push(RaceRequest {
            index: i,
            method: config.method.clone(),
            path: config.endpoint.clone(),
            headers: copy_headers(&config.headers),
            body: copy_body(&config.body),
        });
        i += 1;
    }
    batch
}

/// The header lines of a request, `name: value` each ending in CRLF.
pub open spec fn header_lines(hs: Seq<(Seq<char>, Seq<char>)>) -> Seq<char>
    decreases hs.len(),
{
    if hs.len() == 0 {
        Seq::empty()
    } else {
        header_lines(hs.drop_last()) + hs.last().0 + ": "@ + hs.last().1 + "\r\n"@
    }
}

/// The text of a request up to its body: the request line, `Host`, the
/// headers, `Content-Length` when there is a body, and the empty line.
pub open spec fn request_head(
    method: Seq<char>,
    path: Seq<char>,
    host: Seq<char>,
    hs: Seq<(Seq<char>, Seq<char>)>,
    body_len: Option<nat>,
) -> Seq<char> {
    method + " "@ + path + " HTTP/1.1\r\n"@ + "Host: "@ + host + "\r\n"@ + header_lines(hs) + match body_len {
        Some(n) => "Content-Length: "@ + decimal(n) + "\r\n"@ + "\r\n"@,
        None => "\r\n"@,
    }
}

/// The bytes of a request: its head in UTF-8, then its body.
pub open spec fn serialized(request: RaceRequest, host: Seq<char>) -> Seq<u8> {
    let body_len = match body_view(request.body) {
        Some(b) => Some(b.len()),
        None => None,
    };
    vstd::utf8::encode_utf8(request_head(request.method@, request.path@, host, header_views(request.headers@), body_len))
        + match body_view(request.body) {
        Some(b) => b,
        None => Seq::empty(),
    }
}

/// Appends the characters of `s` to `out`.
fn push_string_chars(out: &mut Vec<char>, s: &String)
    ensures
        final(out)@ == old(out)@ + s@,
{
    push_str(out, s.as_str());
}

/// The raw HTTP/1.1 form of a request sent to `host`; the boundary is the
/// last byte.
pub fn serialize_http11(request: &RaceRequest, host: &str) -> (raw: RawHttpRequest)
    ensures
        raw.bytes@ == serialized(*request, host@),
        raw.boundary_offset == if raw.bytes@.len() > 0 { raw.bytes@.len() - 1 } else { 0 },
{
    let mut head: Vec<char> = Vec::new();
    push_string_chars(&mut head, &request.method);
    push_str(&mut head, " ");
    push_string_chars(&mut head, &request.path);
    push_str(&mut head, " HTTP/1.1\r\n");
    push_str(&mut head, "Host: ");
    push_str(&mut head, host);
    push_str(&mut head, "\r\n");
    let ghost before_headers = head@;
    let ghost hv = header_views(request.headers@);
    let mut i: usize = 0;
    while i < request.headers.len()
        invariant
            hv == header_views(request.headers@),
            i <= hv.len(),
            head@ == before_headers + header_lines(hv.take(i as int)),
        decreases request.headers.len() - i,
    {
        push_string_chars(&mut head, &request.headers[i].0);
        push_str(&mut head, ": ");
        push_string_chars(&mut head, &request.headers[i].1);
        push_str(&mut head, "\r\n");
        assert(hv.take(i + 1).drop_last() =~= hv.take(i as int));
        assert(head@ =~= before_headers + header_lines(hv.take(i + 1)));
        i += 1;
    }
    assert(hv.take(i as int) =~= hv);
    match &request.body {
        Some(body) => {
            push_str(&mut head, "Content-Length: ");
            push_decimal(&mut head, body.len() as u64);
            push_str(&mut head, "\r\n");
            push_str(&mut head, "\r\n");
        },
        None => {
            push_str(&mut head, "\r\n");
        },
    }
    let ghost body_len = match body_view(request.body) {
        Some(b) => Some(b.len()),
        None => None,
    };
    assert(head@ =~= request_head(request.method@, request.path@, host@, hv, body_len));
    let text = string_of(head.as_slice());
    let mut bytes = copy_bytes(text.as_str().as_bytes());
    match &request.body {
        Some(body) => {
            let mut b = copy_bytes(body.as_slice());
            bytes.append(&mut b);
        },
        None => {
            assert(bytes@ =~= bytes@ + Seq::<u8>::empty());
        },
    }
    let n = bytes.len();
    let boundary = if n > 0 { n - 1 } else { 0 };
    RawHttpRequest { bytes, boundary_offset: boundary }
}

/// The total length of the raw requests.
pub open spec fn total_length(rs: Seq<RawHttpRequest>) -> nat
    decreases rs.len(),
{
    if rs.len() == 0 {
        0
    } else {
        total_length(rs.drop_last()) + rs.last().bytes@.len()
    }
}

/// The raw requests one after another.
pub open spec fn concatenated(rs: Seq<RawHttpRequest>) -> Seq<u8>
    decreases rs.len(),
{
    if rs.len() == 0 {
        Seq::empty()
    } else {
        concatenated(rs.drop_last()) + rs.last().bytes@
    }
}

proof fn lemma_total_grows(rs: Seq<RawHttpRequest>, k: int)
    requires
        0 <= k <= rs.len(),
    ensures
        total_length(rs.take(k)) <= total_length(rs),
    decreases rs.len() - k,
{
    if k < rs.len() {
        lemma_total_grows(rs, k + 1);
        assert(rs.take(k + 1).drop_last() =~= rs.take(k));
    } else {
        assert(rs.take(k) =~= rs);
    }
}

/// The requests packed into one buffer, when together they fit in
/// `MAX_SINGLE_PACKET_SIZE` bytes.
pub fn build_single_packet(requests: &[RawHttpRequest]) -> (packet: Option<Vec<u8>>)
    ensures
        total_length(requests@) <= MAX_SINGLE_PACKET_SIZE ==> (packet matches Some(p) && p@ == concatenated(requests@)),
        total_length(requests@) > MAX_SINGLE_PACKET_SIZE ==> packet is None,
{
    let mut total: usize = 0;
    let mut i: usize = 0;
    while i < requests.len()
        invariant
            i <= requests@.len(),
            total == total_length(requests@.take(i as int)),
            total <= MAX_SINGLE_PACKET_SIZE,
        decreases requests.len() - i,
    {
        assert(requests@.take(i + 1).drop_last() =~= requests@.take(i as int));
        let n = requests[i].bytes.len();
        if n > MAX_SINGLE_PACKET_SIZE - total {
            proof { lemma_total_grows(requests@, i + 1); }
            return None;
        }
        total = total + n;
        i += 1;
    }
    assert(requests@.take(i as int) =~= requests@);
    let mut packet: Vec<u8> = Vec::new();
    let mut j: usize = 0;
    while j < requests.len()
        invariant
            j <= requests@.len(),
            packet@ == concatenated(requests@.take(j as int)),
        decreases requests.len() - j,
    {
        assert(requests@.take(j + 1).drop_last() =~= requests@.take(j as int));
        let mut b = copy_bytes(requests[j].bytes.as_slice());
        packet.append(&mut b);
        j += 1;
    }
    assert(requests@.take(j as int) =~= requests@);
    Some(packet)
}

/// The delivery for `burst_size` requests of `request_size` bytes: one
/// packet when they fit in `MAX_SINGLE_PACKET_SIZE`, last-byte
/// synchronization up to twenty requests, a parallel burst beyond.
pub fn recommend_strategy(request_size: usize, burst_size: u32) -> (s: DeliveryStrategy)
    requires
        request_size * burst_size <= usize::MAX,
    ensures
        s == if request_size * burst_size <= MAX_SINGLE_PACKET_SIZE {
            DeliveryStrategy::SinglePacket
        } else if burst_size <= 20 {
            DeliveryStrategy::LastByte
        } else {
            DeliveryStrategy::ParallelBurst
        },
{
    let total_size = request_size * (burst_size as usize);
    if total_size <= MAX_SINGLE_PACKET_SIZE {
        DeliveryStrategy::SinglePacket
    } else if burst_size <= 20 {
        DeliveryStrategy::LastByte
    } else {
        DeliveryStrategy::ParallelBurst
    }
}

/// The first status of `st` that differs from `a`.
pub open spec fn other_status(st: Seq<u16>, a: u16) -> Option<u16> {
    if exists|i: int| 0 <= i < st.len() && st[i] != a {
        Some(st[choose|i: int| 0 <= i < st.len() && st[i] != a && forall|j: int| 0 <= j < i ==> st[j] == a])
    } else {
        None
    }
}

/// The anomalies of a burst: more successes than expected, and responses
/// that differ, reported by their first status and the first status that
/// differs from it.
pub open spec fn anomalies_of(statuses: Seq<u16>, success_count: u32, expected_max: u32) -> Seq<RaceAnomalyModel> {
    (if success_count > expected_max {
        seq![RaceAnomalyModel::MultipleSuccesses { expected_max, actual: success_count }]
    } else {
        Seq::empty()
    }) + if statuses.len() > 0 {
        match other_status(statuses, statuses[0]) {
            Some(b) => seq![RaceAnomalyModel::ResponseDivergence { status_a: statuses[0], status_b: b }],
            None => Seq::empty(),
        }
    } else {
        Seq::empty()
    }
}

/// Detects more successes than `expected_max_successes`, and responses
/// that differ in status.
pub fn detect_anomalies(results: &RaceBurstResult, expected_max_successes: u32) -> (anomalies: Vec<RaceAnomaly>)
    ensures
        anomaly_views(anomalies@) == anomalies_of(results.response_statuses@, results.success_count, expected_max_successes),
{
    let mut anomalies: Vec<RaceAnomaly> = Vec::new();
    if results.success_count > expected_max_successes {
        anomalies.push(RaceAnomaly::MultipleSuccesses {
            expected_max: expected_max_successes,
            actual: results.success_count,
        });
    }
    let st = &results.response_statuses;
    let ghost before = anomaly_views(anomalies@);
    if st.len() > 0 {
        let a = st[0];
        let mut i: usize = 1;
        while i < st.len()
            invariant
                1 <= i <= st@.len(),
                a == st@[0],
                st@ == results.response_statuses@,
                anomaly_views(anomalies@) == before,
                before == (if results.success_count > expected_max_successes {
                    seq![RaceAnomalyModel::MultipleSuccesses { expected_max: expected_max_successes, actual: results.success_count }]
                } else {
                    Seq::<RaceAnomalyModel>::empty()
                }),
                forall|j: int| 0 <= j < i ==> st@[j] == a,
            decreases st.len() - i,
        {
            if st[i] != a {
                proof {
                    let f = choose|f: int| 0 <= f < st@.len() && st@[f] != a && forall|j: int| 0 <= j < f ==> st@[j] == a;
                    assert(0 <= i < st@.len() && st@[i as int] != a && forall|j: int| 0 <= j < i ==> st@[j] == a);
                    if f < i {
                        assert(st@[f] == a);
                    } else if f > i {
                        assert(st@[i as int] == a);
                    }
                }
                anomalies.push(RaceAnomaly::ResponseDivergence { status_a: a, status_b: st[i] });
                assert(anomaly_views(anomalies@) =~= anomalies_of(results.response_statuses@, results.success_count, expected_max_successes));
                return anomalies;
            }
            i += 1;
        }
        assert(other_status(st@, a) is None);
    }
    assert(anomaly_views(anomalies@) =~= anomalies_of(results.response_statuses@, results.success_count, expected_max_successes));
    anomalies
}

/// The line a header is written as: name, `": "`, value, CRLF.
pub open spec fn header_line(h: (Seq<char>, Seq<char>)) -> Seq<char> {
    h.0 + ": "@ + h.1 + "\r\n"@
}

/// The header block is the headers' lines, built from the last header back.
proof fn lemma_header_lines_alt(hs: Seq<(Seq<char>, Seq<char>)>)
    ensures
        header_lines(hs) == hs.map_values(|h: (Seq<char>, Seq<char>)| header_line(h)).flatten_alt(),
    decreases hs.len(),
{
    let lines = hs.map_values(|h: (Seq<char>, Seq<char>)| header_line(h));
    if hs.len() > 0 {
        lemma_header_lines_alt(hs.drop_last());
        assert(lines.drop_last() =~= hs.drop_last().map_values(|h: (Seq<char>, Seq<char>)| header_line(h)));
        assert(header_lines(hs) =~= header_lines(hs.drop_last()) + header_line(hs.last()));
    }
}

/// A serialized request writes every header, in order, as one line
/// `name: value` and CRLF, and nothing else, between the `Host` line and
/// the `Content-Length` line or the blank line that ends the head.
pub proof fn law_request_head_writes_every_header(
    method: Seq<char>,
    path: Seq<char>,
    host: Seq<char>,
    hs: Seq<(Seq<char>, Seq<char>)>,
    body_len: Option<nat>,
)
    ensures
        request_head(method, path, host, hs, body_len) == method + " "@ + path + " HTTP/1.1\r\n"@ + "Host: "@ + host
            + "\r\n"@ + hs.map_values(|h: (Seq<char>, Seq<char>)| h.0 + ": "@ + h.1 + "\r\n"@).flatten() + match body_len {
            Some(n) => "Content-Length: "@ + decimal(n) + "\r\n"@ + "\r\n"@,
            None => "\r\n"@,
        },
{
    let lines = hs.map_values(|h: (Seq<char>, Seq<char>)| header_line(h));
    lemma_header_lines_alt(hs);
    lines.lemma_flatten_and_flatten_alt_are_equivalent();
    assert(lines =~= hs.map_values(|h: (Seq<char>, Seq<char>)| h.0 + ": "@ + h.1 + "\r\n"@));
}

} // verus!
