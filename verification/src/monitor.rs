//! Runtime metrics, latency histograms, request tracing and file-size text.

use vstd::prelude::*;
use std::time::Instant;
use crate::strutil::{trim, trim_spec, chars_of, starts_with_chars, is_prefix, push_str, push_char, push_u64_decimal,
    nat_decimal};

verus! {

broadcast use vstd::string::group_string_axioms;

/// How logging is set up.
#[derive(Debug, Clone)]
pub struct MonitorConfig {
    /// The level: trace, debug, info, warn or error.
    pub level: String,
    /// The format: text or json.
    pub format: String,
    /// Whether requests get trace ids.
    pub tracing_enabled: bool,
}

impl Default for MonitorConfig {
    fn default() -> (r: Self)
        ensures
            r.level@ == "info"@,
            r.format@ == "text"@,
            r.tracing_enabled,
    {
        MonitorConfig { level: String::from_str("info"), format: String::from_str("text"), tracing_enabled: true }
    }
}

/// Counters of queries, operations, time, connections, events and rows.
#[derive(Debug, Default, Clone, Copy)]
pub struct Metrics {
    pub total_queries: u64,
    pub success_queries: u64,
    pub failed_queries: u64,
    pub create_count: u64,
    pub insert_count: u64,
    pub select_count: u64,
    pub update_count: u64,
    pub delete_count: u64,
    pub total_time_us: u64,
    pub slowest_us: u64,
    pub fastest_us: u64,
    pub active_connections: i64,
    pub total_connections: u64,
    pub system_events: u64,
    pub error_events: u64,
    pub rows_read: u64,
    pub rows_written: u64,
}

/// `a + b`, wrapping around at 2^64.
pub open spec fn wrap_add(a: u64, b: u64) -> u64 {
    if a as int + b as int >= 18446744073709551616 { (a as int + b as int - 18446744073709551616) as u64 } else { (a + b) as u64 }
}

/// `a + d`, wrapping around at the bounds of `i64`.
pub open spec fn wrap_add_i64(a: i64, d: int) -> i64 {
    let s = a as int + d;
    if s > i64::MAX { (s - 18446744073709551616) as i64 } else if s < i64::MIN { (s + 18446744073709551616) as i64 } else { s as i64 }
}

/// The upper-case form of a string, as `str::to_uppercase` gives it.
pub uninterp spec fn uppercase(s: Seq<char>) -> Seq<char>;

/// `str::to_uppercase`.
#[verifier::external_body]
pub(crate) fn to_upper(s: &str) -> (r: String)
    ensures
        r@ == uppercase(s@),
{
    s.to_uppercase()
}

/// The kind of statement SQL text starts with (after trimming and
/// upper-casing): 0 CREATE, 1 INSERT, 2 SELECT, 3 UPDATE, 4 DELETE, 5 other.
pub open spec fn statement_kind(sql: Seq<char>) -> int {
    let u = uppercase(trim_spec(sql));
    if is_prefix("CREATE"@, u) { 0 }
    else if is_prefix("INSERT"@, u) { 1 }
    else if is_prefix("SELECT"@, u) { 2 }
    else if is_prefix("UPDATE"@, u) { 3 }
    else if is_prefix("DELETE"@, u) { 4 }
    else { 5 }
}

/// The metrics after recording a query: counted as a success or failure,
/// its time added, and the fastest and slowest times updated (the first
/// query recorded sets the fastest time whatever it is).
pub open spec fn query_recorded(m: Metrics, success: bool, elapsed_us: u64) -> Metrics {
    Metrics {
        total_queries: wrap_add(m.total_queries, 1),
        success_queries: if success { wrap_add(m.success_queries, 1) } else { m.success_queries },
        failed_queries: if success { m.failed_queries } else { wrap_add(m.failed_queries, 1) },
        total_time_us: wrap_add(m.total_time_us, elapsed_us),
        fastest_us: if m.total_queries == 0 || elapsed_us < m.fastest_us { elapsed_us } else { m.fastest_us },
        slowest_us: if elapsed_us > m.slowest_us { elapsed_us } else { m.slowest_us },
        ..m
    }
}

/// Every query counts once, as a success or as a failure: recording a query
/// keeps the total equal to the successes plus the failures (while the total
/// has not reached the largest `u64`).
pub proof fn law_query_counts(m: Metrics, success: bool, elapsed_us: u64)
    requires
        m.total_queries == m.success_queries + m.failed_queries,
        m.total_queries < u64::MAX,
    ensures
        query_recorded(m, success, elapsed_us).total_queries
            == query_recorded(m, success, elapsed_us).success_queries + query_recorded(m, success, elapsed_us).failed_queries,
{
}

/// Once a query is recorded the fastest time does not exceed the slowest,
/// and recording more keeps it so (while the count of queries has not
/// wrapped around).
pub proof fn law_fastest_within_slowest(m: Metrics, success: bool, elapsed_us: u64)
    requires
        m.total_queries == 0 || m.fastest_us <= m.slowest_us,
    ensures
        query_recorded(m, success, elapsed_us).fastest_us <= query_recorded(m, success, elapsed_us).slowest_us,
{
}

/// The metrics after recording the queries in order, each a (success, time)
/// pair.
pub open spec fn queries_recorded(m: Metrics, qs: Seq<(bool, u64)>) -> Metrics
    decreases qs.len(),
{
    if qs.len() == 0 { m } else { query_recorded(queries_recorded(m, qs.drop_last()), qs.last().0, qs.last().1) }
}

/// The smallest time among the queries (0 for none).
pub open spec fn min_time(qs: Seq<(bool, u64)>) -> u64
    decreases qs.len(),
{
    if qs.len() == 0 { 0 } else if qs.len() == 1 { qs[0].1 } else {
        let m = min_time(qs.drop_last());
        if qs.last().1 < m { qs.last().1 } else { m }
    }
}

/// The largest time among the queries (0 for none).
pub open spec fn max_time(qs: Seq<(bool, u64)>) -> u64
    decreases qs.len(),
{
    if qs.len() == 0 { 0 } else {
        let m = max_time(qs.drop_last());
        if qs.last().1 > m { qs.last().1 } else { m }
    }
}

/// From fresh metrics, after any queries (fewer than the largest `u64`),
/// the count is their number, the fastest time is the smallest of their
/// times and the slowest the largest.
pub proof fn law_fastest_and_slowest(qs: Seq<(bool, u64)>)
    requires
        qs.len() < u64::MAX,
    ensures
        queries_recorded(Metrics::zero(), qs).total_queries == qs.len(),
        queries_recorded(Metrics::zero(), qs).fastest_us == min_time(qs),
        queries_recorded(Metrics::zero(), qs).slowest_us == max_time(qs),
    decreases qs.len(),
{
    if qs.len() > 0 {
        law_fastest_and_slowest(qs.drop_last());
    }
}

impl Metrics {
    /// All counters at zero.
    pub fn new() -> (r: Self)
        ensures
            r == Metrics::zero(),
    {
        Metrics {
            total_queries: 0, success_queries: 0, failed_queries: 0, create_count: 0, insert_count: 0,
            select_count: 0, update_count: 0, delete_count: 0, total_time_us: 0, slowest_us: 0, fastest_us: 0,
            active_connections: 0, total_connections: 0, system_events: 0, error_events: 0, rows_read: 0,
            rows_written: 0,
        }
    }

    /// All counters at zero.
    pub open spec fn zero() -> Metrics {
        Metrics {
            total_queries: 0, success_queries: 0, failed_queries: 0, create_count: 0, insert_count: 0,
            select_count: 0, update_count: 0, delete_count: 0, total_time_us: 0, slowest_us: 0, fastest_us: 0,
            active_connections: 0, total_connections: 0, system_events: 0, error_events: 0, rows_read: 0,
            rows_written: 0,
        }
    }

    /// Records a query: counts it as a success or failure, adds its time, and
    /// updates the fastest (0 meaning none yet) and slowest times.
    pub fn record_query(&mut self, success: bool, elapsed_us: u64)
        ensures
            *final(self) == query_recorded(*old(self), success, elapsed_us),
    {
        let first = self.total_queries == 0;
        self.total_queries = self.total_queries.wrapping_add(1);
        if success {
            self.success_queries = self.success_queries.wrapping_add(1);
        } else {
            self.failed_queries = self.failed_queries.wrapping_add(1);
        }
        self.total_time_us = self.total_time_us.wrapping_add(elapsed_us);
        self.update_extremes(elapsed_us, first);
    }

    fn update_extremes(&mut self, elapsed_us: u64, first: bool)
        ensures
            *final(self) == (Metrics {
                fastest_us: if first || elapsed_us < old(self).fastest_us { elapsed_us } else { old(self).fastest_us },
                slowest_us: if elapsed_us > old(self).slowest_us { elapsed_us } else { old(self).slowest_us },
                ..*old(self)
            }),
    {
        if first || elapsed_us < self.fastest_us {
            self.fastest_us = elapsed_us;
        }
        if elapsed_us > self.slowest_us {
            self.slowest_us = elapsed_us;
        }
    }

    /// Counts a statement by the kind its text starts with.
    pub fn record_statement(&mut self, sql: &str)
        ensures
            *final(self) == (Metrics {
                create_count: if statement_kind(sql@) == 0 { wrap_add(old(self).create_count, 1) } else { old(self).create_count },
                insert_count: if statement_kind(sql@) == 1 { wrap_add(old(self).insert_count, 1) } else { old(self).insert_count },
                select_count: if statement_kind(sql@) == 2 { wrap_add(old(self).select_count, 1) } else { old(self).select_count },
                update_count: if statement_kind(sql@) == 3 { wrap_add(old(self).update_count, 1) } else { old(self).update_count },
                delete_count: if statement_kind(sql@) == 4 { wrap_add(old(self).delete_count, 1) } else { old(self).delete_count },
                ..*old(self)
            }),
    {
        let t = trim(sql);
        let u = to_upper(t.as_str());
        let v = chars_of(u.as_str());
        if starts_with_chars(&v, "CREATE") {
            self.create_count = self.create_count.wrapping_add(1);
        } else if starts_with_chars(&v, "INSERT") {
            self.insert_count = self.insert_count.wrapping_add(1);
        } else if starts_with_chars(&v, "SELECT") {
            self.select_count = self.select_count.wrapping_add(1);
        } else if starts_with_chars(&v, "UPDATE") {
            self.update_count = self.update_count.wrapping_add(1);
        } else if starts_with_chars(&v, "DELETE") {
            self.delete_count = self.delete_count.wrapping_add(1);
        }
    }

    /// Records an opened connection.
    pub fn record_connection_open(&mut self)
        ensures
            *final(self) == (Metrics {
                active_connections: wrap_add_i64(old(self).active_connections, 1),
                total_connections: wrap_add(old(self).total_connections, 1),
                ..*old(self)
            }),
    {
        self.active_connections = self.active_connections.wrapping_add(1);
        self.total_connections = self.total_connections.wrapping_add(1);
    }

    /// Records a closed connection.
    pub fn record_connection_close(&mut self)
        ensures
            *final(self) == (Metrics { active_connections: wrap_add_i64(old(self).active_connections, -1), ..*old(self) }),
    {
        self.active_connections = self.active_connections.wrapping_sub(1);
    }

    /// Records rows read.
    pub fn record_rows_read(&mut self, count: u64)
        ensures
            *final(self) == (Metrics { rows_read: wrap_add(old(self).rows_read, count), ..*old(self) }),
    {
        self.rows_read = self.rows_read.wrapping_add(count);
    }

    /// Records rows written.
    pub fn record_rows_written(&mut self, count: u64)
        ensures
            *final(self) == (Metrics { rows_written: wrap_add(old(self).rows_written, count), ..*old(self) }),
    {
        self.rows_written = self.rows_written.wrapping_add(count);
    }

    /// Records a system event.
    pub fn record_system_event(&mut self)
        ensures
            *final(self) == (Metrics { system_events: wrap_add(old(self).system_events, 1), ..*old(self) }),
    {
        self.system_events = self.system_events.wrapping_add(1);
    }

    /// Records an error event.
    pub fn record_error_event(&mut self)
        ensures
            *final(self) == (Metrics { error_events: wrap_add(old(self).error_events, 1), ..*old(self) }),
    {
        self.error_events = self.error_events.wrapping_add(1);
    }

    /// A copy of the counters.
    pub fn snapshot(&self) -> (r: MetricsSnapshot)
        ensures
            r == (MetricsSnapshot {
                total_queries: self.total_queries,
                success_queries: self.success_queries,
                failed_queries: self.failed_queries,
                create_count: self.create_count,
                insert_count: self.insert_count,
                select_count: self.select_count,
                update_count: self.update_count,
                delete_count: self.delete_count,
                total_time_us: self.total_time_us,
                slowest_us: self.slowest_us,
                fastest_us: self.fastest_us,
                active_connections: self.active_connections,
                total_connections: self.total_connections,
                system_events: self.system_events,
                error_events: self.error_events,
                rows_read: self.rows_read,
                rows_written: self.rows_written,
            }),
    {
        MetricsSnapshot {
            total_queries: self.total_queries,
            success_queries: self.success_queries,
            failed_queries: self.failed_queries,
            create_count: self.create_count,
            insert_count: self.insert_count,
            select_count: self.select_count,
            update_count: self.update_count,
            delete_count: self.delete_count,
            total_time_us: self.total_time_us,
            slowest_us: self.slowest_us,
            fastest_us: self.fastest_us,
            active_connections: self.active_connections,
            total_connections: self.total_connections,
            system_events: self.system_events,
            error_events: self.error_events,
            rows_read: self.rows_read,
            rows_written: self.rows_written,
        }
    }
}

/// A copy of the counters at one moment.
#[derive(Debug, Clone, Copy)]
pub struct MetricsSnapshot {
    pub total_queries: u64,
    pub success_queries: u64,
    pub failed_queries: u64,
    pub create_count: u64,
    pub insert_count: u64,
    pub select_count: u64,
    pub update_count: u64,
    pub delete_count: u64,
    pub total_time_us: u64,
    pub slowest_us: u64,
    pub fastest_us: u64,
    pub active_connections: i64,
    pub total_connections: u64,
    pub system_events: u64,
    pub error_events: u64,
    pub rows_read: u64,
    pub rows_written: u64,
}

/// The upper limits of the latency buckets, in microseconds (0.1 ms to 5 s).
pub open spec fn bucket_limit(i: int) -> u64 {
    if i == 0 { 100 } else if i == 1 { 500 } else if i == 2 { 1000 } else if i == 3 { 5000 }
    else if i == 4 { 10000 } else if i == 5 { 50000 } else if i == 6 { 100000 } else if i == 7 { 500000 }
    else if i == 8 { 1000000 } else { 5000000 }
}

/// The bucket of a latency: the first whose limit it does not exceed, the
/// last for anything longer.
pub open spec fn bucket_of(us: u64) -> int {
    if us <= 100 { 0 } else if us <= 500 { 1 } else if us <= 1000 { 2 } else if us <= 5000 { 3 }
    else if us <= 10000 { 4 } else if us <= 50000 { 5 } else if us <= 100000 { 6 } else if us <= 500000 { 7 }
    else if us <= 1000000 { 8 } else { 9 }
}

/// The sum of the counts.
pub open spec fn count_sum(c: Seq<u64>) -> int
    decreases c.len(),
{
    if c.len() == 0 { 0 } else { count_sum(c.drop_last()) + c.last() }
}

proof fn lemma_count_sum_update(c: Seq<u64>, i: int, x: u64)
    requires
        0 <= i < c.len(),
    ensures
        count_sum(c.update(i, x)) == count_sum(c) - c[i] + x,
        c[i] <= count_sum(c),
    decreases c.len(),
{
    if i < c.len() - 1 {
        lemma_count_sum_update(c.drop_last(), i, x);
        assert(c.update(i, x).drop_last() =~= c.drop_last().update(i, x));
    } else {
        assert(c.update(i, x).drop_last() =~= c.drop_last());
    }
    lemma_count_sum_nonneg(c.drop_last());
}

proof fn lemma_count_sum_nonneg(c: Seq<u64>)
    ensures
        count_sum(c) >= 0,
    decreases c.len(),
{
    if c.len() > 0 {
        lemma_count_sum_nonneg(c.drop_last());
    }
}

/// Every observation lands in exactly one bucket: observing a latency adds
/// one to its bucket and one to the total, so the bucket counts keep adding
/// up to the total (while the total has not reached the largest `u64`).
pub proof fn law_histogram_total(counts: Seq<u64>, total: u64, elapsed_us: u64)
    requires
        counts.len() == 10,
        count_sum(counts) == total,
        total < u64::MAX,
    ensures
        count_sum(counts.update(bucket_of(elapsed_us), wrap_add(counts[bucket_of(elapsed_us)], 1)))
            == wrap_add(total, 1),
{
    let b = bucket_of(elapsed_us);
    lemma_count_sum_update(counts, b, wrap_add(counts[b], 1));
}

/// Counts of query latencies by bucket.
#[derive(Debug, Clone)]
pub struct LatencyHistogram {
    buckets: Vec<u64>,
    total: u64,
}

/// A copy of a histogram: the bucket limits (microseconds), the counts, and
/// the number of observations.
#[derive(Debug, Clone)]
pub struct HistogramSnapshot {
    pub bucket_limits_us: Vec<u64>,
    pub counts: Vec<u64>,
    pub total: u64,
}

impl LatencyHistogram {
    /// The counts per bucket.
    pub closed spec fn counts(&self) -> Seq<u64> {
        self.buckets@
    }

    /// The number of observations.
    pub closed spec fn observed(&self) -> u64 {
        self.total
    }

    /// The histogram's invariant: one count per bucket.
    pub open spec fn wf(&self) -> bool {
        self.counts().len() == 10
    }

    /// An empty histogram.
    pub fn new() -> (r: Self)
        ensures
            r.wf(),
            r.counts() == Seq::new(10, |i: int| 0u64),
            r.observed() == 0,
    {
        let mut buckets: Vec<u64> = Vec::new();
        let mut i: usize = 0;
        while i < 10
            invariant
                i <= 10,
                buckets@ == Seq::new(i as nat, |j: int| 0u64),
            decreases 10 - i,
        {
            buckets.push(0);
            i += 1;
            assert(buckets@ =~= Seq::new(i as nat, |j: int| 0u64));
        }
        LatencyHistogram { buckets, total: 0 }
    }

    /// Records one latency, in microseconds.
    pub fn observe(&mut self, elapsed_us: u64)
        requires
            old(self).wf(),
        ensures
            final(self).wf(),
            final(self).observed() == wrap_add(old(self).observed(), 1),
            final(self).counts() == old(self).counts().update(bucket_of(elapsed_us),
                wrap_add(old(self).counts()[bucket_of(elapsed_us)], 1)),
    {
        self.total = self.total.wrapping_add(1);
        let b: usize = if elapsed_us <= 100 { 0 } else if elapsed_us <= 500 { 1 } else if elapsed_us <= 1000 { 2 }
            else if elapsed_us <= 5000 { 3 } else if elapsed_us <= 10000 { 4 } else if elapsed_us <= 50000 { 5 }
            else if elapsed_us <= 100000 { 6 } else if elapsed_us <= 500000 { 7 } else if elapsed_us <= 1000000 { 8 }
            else { 9 };
        let c = self.buckets[b].wrapping_add(1);
        self.buckets.set(b, c);
    }

    /// A copy of the histogram.
    pub fn snapshot(&self) -> (r: HistogramSnapshot)
        requires
            self.wf(),
        ensures
            r.bucket_limits_us@ == Seq::new(10, |i: int| bucket_limit(i)),
            r.counts@ == self.counts(),
            r.total == self.observed(),
    {
        let mut limits: Vec<u64> = Vec::new();
        limits.push(100);
        limits.push(500);
        limits.push(1000);
        limits.push(5000);
        limits.push(10000);
        limits.push(50000);
        limits.push(100000);
        limits.push(500000);
        limits.push(1000000);
        limits.push(5000000);
        assert(limits@ =~= Seq::new(10, |i: int| bucket_limit(i)));
        let mut counts: Vec<u64> = Vec::new();
        let mut i: usize = 0;
        while i < self.buckets.len()
            invariant
                i <= self.buckets@.len(),
                counts@ == self.buckets@.take(i as int),
            decreases self.buckets.len() - i,
        {
            counts.push(self.buckets[i]);
            i += 1;
            assert(counts@ =~= self.buckets@.take(i as int));
        }
        assert(self.buckets@.take(i as int) =~= self.buckets@);
        HistogramSnapshot { bucket_limits_us: limits, counts, total: self.total }
    }
}

/// 2^53.
pub open spec fn p53() -> nat {
    9007199254740992
}

/// The least shift from `s` on that brings `n` below 2^53.
pub open spec fn shift_from(n: nat, s: nat) -> nat
    decreases 63 - s,
{
    if s >= 63 || n / vstd::arithmetic::power2::pow2(s) < p53() { s } else { shift_from(n, s + 1) }
}

/// `num / den` rounded to the nearest integer, ties to even.
pub open spec fn round_half_even(num: nat, den: nat) -> nat {
    let q = num / den;
    let r = num % den;
    if 2 * r > den || (2 * r == den && q % 2 == 1) { q + 1 } else { q }
}

/// The value of `n as f64`: `n` rounded to 53 significant bits, ties to even.
pub open spec fn f64_value(n: nat) -> nat {
    let s = shift_from(n, 0);
    round_half_even(n, vstd::arithmetic::power2::pow2(s)) * vstd::arithmetic::power2::pow2(s)
}

/// 1024^k.
pub open spec fn pow1024(k: nat) -> nat {
    if k == 0 { 1 } else if k == 1 { 1024 } else if k == 2 { 1048576 } else if k == 3 { 1073741824 } else { 1099511627776 }
}

/// The unit of a size: how many times (at most 4) it can be divided by 1024
/// and stay at least 1.
pub open spec fn unit_index(f: nat, k: nat) -> nat
    decreases 4 - k,
{
    if k < 4 && f >= pow1024(k + 1) { unit_index(f, k + 1) } else { k }
}

/// The name of a unit.
pub open spec fn unit_name(k: nat) -> Seq<char> {
    if k == 0 { "B"@ } else if k == 1 { "KB"@ } else if k == 2 { "MB"@ } else if k == 3 { "GB"@ } else { "TB"@ }
}

/// A byte count as text: the size in the largest unit (up to TB) in which
/// it is at least 1, with two decimals (rounded half to even), and the unit.
pub open spec fn file_size_text(bytes: u64) -> Seq<char> {
    let f = f64_value(bytes as nat);
    let k = unit_index(f, 0);
    let h = round_half_even(f * 100, pow1024(k));
    nat_decimal(h / 100) + "."@ + seq![crate::strutil::digit_char((h % 100) / 10), crate::strutil::digit_char(h % 10)]
        + " "@ + unit_name(k)
}

/// `bytes as f64`, as an exact integer.
fn f64_of_u64(bytes: u64) -> (f: u128)
    ensures
        f as nat == f64_value(bytes as nat),
        f <= 9007199254740993u128 * 9223372036854775808u128,
{
    proof {
        vstd::arithmetic::power2::lemma2_to64();
        vstd::arithmetic::power2::lemma2_to64_rest();
    }
    let mut s: u64 = 0;
    while s < 63
        invariant
            s <= 63,
            shift_from(bytes as nat, 0) == shift_from(bytes as nat, s as nat),
        ensures
            s <= 63,
            shift_from(bytes as nat, 0) == shift_from(bytes as nat, s as nat),
            s == 63 || (bytes as nat) / vstd::arithmetic::power2::pow2(s as nat) < p53(),
        decreases 63 - s,
    {
        let p = crate::float::pow2_u64(s);
        proof { vstd::arithmetic::power2::lemma_pow2_pos(s as nat); }
        if bytes / p < 9007199254740992u64 {
            break;
        }
        s += 1;
    }
    let p = crate::float::pow2_u64(s);
    proof { vstd::arithmetic::power2::lemma_pow2_pos(s as nat); }
    let q = bytes / p;
    let rem = bytes % p;
    proof {
        vstd::arithmetic::div_mod::lemma_fundamental_div_mod(bytes as int, p as int);
        if s == 63 {
            assert(p == 9223372036854775808u64);
            assert(q <= 1) by (nonlinear_arith)
                requires bytes as int == p as int * (q as int) + (bytes % p) as int, p == 9223372036854775808u64,
                    (bytes % p) >= 0, bytes < 18446744073709551616u128;
        }
        assert(q < 9007199254740992u64);
        assert(shift_from(bytes as nat, 0) == s);
        assert(p <= 9223372036854775808u64) by {
            if s < 63 {
                vstd::arithmetic::power2::lemma_pow2_strictly_increases(s as nat, 63);
            }
        }
        assert((q as u128 + 1) * (p as u128) <= 9007199254740993u128 * 9223372036854775808u128) by (nonlinear_arith)
            requires q < 9007199254740992u64, p <= 9223372036854775808u64;
    }
    let q2: u64 = if (rem as u128) * 2 > p as u128 || ((rem as u128) * 2 == p as u128 && q % 2 == 1) { q + 1 } else { q };
    assert(q2 <= q + 1);
    assert((q2 as u128) * (p as u128) <= (q as u128 + 1) * (p as u128)) by (nonlinear_arith)
        requires q2 <= q + 1;
    let f: u128 = (q2 as u128) * (p as u128);
    assert(f == f64_value(bytes as nat));
    f
}

/// The unit index of a size and 1024 to its power.
fn unit_of(f: u128) -> (r: (u64, u128))
    ensures
        r.0 as nat == unit_index(f as nat, 0),
        r.0 <= 4,
        r.1 as nat == pow1024(r.0 as nat),
        0 < r.1 <= 1099511627776,
{
    let mut k: u64 = 0;
    let mut den: u128 = 1;
    while k < 4 && f >= den * 1024
        invariant
            k <= 4,
            den == pow1024(k as nat),
            den <= 1099511627776,
            unit_index(f as nat, 0) == unit_index(f as nat, k as nat),
        decreases 4 - k,
    {
        k += 1;
        den = den * 1024;
    }
    (k, den)
}

/// `f * 100 / den`, rounded half to even.
fn hundredths(f: u128, den: u128) -> (h: u128)
    requires
        f <= 9007199254740993u128 * 9223372036854775808u128,
        0 < den <= 1099511627776,
    ensures
        h as nat == round_half_even((f * 100) as nat, den as nat),
{
    let num: u128 = f * 100;
    let hq = num / den;
    let hr = num % den;
    if hr * 2 > den || (hr * 2 == den && hq % 2 == 1) { hq + 1 } else { hq }
}

/// A byte count as text (`{:.2}` of the size in B, KB, MB, GB or TB).
pub fn format_file_size(bytes: u64) -> (r: String)
    ensures
        r@ == file_size_text(bytes),
{
    let f = f64_of_u64(bytes);
    let (k, den) = unit_of(f);
    let h = hundredths(f, den);
    let mut out = String::new();
    crate::strutil::push_u128_decimal(&mut out, h / 100);
    push_char(&mut out, '.');
    let frac = (h % 100) as u64;
    crate::strutil::push_u64_decimal(&mut out, frac / 10);
    crate::strutil::push_u64_decimal(&mut out, frac % 10);
    push_char(&mut out, ' ');
    let unit = if k == 0 { "B" } else if k == 1 { "KB" } else if k == 2 { "MB" } else if k == 3 { "GB" } else { "TB" };
    push_str(&mut out, unit);
    proof {
        assert(frac / 10 < 10);
        assert((frac % 10) as nat == (h % 10) as nat);
        assert((frac / 10) as nat == ((h % 100) / 10) as nat);
        assert(nat_decimal((frac / 10) as nat) =~= seq![crate::strutil::digit_char(((h % 100) / 10) as nat)]);
        assert(nat_decimal((frac % 10) as nat) =~= seq![crate::strutil::digit_char((h % 10) as nat)]);
    }
    proof {
        let fs = f64_value(bytes as nat);
        assert(fs == f as nat);
        assert(unit_index(fs, 0) == k as nat);
        let ks = unit_index(fs, 0);
        assert(ks < 5);
        assert(unit@ == unit_name(ks));
        reveal_strlit(".");
        reveal_strlit(" ");
    }
    assert(out@ =~= file_size_text(bytes));
    out
}

#[verifier::external_type_specification]
#[verifier::external_body]
pub struct ExInstant(std::time::Instant);

/// `Instant::now`.
#[verifier::external_body]
fn now() -> (r: Instant)
{
    Instant::now()
}

/// The microseconds elapsed since `start` (`Instant::elapsed` as microseconds).
#[verifier::external_body]
fn micros_since(start: &Instant) -> (r: u128)
{
    start.elapsed().as_micros()
}

/// The hyphenated text of the version-4 UUID made from 128 random bits.
pub uninterp spec fn uuid_v4_text(random: u128) -> Seq<char>;

/// `uuid::Builder::from_random_bytes` on the big-endian bytes of `random`,
/// as hyphenated text: 36 characters with hyphens at 8, 13, 18 and 23 and
/// the version digit 4 at 14.
#[verifier::external_body]
fn uuid_text(random: u128) -> (r: String)
    ensures
        r@ == uuid_v4_text(random),
        r@.len() == 36,
        r@[8] == '-' && r@[13] == '-' && r@[18] == '-' && r@[23] == '-',
        r@[14] == '4',
{
    uuid::Builder::from_random_bytes(random.to_be_bytes()).into_uuid().to_string()
}

/// A request's trace: an id, a start time, an operation name.
#[derive(Debug)]
pub struct TraceContext {
    /// The request's id (empty when tracing is off).
    pub trace_id: String,
    /// When the request started.
    pub start: Instant,
    /// The operation.
    pub operation: String,
    /// Whether tracing is on.
    pub enabled: bool,
}

impl TraceContext {
    /// A trace whose id is the version-4 UUID made from `random` (128
    /// random bits the caller draws).
    pub fn new(operation: &str, random: u128) -> (r: Self)
        ensures
            r.trace_id@ == uuid_v4_text(random),
            r.trace_id@.len() == 36,
            r.operation@ == operation@,
            r.enabled,
    {
        TraceContext { trace_id: uuid_text(random), start: now(), operation: operation.to_owned(), enabled: true }
    }

    /// A trace without an id.
    pub fn new_light(operation: &str) -> (r: Self)
        ensures
            r.trace_id@ == Seq::<char>::empty(),
            r.operation@ == operation@,
            !r.enabled,
    {
        TraceContext { trace_id: String::new(), start: now(), operation: operation.to_owned(), enabled: false }
    }

    /// The microseconds since the trace started (truncated to 64 bits).
    pub fn finish(&self) -> (r: u64)
    {
        micros_since(&self.start) as u64
    }
}

/// Times one SQL statement.
#[derive(Debug)]
pub struct QueryTimer {
    start: Instant,
    sql: String,
    trace: Option<TraceContext>,
}

impl QueryTimer {
    /// The SQL text being timed.
    pub closed spec fn text(&self) -> Seq<char> {
        self.sql@
    }

    /// Starts timing a statement and counts it by kind.
    pub fn new(sql: &str, metrics: &mut Metrics) -> (r: Self)
        ensures
            r.text() == sql@,
            *final(metrics) == (Metrics {
                create_count: if statement_kind(sql@) == 0 { wrap_add(old(metrics).create_count, 1) } else { old(metrics).create_count },
                insert_count: if statement_kind(sql@) == 1 { wrap_add(old(metrics).insert_count, 1) } else { old(metrics).insert_count },
                select_count: if statement_kind(sql@) == 2 { wrap_add(old(metrics).select_count, 1) } else { old(metrics).select_count },
                update_count: if statement_kind(sql@) == 3 { wrap_add(old(metrics).update_count, 1) } else { old(metrics).update_count },
                delete_count: if statement_kind(sql@) == 4 { wrap_add(old(metrics).delete_count, 1) } else { old(metrics).delete_count },
                ..*old(metrics)
            }),
    {
        metrics.record_statement(sql);
        QueryTimer { start: now(), sql: sql.to_owned(), trace: None }
    }

    /// Starts timing a statement under a trace and counts it by kind.
    pub fn new_traced(sql: &str, metrics: &mut Metrics, trace: TraceContext) -> (r: Self)
        ensures
            r.text() == sql@,
            *final(metrics) == (Metrics {
                create_count: if statement_kind(sql@) == 0 { wrap_add(old(metrics).create_count, 1) } else { old(metrics).create_count },
                insert_count: if statement_kind(sql@) == 1 { wrap_add(old(metrics).insert_count, 1) } else { old(metrics).insert_count },
                select_count: if statement_kind(sql@) == 2 { wrap_add(old(metrics).select_count, 1) } else { old(metrics).select_count },
                update_count: if statement_kind(sql@) == 3 { wrap_add(old(metrics).update_count, 1) } else { old(metrics).update_count },
                delete_count: if statement_kind(sql@) == 4 { wrap_add(old(metrics).delete_count, 1) } else { old(metrics).delete_count },
                ..*old(metrics)
            }),
    {
        metrics.record_statement(sql);
        QueryTimer { start: now(), sql: sql.to_owned(), trace: Some(trace) }
    }

    /// Stops timing: records the query with its time, which it returns.
    pub fn finish(&self, success: bool, metrics: &mut Metrics) -> (r: u64)
        ensures
            *final(metrics) == query_recorded(*old(metrics), success, r),
    {
        let elapsed = micros_since(&self.start) as u64;
        metrics.record_query(success, elapsed);
        elapsed
    }

    /// The microseconds since timing started.
    pub fn elapsed_us(&self) -> (r: u64)
    {
        micros_since(&self.start) as u64
    }
}

/// An event of the monitoring system.
#[derive(Debug, Clone)]
pub enum MonitorEvent {
    /// A statement ran.
    QueryExecuted { sql: String, elapsed_us: u64, success: bool, rows_affected: u64 },
    /// A connection opened.
    ConnectionOpened,
    /// A connection closed.
    ConnectionClosed,
    /// A system event.
    System(String),
    /// An error.
    Error { source: String, message: String },
    /// An event of the user's own.
    Custom { name: String, data: String },
}

/// A stopwatch.
#[derive(Debug)]
pub struct Timer {
    start: Instant,
}

impl Timer {
    /// Starts a stopwatch.
    pub fn start() -> (r: Self)
    {
        Timer { start: now() }
    }

    /// The microseconds since the start.
    pub fn elapsed_us(&self) -> (r: u64)
    {
        micros_since(&self.start) as u64
    }

    /// The microseconds since the start, without truncation.
    pub fn elapsed_micros(&self) -> (r: u128)
    {
        micros_since(&self.start)
    }
}

} // verus!
