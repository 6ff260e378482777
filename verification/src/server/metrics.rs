//! Counters of the HTTP API's queries.

use vstd::prelude::*;
use crate::monitor::wrap_add;

verus! {

/// The API's counters.
#[derive(Debug, Default, Clone, Copy)]
pub struct Metrics {
    pub total_queries: u64,
    pub successful_queries: u64,
    pub failed_queries: u64,
    pub total_query_time_ns: u64,
    pub slow_queries: u64,
    pub rows_inserted: u64,
    pub rows_deleted: u64,
    pub rows_returned: u64,
    pub tables_created: u64,
    pub tables_dropped: u64,
}

impl Metrics {
    /// All counters at zero.
    pub fn new() -> (r: Self)
        ensures
            r == (Metrics {
                total_queries: 0, successful_queries: 0, failed_queries: 0, total_query_time_ns: 0, slow_queries: 0,
                rows_inserted: 0, rows_deleted: 0, rows_returned: 0, tables_created: 0, tables_dropped: 0,
            }),
    {
        Metrics {
            total_queries: 0, successful_queries: 0, failed_queries: 0, total_query_time_ns: 0, slow_queries: 0,
            rows_inserted: 0, rows_deleted: 0, rows_returned: 0, tables_created: 0, tables_dropped: 0,
        }
    }

    /// Records a query that took `duration_ns` nanoseconds and returned
    /// `rows` rows; one over 500 ms is slow.
    pub fn record_query(&mut self, success: bool, duration_ns: u128, rows: usize)
        ensures
            *final(self) == (Metrics {
                total_queries: wrap_add(old(self).total_queries, 1),
                successful_queries: if success { wrap_add(old(self).successful_queries, 1) } else { old(self).successful_queries },
                failed_queries: if success { old(self).failed_queries } else { wrap_add(old(self).failed_queries, 1) },
                total_query_time_ns: wrap_add(old(self).total_query_time_ns, duration_ns as u64),
                rows_returned: wrap_add(old(self).rows_returned, rows as u64),
                slow_queries: if duration_ns / 1_000_000 > 500 { wrap_add(old(self).slow_queries, 1) } else { old(self).slow_queries },
                ..*old(self)
            }),
    {
        self.total_queries = self.total_queries.wrapping_add(1);
        if success {
            self.successful_queries = self.successful_queries.wrapping_add(1);
        } else {
            self.failed_queries = self.failed_queries.wrapping_add(1);
        }
        self.total_query_time_ns = self.total_query_time_ns.wrapping_add(duration_ns as u64);
        self.rows_returned = self.rows_returned.wrapping_add(rows as u64);
        if duration_ns / 1_000_000 > 500 {
            self.slow_queries = self.slow_queries.wrapping_add(1);
        }
    }
}

} // verus!
