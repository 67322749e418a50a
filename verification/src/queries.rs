//! Counting the queries that have been served, and the advice that the
//! count gives rise to.

use vstd::prelude::*;
use vstd::string::StringExecFns;

verus! {

/// After how many queries the next round of advice is due.
pub const ADVICE_EVERY: u64 = 50;

/// How many queries have been served, and the advice gathered so far.
pub struct QueryStats {
    pub query_count: u64,
    pub optimization_suggestions: Vec<String>,
}

/// Query statistics as a value of sequences and numbers.
#[verifier::ext_equal]
pub struct QueryStatsView {
    pub query_count: u64,
    pub optimization_suggestions: Seq<Seq<char>>,
}

/// The advice of one round.
pub open spec fn advice_round() -> Seq<Seq<char>> {
    seq!["Add index on pool_id"@, "Enable result caching for queries"@]
}

/// The statistics after one more query: the count is one higher, and where
/// it has reached a multiple of `ADVICE_EVERY`, one round of advice has
/// been added.
pub open spec fn after_query(stats: QueryStatsView) -> QueryStatsView {
    let count = (stats.query_count + 1) as u64;
    QueryStatsView {
        query_count: count,
        optimization_suggestions: if count % ADVICE_EVERY == 0 {
            stats.optimization_suggestions + advice_round()
        } else {
            stats.optimization_suggestions
        },
    }
}

impl View for QueryStats {
    type V = QueryStatsView;

    open spec fn view(&self) -> QueryStatsView {
        QueryStatsView {
            query_count: self.query_count,
            optimization_suggestions: self.optimization_suggestions@.map_values(
                |advice: String| advice@,
            ),
        }
    }
}

impl QueryStats {
    /// Statistics of a service that has served no query yet.
    pub fn new() -> (stats: QueryStats)
        ensures
            stats@.query_count == 0,
            stats@.optimization_suggestions == Seq::<Seq<char>>::empty(),
    {
        let stats = QueryStats { query_count: 0, optimization_suggestions: Vec::new() };
        assert(stats@.optimization_suggestions =~= Seq::<Seq<char>>::empty());
        stats
    }

    /// Counts one more query, and adds a round of advice with every
    /// `ADVICE_EVERY`th.
    pub fn record_query(&mut self)
        requires
            old(self).query_count < u64::MAX,
        ensures
            final(self)@ == after_query(old(self)@),
            final(self).query_count == old(self).query_count + 1,
    {
        self.query_count += 1;
        if self.query_count % ADVICE_EVERY == 0 {
            self.optimization_suggestions.push(String::from_str("Add index on pool_id"));
            self.optimization_suggestions.push(
                String::from_str("Enable result caching for queries"),
            );
        }
        assert(self@.optimization_suggestions =~= after_query(old(self)@).optimization_suggestions);
    }
}

} // verus!
