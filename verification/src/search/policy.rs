//! Which queries are run, and how many candidates they may cost.

use vstd::prelude::*;

use crate::search::normalize::{normalize_search_text, normalized};
use crate::text::chars_of;

verus! {

/// What a query asks for.
#[derive(Clone, Copy, Debug, PartialEq, Eq, Structural)]
pub enum QueryMode {
    /// The ordinary search, which may fall back to words and prefixes.
    ProductSearch,
    /// Nothing but substrings.
    SubstringOnly,
}

/// Why a query is not run.
#[derive(Clone, Copy, Debug, PartialEq, Eq, Structural)]
pub enum PolicyError {
    /// Nothing is left of the query once it is normalized.
    EmptyQuery,
    /// A substring query of fewer than three characters would match too much.
    ExpensiveShortSubstring {
        /// Normalized characters.
        length: usize,
    },
    /// The candidate limit is out of bounds.
    CandidateLimit {
        /// The limit asked for.
        requested: usize,
        /// The largest limit.
        maximum: usize,
    },
}

/// The largest candidate limit.
pub const HARD_MAXIMUM: usize = 500;

/// Bound on the candidates of a query.
#[derive(Clone, Copy, Debug, PartialEq, Eq, Structural)]
pub struct CandidatePolicy {
    /// Candidates that may be looked at.
    pub candidate_limit: usize,
}

impl Default for CandidatePolicy {
    fn default() -> (r: Self)
        ensures
            r.candidate_limit == 300,
    {
        CandidatePolicy { candidate_limit: 300 }
    }
}

/// A query that may be run.
#[derive(Clone, Debug, PartialEq, Eq)]
pub struct QueryPlan {
    /// The query as it is compared.
    pub normalized_query: String,
    /// Whether grams may be used.
    pub allow_ngram: bool,
    /// Candidates that may be looked at.
    pub candidate_limit: usize,
}

/// What a query is refused for, given its normalized length; nothing if it is run.
pub open spec fn refusal(limit: usize, length: nat, mode: QueryMode) -> Option<PolicyError> {
    if limit == 0 || limit > HARD_MAXIMUM {
        Some(PolicyError::CandidateLimit { requested: limit, maximum: HARD_MAXIMUM })
    } else if length == 0 {
        Some(PolicyError::EmptyQuery)
    } else if mode == QueryMode::SubstringOnly && length < 3 {
        Some(PolicyError::ExpensiveShortSubstring { length: length as usize })
    } else {
        None
    }
}

/// The outcome of planning a normalized query.
pub open spec fn is_planned(
    r: Result<QueryPlan, PolicyError>,
    limit: usize,
    query: Seq<char>,
    mode: QueryMode,
) -> bool {
    match r {
        Ok(plan) => {
            &&& refusal(limit, query.len(), mode) is None
            &&& plan.normalized_query@ == query
            &&& plan.allow_ngram == (query.len() >= 3)
            &&& plan.candidate_limit == limit
        },
        Err(e) => refusal(limit, query.len(), mode) == Some(e),
    }
}

impl CandidatePolicy {
    /// Plans a query that is normalized already.
    pub fn plan_normalized(self, normalized_query: String, mode: QueryMode) -> (r: Result<
        QueryPlan,
        PolicyError,
    >)
        ensures
            is_planned(r, self.candidate_limit, normalized_query@, mode),
    {
        if self.candidate_limit == 0 || self.candidate_limit > HARD_MAXIMUM {
            return Err(
                PolicyError::CandidateLimit {
                    requested: self.candidate_limit,
                    maximum: HARD_MAXIMUM,
                },
            );
        }
        let length: usize = chars_of(normalized_query.as_str()).len();
        if length == 0 {
            return Err(PolicyError::EmptyQuery);
        }
        if matches!(mode, QueryMode::SubstringOnly) && length < 3 {
            return Err(PolicyError::ExpensiveShortSubstring { length });
        }
        Ok(
            QueryPlan {
                normalized_query,
                allow_ngram: length >= 3,
                candidate_limit: self.candidate_limit,
            },
        )
    }

    /// Plans a query, or says why it is not run.
    pub fn plan(self, query: &str, mode: QueryMode) -> (r: Result<QueryPlan, PolicyError>)
        ensures
            is_planned(r, self.candidate_limit, normalized(query@), mode),
    {
        self.plan_normalized(normalize_search_text(query), mode)
    }
}

/// A plan never looks at more candidates than the hard maximum, and a substring query that is
/// planned has at least three characters and may use grams.
pub proof fn planned_queries_are_bounded(
    r: Result<QueryPlan, PolicyError>,
    limit: usize,
    query: Seq<char>,
    mode: QueryMode,
)
    requires
        is_planned(r, limit, query, mode),
    ensures
        r matches Ok(plan) ==> 1 <= plan.candidate_limit <= HARD_MAXIMUM && (mode
            == QueryMode::SubstringOnly ==> query.len() >= 3 && plan.allow_ngram),
{
}

} // verus!
