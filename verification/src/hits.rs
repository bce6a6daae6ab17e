use crate::query::{boolean_clauses, Occurrence};
use tantivy::collector::TopDocs;
use tantivy::query::BooleanQuery;
use tantivy::{DocAddress, Searcher};
use vstd::prelude::*;

verus! {

#[verifier::external_type_specification]
#[verifier::external_body]
pub struct ExDocAddress(DocAddress);

/// The hits of a search, in the order in which tantivy's collector hands
/// them back (by decreasing score), labelled with the clauses of the query and
/// the limit that the search ran with. Only `top_docs` makes one, and its
/// fields are private to this module, so the addresses are always those the
/// collector handed back, in the collector's order.
pub struct SearchHits {
    addresses: Vec<DocAddress>,
    clauses: Ghost<Seq<(Occurrence, u32, Seq<char>)>>,
    limit: Ghost<usize>,
}

impl SearchHits {
    /// The addresses of the hits, in the collector's order.
    pub closed spec fn found(self) -> Seq<DocAddress> {
        self.addresses@
    }

    /// Hands over the addresses of the hits, in the collector's order.
    pub fn into_addresses(self) -> (addresses: Vec<DocAddress>)
        ensures
            addresses@ == self.found(),
    {
        self.addresses
    }

    /// The clauses of the query that the search ran.
    pub closed spec fn searched_clauses(self) -> Seq<(Occurrence, u32, Seq<char>)> {
        self.clauses@
    }

    /// The limit that the search ran with.
    pub closed spec fn searched_limit(self) -> usize {
        self.limit@
    }
}

/// Calls `Searcher::search` with `query` and the collector
/// `TopDocs::with_limit(limit)`, and keeps the address of each hit, in the
/// collector's order (by decreasing score), labelled with the query's clauses
/// and `limit`. Which documents come back depends on what the index holds;
/// the collector keeps at most `limit` of them, each document at most once.
/// `TopDocs::with_limit` panics on a limit of 0, which `requires` leaves out.
#[verifier::external_body]
pub(crate) fn top_docs(searcher: &Searcher, query: &BooleanQuery, limit: usize) -> (hits: Option<SearchHits>)
    requires
        limit >= 1,
    ensures
        hits matches Some(h) ==> h.searched_clauses() == boolean_clauses(*query) && h.searched_limit() == limit
            && h.found().len() <= limit && h.found().no_duplicates(),
{
    match searcher.search(query, &TopDocs::with_limit(limit)) {
        Ok(top) => Some(SearchHits {
            addresses: top.into_iter().map(|(_score, address)| address).collect(),
            clauses: Ghost(boolean_clauses(*query)),
            limit: Ghost(limit),
        }),
        Err(_) => None,
    }
}

} // verus!
