//! The query builder: renders the fixed SPARQL template with a search term
//! and an ontology category substituted in.
//!
//! The two substituted strings are inserted verbatim, as the service's
//! interface promises: the category names an ontology class, and the term
//! becomes the argument of a `contains` filter on entity labels.

use vstd::prelude::*;

verus! {

/// Template text that precedes the search term.
pub const QUERY_HEAD: &'static str = "\n        PREFIX rdfs: <http://www.w3.org/2000/01/rdf-schema#>\n        SELECT DISTINCT ?url ?abstract\n        WHERE {\n            {\n            ?s a ?type ;\n                rdfs:label ?label ;\n                <http://dbpedia.org/ontology/abstract> ?abstract ;\n                foaf:isPrimaryTopicOf ?url .\n                FILTER (langMatches(lang(?abstract), \"en\"))\n                FILTER (contains(?label, \"";

/// Template text between the search term and the ontology category.
pub const QUERY_MID: &'static str = "\"))\n                FILTER (?type IN (<http://dbpedia.org/ontology/";

/// Template text that follows the ontology category.
pub const QUERY_TAIL: &'static str = ">))\n            }\n        }\n    ";

/// The query text produced for a given search term and category: the fixed
/// template with both values spliced in verbatim.
pub open spec fn query_of(term: Seq<char>, category: Seq<char>) -> Seq<char> {
    QUERY_HEAD@ + term + QUERY_MID@ + category + QUERY_TAIL@
}

/// Builds the SPARQL query for `term` within ontology class `category`.
///
/// Always succeeds, for every term and category, the empty term included.
pub fn build_query(term: &str, category: &str) -> (query: String)
    ensures
        query@ == query_of(term@, category@),
{
    let mut query = QUERY_HEAD.to_owned();
    query.append(term);
    query.append(QUERY_MID);
    query.append(category);
    query.append(QUERY_TAIL);
    proof {
        assert(query@ =~= query_of(term@, category@));
    }
    query
}

/// With an empty search term the builder still yields the full template:
/// exactly the fixed text around an empty `contains` literal, so the query
/// keeps its shape and can be dispatched.
pub proof fn lemma_empty_term_query(category: Seq<char>)
    ensures
        query_of(Seq::<char>::empty(), category) =~= QUERY_HEAD@ + QUERY_MID@ + category
            + QUERY_TAIL@,
{
}

} // verus!
