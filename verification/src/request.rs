//! Decoding an inbound search request: the body is a JSON object of
//! string keys and string values, and the three recognized keys fall back
//! to configured defaults when absent.
//!
//! A body that is not such an object is the one hard failure of a request;
//! a `timeout` value that is not a non-negative integer rejects the request
//! too, rather than bringing the service down.

use vstd::prelude::*;
use crate::num_text::{parse_u64, parse_u64_of};
use crate::pairs::{
    json_string_map, lemma_pairs_get_is_map_get, lookup_pair, pair_views, parse_string_pairs,
};
use crate::query::{build_query, query_of};

verus! {

/// Why a request was rejected.
#[derive(Debug, PartialEq, Eq, Structural)]
pub enum RequestError {
    /// The body was not a JSON object of string keys and string values.
    BodyNotJson,
    /// The `timeout` field did not hold a non-negative integer.
    InvalidTimeout,
}

/// The fallback values used for keys that a request leaves out.
pub struct SearchDefaults {
    pub value: String,
    pub timeout_secs: u64,
    pub dbo: String,
}

/// A fully resolved search request: every field holds a usable value.
#[derive(Debug)]
pub struct SearchRequest {
    pub value: String,
    pub timeout_secs: u64,
    pub dbo: String,
}

/// A request readied for dispatch: the rendered query text and the time
/// budget that collection of its results must respect.
#[derive(Debug)]
pub struct PreparedSearch {
    pub query: String,
    pub timeout_secs: u64,
}

/// The search term a decoded body resolves to.
pub open spec fn chosen_value(m: Map<Seq<char>, Seq<char>>, d: SearchDefaults) -> Seq<char> {
    if m.contains_key("value"@) {
        m["value"@]
    } else {
        d.value@
    }
}

/// The ontology category a decoded body resolves to.
pub open spec fn chosen_dbo(m: Map<Seq<char>, Seq<char>>, d: SearchDefaults) -> Seq<char> {
    if m.contains_key("dbo"@) {
        m["dbo"@]
    } else {
        d.dbo@
    }
}

/// The time budget a decoded body resolves to: `None` when the body names
/// a `timeout` that does not parse.
pub open spec fn chosen_timeout(m: Map<Seq<char>, Seq<char>>, d: SearchDefaults) -> Option<u64> {
    if m.contains_key("timeout"@) {
        parse_u64_of(m["timeout"@])
    } else {
        Some(d.timeout_secs)
    }
}

impl SearchDefaults {
    /// The service's stock defaults: empty search term, a ten second
    /// budget, and the `Company` ontology category.
    pub fn standard() -> (d: SearchDefaults)
        ensures
            d.value@ == Seq::<char>::empty(),
            d.timeout_secs == 10,
            d.dbo@ == "Company"@,
    {
        SearchDefaults { value: String::new(), timeout_secs: 10, dbo: "Company".to_owned() }
    }
}

/// Decodes a request body against the given defaults.
///
/// Fails with `BodyNotJson` exactly when the body is not a JSON object of
/// string keys and string values, and with `InvalidTimeout` exactly when
/// such an object names a `timeout` that is not a non-negative integer
/// fitting `u64`; on every other body it succeeds, with each missing key
/// replaced by its default.
pub fn decode_request(body: &str, defaults: &SearchDefaults) -> (r: Result<
    SearchRequest,
    RequestError,
>)
    ensures
        (json_string_map(body@) is None) <==> r == Err::<SearchRequest, RequestError>(
            RequestError::BodyNotJson,
        ),
        json_string_map(body@) matches Some(m) ==> (match chosen_timeout(m, *defaults) {
            Some(t) => r matches Ok(req) && req.value@ == chosen_value(m, *defaults)
                && req.dbo@ == chosen_dbo(m, *defaults) && req.timeout_secs == t,
            None => r == Err::<SearchRequest, RequestError>(RequestError::InvalidTimeout),
        }),
{
    let pairs = match parse_string_pairs(body) {
        Some(p) => p,
        None => {
            return Err(RequestError::BodyNotJson);
        },
    };
    proof {
        lemma_pairs_get_is_map_get(pair_views(pairs@), "value"@);
        lemma_pairs_get_is_map_get(pair_views(pairs@), "dbo"@);
        lemma_pairs_get_is_map_get(pair_views(pairs@), "timeout"@);
    }
    let value = match lookup_pair(&pairs, &"value".to_owned()) {
        Some(v) => v,
        None => defaults.value.clone(),
    };
    let dbo = match lookup_pair(&pairs, &"dbo".to_owned()) {
        Some(v) => v,
        None => defaults.dbo.clone(),
    };
    let timeout_secs = match lookup_pair(&pairs, &"timeout".to_owned()) {
        Some(t) => match parse_u64(t.as_str()) {
            Some(secs) => secs,
            None => {
                return Err(RequestError::InvalidTimeout);
            },
        },
        None => defaults.timeout_secs,
    };
    Ok(SearchRequest { value, timeout_secs, dbo })
}

/// Decodes a request body and renders its query: the one-step front door
/// for a raw body.
///
/// Rejects exactly the bodies that `decode_request` rejects; on success
/// the query text is the fixed template around the resolved term and
/// category, and the budget is the resolved timeout.
pub fn prepare_search(body: &str, defaults: &SearchDefaults) -> (r: Result<
    PreparedSearch,
    RequestError,
>)
    ensures
        (json_string_map(body@) is None) <==> r == Err::<PreparedSearch, RequestError>(
            RequestError::BodyNotJson,
        ),
        json_string_map(body@) matches Some(m) ==> (match chosen_timeout(m, *defaults) {
            Some(t) => r matches Ok(p) && p.query@ == query_of(
                chosen_value(m, *defaults),
                chosen_dbo(m, *defaults),
            ) && p.timeout_secs == t,
            None => r == Err::<PreparedSearch, RequestError>(RequestError::InvalidTimeout),
        }),
{
    match decode_request(body, defaults) {
        Ok(req) => {
            let query = build_query(req.value.as_str(), req.dbo.as_str());
            Ok(PreparedSearch { query, timeout_secs: req.timeout_secs })
        },
        Err(e) => Err(e),
    }
}

} // verus!
