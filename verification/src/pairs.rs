//! The inbound request body is a JSON object of string keys and string
//! values. Decoding the text is delegated to `serde_json`; everything after
//! that — looking keys up, defaulting — is verified here against a `Map`
//! model of the decoded object.
//!
//! The decoder hands the object back as a list of pairs whose order is not
//! specified (it walks a hash map), so the lookup is proved to agree with
//! the map model whatever order the pairs arrive in.

use vstd::prelude::*;
use std::collections::HashMap;

verus! {

/// What `serde_json` decodes a given body text to, when the body is a JSON
/// object of string keys and string values: `None` when the body is not
/// such an object.
pub uninterp spec fn json_string_map(s: Seq<char>) -> Option<Map<Seq<char>, Seq<char>>>;

/// The views of a list of owned string pairs.
pub open spec fn pair_views(ps: Seq<(String, String)>) -> Seq<(Seq<char>, Seq<char>)> {
    ps.map_values(|p: (String, String)| (p.0@, p.1@))
}

/// The map that a list of pairs denotes; on a duplicated key the earliest
/// pair wins, as the lookup below does.
pub open spec fn map_of_pairs(ps: Seq<(Seq<char>, Seq<char>)>) -> Map<Seq<char>, Seq<char>>
    decreases ps.len(),
{
    if ps.len() == 0 {
        Map::empty()
    } else {
        map_of_pairs(ps.drop_first()).insert(ps[0].0, ps[0].1)
    }
}

/// First-match lookup over a list of pairs.
pub open spec fn pairs_get(ps: Seq<(Seq<char>, Seq<char>)>, key: Seq<char>) -> Option<Seq<char>>
    decreases ps.len(),
{
    if ps.len() == 0 {
        None
    } else if ps[0].0 == key {
        Some(ps[0].1)
    } else {
        pairs_get(ps.drop_first(), key)
    }
}

/// First-match lookup agrees with the map the pairs denote, whatever order
/// the pairs stand in. This is what makes the decoding below a function of
/// the body text alone, although the pair list's order is not.
pub proof fn lemma_pairs_get_is_map_get(ps: Seq<(Seq<char>, Seq<char>)>, key: Seq<char>)
    ensures
        pairs_get(ps, key) == (if map_of_pairs(ps).contains_key(key) {
            Some(map_of_pairs(ps)[key])
        } else {
            None::<Seq<char>>
        }),
    decreases ps.len(),
{
    if ps.len() == 0 {
    } else if ps[0].0 == key {
    } else {
        lemma_pairs_get_is_map_get(ps.drop_first(), key);
    }
}

/// Relies on `serde_json::from_str::<HashMap<String, String>>`: it decodes
/// a JSON object of string keys and string values, and fails on any other
/// body. Which pairs come back is a function of the body text alone; the
/// order they come back in is not, and is left unstated.
#[verifier::external_body]
pub(crate) fn parse_string_pairs(body: &str) -> (r: Option<Vec<(String, String)>>)
    ensures
        (r is Some) == (json_string_map(body@) is Some),
        r matches Some(ps) ==> json_string_map(body@) == Some(map_of_pairs(pair_views(ps@))),
{
    match serde_json::from_str::<HashMap<String, String>>(body) {
        Ok(m) => Some(m.into_iter().collect()),
        Err(_) => None,
    }
}

/// Looks `key` up in the decoded pair list, returning the first match.
pub fn lookup_pair(pairs: &Vec<(String, String)>, key: &String) -> (r: Option<String>)
    ensures
        (match r {
            Some(v) => Some(v@),
            None => None::<Seq<char>>,
        }) == pairs_get(pair_views(pairs@), key@),
{
    let n: usize = pairs.len();
    let mut i: usize = 0;
    proof {
        assert(pair_views(pairs@).skip(0) =~= pair_views(pairs@));
    }
    while i < n
        invariant
            n == pairs@.len(),
            i <= n,
            pairs_get(pair_views(pairs@), key@) == pairs_get(
                pair_views(pairs@).skip(i as int),
                key@,
            ),
        decreases n - i,
    {
        proof {
            let j = i as int;
            assert(pair_views(pairs@).skip(j)[0] == (pairs@[j].0@, pairs@[j].1@));
        }
        if pairs[i].0 == *key {
            return Some(pairs[i].1.clone());
        }
        proof {
            assert(pair_views(pairs@).skip(i as int).drop_first() =~= pair_views(pairs@).skip(
                i as int + 1,
            ));
        }
        i += 1;
    }
    proof {
        assert(pair_views(pairs@).skip(n as int) =~= Seq::<(Seq<char>, Seq<char>)>::empty());
    }
    None
}

} // verus!
