//! The bounded result collector: walks the binding rows of an upstream
//! answer in order, converting each to a record, and stops as soon as the
//! wall-clock budget is spent — whatever was collected so far is the
//! answer, a partial list being well-formed, not an error.
//!
//! The clock is read through a stopwatch started by the caller before the
//! upstream request was dispatched, so the network round-trip counts
//! against the budget. A reading of a real clock promises nothing, so the
//! contracts state what holds whatever the clock says: the result is a cut
//! of the full record list, and a zero budget collects nothing.

use vstd::prelude::*;
use crate::sparql::{
    binding_views, embryo_of_binding, embryo_views, embryos_of, extract_bindings,
    lemma_embryos_of_take_step, lemma_embryos_of_truncation, sparql_bindings, Binding, Embryo,
};

verus! {

/// The fixed remote query endpoint that prepared searches are dispatched
/// to. The dispatch itself is the caller's: it is a network round-trip,
/// and only its outcome comes back here.
pub const DBPEDIA_ENDPOINT: &'static str = "https://dbpedia.org/sparql";

#[verifier::external_type_specification]
#[verifier::external_body]
pub struct ExInstant(std::time::Instant);

/// Relies on `std::time::Instant::now`: a reading of the monotonic clock.
#[verifier::external_body]
fn instant_now() -> (r: std::time::Instant) {
    std::time::Instant::now()
}

/// Relies on `std::time::Instant::elapsed`: the time since that instant.
#[verifier::external_body]
fn instant_elapsed(start: &std::time::Instant) -> (r: std::time::Duration) {
    start.elapsed()
}

/// Relies on `std::time::Duration::as_secs`: the duration's whole seconds.
#[verifier::external_body]
fn duration_as_secs(d: &std::time::Duration) -> (r: u64) {
    d.as_secs()
}

/// A wall clock started once and read while the collector walks the rows.
pub struct Stopwatch {
    start: std::time::Instant,
}

impl Stopwatch {
    /// Starts the clock. The caller starts it immediately before
    /// dispatching the upstream request, so the round-trip itself spends
    /// the budget.
    pub fn start() -> Stopwatch {
        Stopwatch { start: instant_now() }
    }

    /// Whole seconds since the clock started. What it returns depends on
    /// the machine's clock; nothing is promised of it, and everything
    /// proved here holds for every reading.
    pub fn elapsed_secs(&self) -> u64 {
        let d = instant_elapsed(&self.start);
        duration_as_secs(&d)
    }
}

/// How the upstream round-trip ended: a body to read, or one of the two
/// failures that yield an empty result instead of an error.
pub enum FetchOutcome {
    /// The endpoint answered with a success status; this is its body.
    Success(String),
    /// The endpoint answered with a non-success status.
    HttpFailure,
    /// The request never completed: no connection, transport timeout, or
    /// a body that could not be read.
    TransportFailure,
}

/// Converts binding rows to records, in order, until the rows run out or
/// the budget is spent.
///
/// Whatever the clock says, the result is the record list of the first
/// `n` rows for some cut `n` — an order-preserving prefix of the full
/// record list, rows missing a field skipped. A budget of zero seconds
/// collects nothing, since no reading of the clock is below zero.
pub fn collect_embryos(bindings: &Vec<Binding>, stopwatch: &Stopwatch, timeout_secs: u64) -> (r:
    Vec<Embryo>)
    ensures
        exists|n: int|
            0 <= n <= bindings@.len() && embryo_views(r@) == embryos_of(
                #[trigger] binding_views(bindings@).take(n),
            ),
        timeout_secs == 0 ==> r@.len() == 0,
{
    let mut out: Vec<Embryo> = Vec::new();
    let n: usize = bindings.len();
    let mut i: usize = 0;
    proof {
        assert(binding_views(bindings@).take(0) =~= Seq::<
            (Option<Seq<char>>, Option<Seq<char>>),
        >::empty());
    }
    while i < n
        invariant
            n == bindings@.len(),
            i <= n,
            embryo_views(out@) == embryos_of(binding_views(bindings@).take(i as int)),
            timeout_secs == 0 ==> out@.len() == 0,
        decreases n - i,
    {
        if stopwatch.elapsed_secs() >= timeout_secs {
            return out;
        }
        proof {
            lemma_embryos_of_take_step(binding_views(bindings@), i as int);
            assert(binding_views(bindings@)[i as int] == bindings@[i as int]@);
        }
        match embryo_of_binding(&bindings[i]) {
            Some(e) => {
                let ghost prev = out@;
                out.push(e);
                proof {
                    assert(embryo_views(out@) =~= embryo_views(prev).push(e@));
                }
            },
            None => {},
        }
        i += 1;
    }
    proof {
        assert(binding_views(bindings@).take(n as int) =~= binding_views(bindings@));
    }
    out
}

/// `records` is the record list of the first `n` rows of `bvs`, for some
/// cut `n`: an order-preserving prefix of the full record list.
pub open spec fn records_are_cut_of(
    bvs: Seq<(Option<Seq<char>>, Option<Seq<char>>)>,
    records: Seq<(Seq<char>, Seq<char>)>,
) -> bool {
    exists|n: int| 0 <= n <= bvs.len() && records == embryos_of(#[trigger] bvs.take(n))
}

/// What the collection step owes for a given round-trip outcome: on a
/// failed round-trip, and on a body that is not a SPARQL result document,
/// the empty record list — indistinguishable from no matches, never an
/// error; on a readable body, a cut of its full record list.
pub open spec fn outcome_records_ok(outcome: FetchOutcome, records: Seq<(Seq<char>, Seq<char>)>) -> bool {
    match outcome {
        FetchOutcome::Success(body) => match sparql_bindings(body@) {
            Some(bvs) => records_are_cut_of(bvs, records),
            None => records.len() == 0,
        },
        _ => records.len() == 0,
    }
}

/// The collection step is deterministic up to where the budget cut it:
/// two record lists collected from the same round-trip outcome are cuts
/// of one full record list, so one is a prefix of the other, and when
/// they have the same length — in particular, when neither was cut — they
/// are identical, contents and order.
pub proof fn lemma_collection_deterministic(
    outcome: FetchOutcome,
    r1: Seq<(Seq<char>, Seq<char>)>,
    r2: Seq<(Seq<char>, Seq<char>)>,
)
    requires
        outcome_records_ok(outcome, r1),
        outcome_records_ok(outcome, r2),
    ensures
        r1.is_prefix_of(r2) || r2.is_prefix_of(r1),
        r1.len() == r2.len() ==> r1 == r2,
{
    match outcome {
        FetchOutcome::Success(body) => match sparql_bindings(body@) {
            Some(bvs) => {
                let n1 = choose|n: int|
                    0 <= n <= bvs.len() && r1 == embryos_of(#[trigger] bvs.take(n));
                let n2 = choose|n: int|
                    0 <= n <= bvs.len() && r2 == embryos_of(#[trigger] bvs.take(n));
                if n1 <= n2 {
                    lemma_embryos_of_truncation(bvs.take(n2), n1);
                    assert(bvs.take(n2).take(n1) =~= bvs.take(n1));
                } else {
                    lemma_embryos_of_truncation(bvs.take(n1), n2);
                    assert(bvs.take(n1).take(n2) =~= bvs.take(n2));
                }
                if r1.len() == r2.len() {
                    if r1.is_prefix_of(r2) {
                        assert(r1 =~= r2);
                    } else {
                        assert(r2 =~= r1);
                    }
                }
            },
            None => {
                assert(r1 =~= r2);
                assert(r2.subrange(0, 0) =~= r1);
            },
        },
        _ => {
            assert(r1 =~= r2);
            assert(r2.subrange(0, 0) =~= r1);
        },
    }
}

/// The whole collection step, from the upstream round-trip's outcome to
/// the record list: exactly what `outcome_records_ok` states, and a zero
/// budget yields the empty list whatever the outcome held.
pub fn embryos_from_outcome(outcome: &FetchOutcome, stopwatch: &Stopwatch, timeout_secs: u64) -> (r:
    Vec<Embryo>)
    ensures
        outcome_records_ok(*outcome, embryo_views(r@)),
        !(outcome is Success) ==> r@.len() == 0,
        timeout_secs == 0 ==> r@.len() == 0,
{
    match outcome {
        FetchOutcome::Success(body) => {
            match extract_bindings(body.as_str()) {
                Some(bindings) => {
                    let collected = collect_embryos(&bindings, stopwatch, timeout_secs);
                    proof {
                        let n0 = choose|n: int|
                            0 <= n <= bindings@.len() && embryo_views(collected@) == embryos_of(
                                #[trigger] binding_views(bindings@).take(n),
                            );
                        let bvs0 = binding_views(bindings@);
                        assert(sparql_bindings(body@) == Some(bvs0));
                        assert(0 <= n0 <= bvs0.len() && embryo_views(collected@) == embryos_of(
                            bvs0.take(n0),
                        ));
                        assert(records_are_cut_of(bvs0, embryo_views(collected@)));
                    }
                    collected
                },
                None => {
                    let empty: Vec<Embryo> = Vec::new();
                    proof {
                        assert(embryo_views(empty@) =~= Seq::<(Seq<char>, Seq<char>)>::empty());
                    }
                    empty
                },
            }
        },
        FetchOutcome::HttpFailure => {
            let empty: Vec<Embryo> = Vec::new();
            proof {
                assert(embryo_views(empty@) =~= Seq::<(Seq<char>, Seq<char>)>::empty());
            }
            empty
        },
        FetchOutcome::TransportFailure => {
            let empty: Vec<Embryo> = Vec::new();
            proof {
                assert(embryo_views(empty@) =~= Seq::<(Seq<char>, Seq<char>)>::empty());
            }
            empty
        },
    }
}

} // verus!
