//! The upstream answer: a SPARQL JSON result document whose
//! `results.bindings` array carries, per row, a `url.value` and an
//! `abstract.value` string.
//!
//! Reading that document is delegated to `serde_json`; what comes back is
//! a plain list of bindings, each field already reduced to an optional
//! string. Turning bindings into result records is verified here: a row
//! missing either field is skipped rather than failing the request, and
//! the records keep the rows' order.

use vstd::prelude::*;

verus! {

/// One row of the upstream result set: the two fields the service reads,
/// each absent when the row does not carry it as a string.
pub struct Binding {
    pub url: Option<String>,
    pub abstract_text: Option<String>,
}

impl View for Binding {
    type V = (Option<Seq<char>>, Option<Seq<char>>);

    open spec fn view(&self) -> (Option<Seq<char>>, Option<Seq<char>>) {
        (
            match self.url {
                Some(u) => Some(u@),
                None => None,
            },
            match self.abstract_text {
                Some(a) => Some(a@),
                None => None,
            },
        )
    }
}

/// One normalized result record: a url and the abstract text under its
/// `resume` name.
pub struct Embryo {
    pub url: String,
    pub resume: String,
}

impl View for Embryo {
    type V = (Seq<char>, Seq<char>);

    open spec fn view(&self) -> (Seq<char>, Seq<char>) {
        (self.url@, self.resume@)
    }
}

/// The views of a list of bindings.
pub open spec fn binding_views(bs: Seq<Binding>) -> Seq<(Option<Seq<char>>, Option<Seq<char>>)> {
    bs.map_values(|b: Binding| b@)
}

/// The views of a list of records.
pub open spec fn embryo_views(es: Seq<Embryo>) -> Seq<(Seq<char>, Seq<char>)> {
    es.map_values(|e: Embryo| e@)
}

/// The ordered binding rows that a given body text holds, when it is a
/// SPARQL JSON result document with a `results.bindings` array: each row
/// reduced to its optional `url.value` and `abstract.value` strings.
/// `None` when the body is not such a document.
pub uninterp spec fn sparql_bindings(s: Seq<char>) -> Option<
    Seq<(Option<Seq<char>>, Option<Seq<char>>)>,
>;

/// Relies on `serde_json::from_str::<Value>`, `Value::get`,
/// `Value::as_array` and `Value::as_str`: the body parses to a JSON
/// document or does not, `get` reads an object's field, `as_array` and
/// `as_str` yield the value when it has that shape. Which rows come back,
/// and in which order, is a function of the body text alone.
#[verifier::external_body]
pub(crate) fn extract_bindings(body: &str) -> (r: Option<Vec<Binding>>)
    ensures
        (r is Some) == (sparql_bindings(body@) is Some),
        r matches Some(bs) ==> sparql_bindings(body@) == Some(binding_views(bs@)),
{
    let doc: serde_json::Value = match serde_json::from_str(body) {
        Ok(v) => v,
        Err(_) => return None,
    };
    let rows = doc.get("results")?.get("bindings")?.as_array()?;
    let field = |row: &serde_json::Value, name: &str| -> Option<String> {
        row.get(name)?.get("value")?.as_str().map(str::to_owned)
    };
    Some(
        rows.iter().map(|row| Binding {
            url: field(row, "url"),
            abstract_text: field(row, "abstract"),
        }).collect(),
    )
}

/// The record a binding row yields: its url and abstract when both are
/// present, nothing when either is missing — such a row is skipped.
pub open spec fn embryo_of(bv: (Option<Seq<char>>, Option<Seq<char>>)) -> Option<
    (Seq<char>, Seq<char>),
> {
    match (bv.0, bv.1) {
        (Some(u), Some(a)) => Some((u, a)),
        _ => None,
    }
}

/// A record as a one-element list, a skipped row as an empty one.
pub open spec fn opt_record(o: Option<(Seq<char>, Seq<char>)>) -> Seq<(Seq<char>, Seq<char>)> {
    match o {
        Some(e) => seq![e],
        None => Seq::empty(),
    }
}

/// The records that a list of binding rows yields, in the rows' order,
/// rows missing a field skipped.
pub open spec fn embryos_of(bvs: Seq<(Option<Seq<char>>, Option<Seq<char>>)>) -> Seq<
    (Seq<char>, Seq<char>),
>
    decreases bvs.len(),
{
    if bvs.len() == 0 {
        Seq::empty()
    } else {
        embryos_of(bvs.drop_last()) + opt_record(embryo_of(bvs.last()))
    }
}

/// Converts one binding row, exactly as `embryo_of` says.
pub fn embryo_of_binding(b: &Binding) -> (r: Option<Embryo>)
    ensures
        (match r {
            Some(e) => Some(e@),
            None => None::<(Seq<char>, Seq<char>)>,
        }) == embryo_of(b@),
{
    match (&b.url, &b.abstract_text) {
        (Some(u), Some(a)) => Some(Embryo { url: u.clone(), resume: a.clone() }),
        _ => None,
    }
}

/// Converting rows distributes over splitting the row list.
pub proof fn lemma_embryos_of_concat(
    a: Seq<(Option<Seq<char>>, Option<Seq<char>>)>,
    b: Seq<(Option<Seq<char>>, Option<Seq<char>>)>,
)
    ensures
        embryos_of(a + b) == embryos_of(a) + embryos_of(b),
    decreases b.len(),
{
    if b.len() == 0 {
        assert(a + b =~= a);
        assert(embryos_of(a) + embryos_of(b) =~= embryos_of(a));
    } else {
        assert((a + b).drop_last() =~= a + b.drop_last());
        assert((a + b).last() == b.last());
        lemma_embryos_of_concat(a, b.drop_last());
        assert(embryos_of(a) + embryos_of(b.drop_last()) + opt_record(embryo_of(b.last()))
            =~= embryos_of(a) + embryos_of(b));
    }
}

/// The truncation law: cutting the row list after any `n` rows yields a
/// prefix of the full record list — records are never reordered or
/// invented, only the tail is dropped.
pub proof fn lemma_embryos_of_truncation(bvs: Seq<(Option<Seq<char>>, Option<Seq<char>>)>, n: int)
    requires
        0 <= n <= bvs.len(),
    ensures
        embryos_of(bvs) == embryos_of(bvs.take(n)) + embryos_of(bvs.skip(n)),
        embryos_of(bvs.take(n)).is_prefix_of(embryos_of(bvs)),
{
    assert(bvs.take(n) + bvs.skip(n) =~= bvs);
    lemma_embryos_of_concat(bvs.take(n), bvs.skip(n));
    assert(embryos_of(bvs.take(n)) =~= (embryos_of(bvs.take(n)) + embryos_of(
        bvs.skip(n),
    )).subrange(0, embryos_of(bvs.take(n)).len() as int));
}

/// Stepping the cut one row further appends exactly that row's record,
/// or nothing when the row is skipped.
pub proof fn lemma_embryos_of_take_step(bvs: Seq<(Option<Seq<char>>, Option<Seq<char>>)>, i: int)
    requires
        0 <= i < bvs.len(),
    ensures
        embryos_of(bvs.take(i + 1)) == embryos_of(bvs.take(i)) + opt_record(embryo_of(bvs[i])),
{
    assert(bvs.take(i + 1).drop_last() =~= bvs.take(i));
    assert(bvs.take(i + 1).last() == bvs[i]);
}

} // verus!
