use dbpedia_filter::collect::{embryos_from_outcome, FetchOutcome, Stopwatch};

fn binding(url: &str, abstract_text: &str) -> String {
    format!(
        "{{\"url\": {{\"type\": \"uri\", \"value\": \"{}\"}}, \"abstract\": {{\"type\": \"literal\", \"value\": \"{}\"}}}}",
        url, abstract_text
    )
}

fn result_doc(bindings: &[String]) -> String {
    format!(
        "{{\"head\": {{\"vars\": [\"url\", \"abstract\"]}}, \"results\": {{\"bindings\": [{}]}}}}",
        bindings.join(", ")
    )
}

#[test]
fn full_result_set_is_collected_in_order() {
    let body = result_doc(&[
        binding("http://example.org/a", "first"),
        binding("http://example.org/b", "second"),
        binding("http://example.org/c", "third"),
    ]);
    let sw = Stopwatch::start();
    let embryos = embryos_from_outcome(&FetchOutcome::Success(body), &sw, 600);
    assert_eq!(embryos.len(), 3);
    assert_eq!(embryos[0].url, "http://example.org/a");
    assert_eq!(embryos[0].resume, "first");
    assert_eq!(embryos[1].url, "http://example.org/b");
    assert_eq!(embryos[1].resume, "second");
    assert_eq!(embryos[2].url, "http://example.org/c");
    assert_eq!(embryos[2].resume, "third");
}

#[test]
fn zero_timeout_collects_nothing() {
    let body = result_doc(&[
        binding("http://example.org/a", "first"),
        binding("http://example.org/b", "second"),
    ]);
    let sw = Stopwatch::start();
    let embryos = embryos_from_outcome(&FetchOutcome::Success(body), &sw, 0);
    assert_eq!(embryos.len(), 0);
}

#[test]
fn http_failure_yields_empty_list() {
    let sw = Stopwatch::start();
    let embryos = embryos_from_outcome(&FetchOutcome::HttpFailure, &sw, 10);
    assert_eq!(embryos.len(), 0);
}

#[test]
fn transport_failure_yields_empty_list() {
    let sw = Stopwatch::start();
    let embryos = embryos_from_outcome(&FetchOutcome::TransportFailure, &sw, 10);
    assert_eq!(embryos.len(), 0);
}

#[test]
fn non_json_body_yields_empty_list() {
    let sw = Stopwatch::start();
    let outcome = FetchOutcome::Success("<html>Service Unavailable</html>".to_owned());
    let embryos = embryos_from_outcome(&outcome, &sw, 10);
    assert_eq!(embryos.len(), 0);
}

#[test]
fn json_without_bindings_array_yields_empty_list() {
    let sw = Stopwatch::start();
    let outcome = FetchOutcome::Success("{\"results\": {}}".to_owned());
    let embryos = embryos_from_outcome(&outcome, &sw, 10);
    assert_eq!(embryos.len(), 0);
}

#[test]
fn empty_bindings_array_yields_empty_list() {
    let sw = Stopwatch::start();
    let outcome = FetchOutcome::Success(result_doc(&[]));
    let embryos = embryos_from_outcome(&outcome, &sw, 10);
    assert_eq!(embryos.len(), 0);
}

#[test]
fn binding_missing_a_field_is_skipped() {
    let body = result_doc(&[
        binding("http://example.org/a", "first"),
        "{\"url\": {\"type\": \"uri\", \"value\": \"http://example.org/b\"}}".to_owned(),
        binding("http://example.org/c", "third"),
    ]);
    let sw = Stopwatch::start();
    let embryos = embryos_from_outcome(&FetchOutcome::Success(body), &sw, 600);
    assert_eq!(embryos.len(), 2);
    assert_eq!(embryos[0].url, "http://example.org/a");
    assert_eq!(embryos[1].url, "http://example.org/c");
}

#[test]
fn binding_with_non_string_field_is_skipped() {
    let body = result_doc(&[
        "{\"url\": {\"value\": 7}, \"abstract\": {\"value\": \"x\"}}".to_owned(),
        binding("http://example.org/b", "kept"),
    ]);
    let sw = Stopwatch::start();
    let embryos = embryos_from_outcome(&FetchOutcome::Success(body), &sw, 600);
    assert_eq!(embryos.len(), 1);
    assert_eq!(embryos[0].url, "http://example.org/b");
    assert_eq!(embryos[0].resume, "kept");
}

#[test]
fn same_body_twice_yields_identical_lists() {
    let body = result_doc(&[
        binding("http://example.org/a", "first"),
        binding("http://example.org/b", "second"),
    ]);
    let sw = Stopwatch::start();
    let first = embryos_from_outcome(&FetchOutcome::Success(body.clone()), &sw, 600);
    let second = embryos_from_outcome(&FetchOutcome::Success(body), &sw, 600);
    assert_eq!(first.len(), second.len());
    for (a, b) in first.iter().zip(second.iter()) {
        assert_eq!(a.url, b.url);
        assert_eq!(a.resume, b.resume);
    }
}
