use dbpedia_filter::num_text::parse_u64;
use dbpedia_filter::request::{decode_request, RequestError, SearchDefaults};

#[test]
fn empty_object_takes_all_defaults() {
    let defaults = SearchDefaults::standard();
    let req = decode_request("{}", &defaults).unwrap();
    assert_eq!(req.value, "");
    assert_eq!(req.timeout_secs, 10);
    assert_eq!(req.dbo, "Company");
}

#[test]
fn explicit_fields_override_defaults() {
    let defaults = SearchDefaults::standard();
    let req = decode_request(
        "{\"value\": \"tires\", \"timeout\": \"3\", \"dbo\": \"Person\"}",
        &defaults,
    )
    .unwrap();
    assert_eq!(req.value, "tires");
    assert_eq!(req.timeout_secs, 3);
    assert_eq!(req.dbo, "Person");
}

#[test]
fn substituted_defaults_are_honoured() {
    let defaults = SearchDefaults {
        value: "fallback".to_owned(),
        timeout_secs: 99,
        dbo: "Place".to_owned(),
    };
    let req = decode_request("{}", &defaults).unwrap();
    assert_eq!(req.value, "fallback");
    assert_eq!(req.timeout_secs, 99);
    assert_eq!(req.dbo, "Place");
}

#[test]
fn non_json_body_is_rejected() {
    let defaults = SearchDefaults::standard();
    let r = decode_request("this is not json", &defaults);
    assert_eq!(r.unwrap_err(), RequestError::BodyNotJson);
}

#[test]
fn non_object_json_body_is_rejected() {
    let defaults = SearchDefaults::standard();
    assert_eq!(
        decode_request("[1, 2, 3]", &defaults).unwrap_err(),
        RequestError::BodyNotJson
    );
    assert_eq!(
        decode_request("{\"value\": 7}", &defaults).unwrap_err(),
        RequestError::BodyNotJson
    );
}

#[test]
fn unparseable_timeout_is_rejected() {
    let defaults = SearchDefaults::standard();
    for bad in ["abc", "-3", "4.5", "", " 10", "99999999999999999999999"] {
        let body = format!("{{\"timeout\": \"{}\"}}", bad);
        assert_eq!(
            decode_request(&body, &defaults).unwrap_err(),
            RequestError::InvalidTimeout,
            "timeout {:?} should be rejected",
            bad
        );
    }
}

#[test]
fn zero_timeout_is_accepted() {
    let defaults = SearchDefaults::standard();
    let req = decode_request("{\"timeout\": \"0\"}", &defaults).unwrap();
    assert_eq!(req.timeout_secs, 0);
}

#[test]
fn unknown_keys_are_ignored() {
    let defaults = SearchDefaults::standard();
    let req = decode_request("{\"other\": \"x\", \"value\": \"y\"}", &defaults).unwrap();
    assert_eq!(req.value, "y");
    assert_eq!(req.timeout_secs, 10);
}

#[test]
fn decoding_is_repeatable() {
    let defaults = SearchDefaults::standard();
    let body = "{\"value\": \"same\", \"dbo\": \"Person\", \"timeout\": \"5\"}";
    let a = decode_request(body, &defaults).unwrap();
    let b = decode_request(body, &defaults).unwrap();
    assert_eq!(a.value, b.value);
    assert_eq!(a.timeout_secs, b.timeout_secs);
    assert_eq!(a.dbo, b.dbo);
}

#[test]
fn parse_u64_accepts_plain_and_signed_decimals() {
    assert_eq!(parse_u64("0"), Some(0));
    assert_eq!(parse_u64("10"), Some(10));
    assert_eq!(parse_u64("+7"), Some(7));
    assert_eq!(parse_u64("007"), Some(7));
    assert_eq!(parse_u64("18446744073709551615"), Some(u64::MAX));
}

#[test]
fn parse_u64_rejects_everything_else() {
    assert_eq!(parse_u64(""), None);
    assert_eq!(parse_u64("+"), None);
    assert_eq!(parse_u64("-1"), None);
    assert_eq!(parse_u64("1.5"), None);
    assert_eq!(parse_u64("1 "), None);
    assert_eq!(parse_u64("++1"), None);
    assert_eq!(parse_u64("18446744073709551616"), None);
    assert_eq!(parse_u64("abc"), None);
}
