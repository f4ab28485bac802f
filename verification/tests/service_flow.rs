use record_service::ident::is_valid_record_id;
use record_service::record::decode_record_text;
use record_service::service::{
    create_record, created_reply, get_record_request, get_record_response, openapi_json_response,
    openapi_yaml_response, save_failed_reply, ContentKind, CreateResult, GetRequest, StoredRead,
};

fn must_plan(body: &str, trace: Option<&str>) -> record_service::service::CreatePlan {
    match create_record(body.to_string(), trace.map(|s| s.to_string())) {
        CreateResult::Plan(p) => p,
        CreateResult::BadBody(_) => panic!("a valid JSON body was rejected"),
    }
}

#[test]
fn create_then_get_returns_payload() {
    let body = "{\"x\": [1, 2, {\"y\": \"z\"}], \"n\": null}";
    let plan = must_plan(body, None);
    assert_eq!(plan.record.payload, body);

    let lookup = match get_record_request(&plan.record.uuid) {
        GetRequest::Lookup(f) => f,
        GetRequest::Reject(_) => panic!("a fresh identifier was rejected"),
    };
    assert_eq!(lookup, plan.file_name);

    let reply = get_record_response(StoredRead::Content(plan.content.clone()));
    assert_eq!(reply.status, 200);
    let returned = decode_record_text(&reply.body).expect("the reply body is a record");
    assert_eq!(returned.payload, body);
    assert_eq!(returned.uuid, plan.record.uuid);
    assert_eq!(returned.trace_id, plan.record.trace_id);
    assert_eq!(returned.timestamp, plan.record.timestamp);

    // Deep structural equality of the payload, checked by an independent parser.
    let original: serde_json::Value = serde_json::from_str(body).unwrap();
    let stored: serde_json::Value = serde_json::from_str(&returned.payload).unwrap();
    assert_eq!(original, stored);
}

#[test]
fn created_identifiers_are_well_formed_and_distinct() {
    let a = must_plan("1", None);
    let b = must_plan("1", None);
    assert!(is_valid_record_id(&a.record.uuid));
    assert!(is_valid_record_id(&b.record.uuid));
    assert_ne!(a.record.uuid, b.record.uuid);
    assert_eq!(a.file_name, format!("{}.json", a.record.uuid));
}

#[test]
fn invalid_identifier_is_rejected_before_storage() {
    for bad in [
        "not-a-uuid",
        "",
        "../../etc/passwd",
        "6ba7b810-9dad-11d1-80b4-00c04fd430c",   // one digit short
        "6ba7b810-9dad-11d1-80b4-00c04fd430c88", // one digit long
        "6ba7b810x9dad-11d1-80b4-00c04fd430c8",  // wrong separator
        "6ba7b810-9dad-11d1-80b4-00c04fd430g8",  // not a hex digit
    ] {
        match get_record_request(bad) {
            GetRequest::Reject(reply) => {
                assert_eq!(reply.status, 400);
                assert_eq!(reply.body, "{\"error\":\"invalid uuid format\"}");
            }
            GetRequest::Lookup(_) => panic!("a malformed identifier reached storage"),
        }
    }
    match get_record_request("6BA7B810-9dad-11d1-80b4-00c04fd430c8") {
        GetRequest::Lookup(f) => {
            assert_eq!(f, "6BA7B810-9dad-11d1-80b4-00c04fd430c8.json");
        }
        GetRequest::Reject(_) => panic!("a well-formed identifier was rejected"),
    }
}

#[test]
fn unused_identifier_is_not_found() {
    let reply = get_record_response(StoredRead::Missing);
    assert_eq!(reply.status, 404);
    assert_eq!(reply.body, "{\"error\":\"record not found\"}");
}

#[test]
fn trace_header_is_kept_exactly() {
    let plan = must_plan("{}", Some("abc-123"));
    assert_eq!(plan.record.trace_id, "abc-123");
    let stored = decode_record_text(&plan.content).expect("the stored text is a record");
    assert_eq!(stored.trace_id, "abc-123");
}

#[test]
fn missing_trace_header_gets_a_fresh_identifier() {
    for trace in [None, Some("")] {
        let plan = must_plan("{}", trace);
        assert!(is_valid_record_id(&plan.record.trace_id));
        assert_ne!(plan.record.trace_id, plan.record.uuid);
    }
}

#[test]
fn stored_content_reads_back_identically() {
    // Only the file content survives a restart: reading it twice, at any
    // distance in time, yields the same record.
    let plan = must_plan("[true, false]", Some("t-1"));
    let first = decode_record_text(&plan.content).expect("the stored text is a record");
    let second = decode_record_text(&plan.content).expect("the stored text is a record");
    assert_eq!(first.uuid, second.uuid);
    assert_eq!(first.trace_id, second.trace_id);
    assert_eq!(first.timestamp, second.timestamp);
    assert_eq!(first.payload, second.payload);
    assert_eq!(first.uuid, plan.record.uuid);
    assert_eq!(first.payload, "[true, false]");
}

#[test]
fn openapi_json_matches_yaml_structure() {
    let yaml = "openapi: 3.0.0\ninfo:\n  title: demo\n  version: \"1.0\"\n";
    let yaml_reply = openapi_yaml_response(Some(yaml.to_string()));
    assert_eq!(yaml_reply.status, 200);
    assert!(matches!(yaml_reply.kind, ContentKind::Yaml));
    assert_eq!(yaml_reply.body, yaml);

    let json_reply = openapi_json_response(Some(yaml.to_string()));
    assert_eq!(json_reply.status, 200);
    assert!(matches!(json_reply.kind, ContentKind::Json));
    assert_eq!(
        json_reply.body,
        "{\"info\":{\"title\":\"demo\",\"version\":\"1.0\"},\"openapi\":\"3.0.0\"}"
    );

    // Every key and value of the YAML document appears, equal, in the JSON.
    let from_yaml: serde_json::Value = serde_yaml::from_str(yaml).unwrap();
    let from_json: serde_json::Value = serde_json::from_str(&json_reply.body).unwrap();
    assert_eq!(from_yaml, from_json);
}

#[test]
fn openapi_json_translates_every_scalar_kind() {
    let yaml = "title: t\ncount: 3\nratio: 0.5\nflag: true\nnothing: null\nitems:\n  - 1\n  - two\n";
    let reply = openapi_json_response(Some(yaml.to_string()));
    assert_eq!(reply.status, 200);
    assert_eq!(
        reply.body,
        "{\"count\":3,\"flag\":true,\"items\":[1,\"two\"],\"nothing\":null,\"ratio\":0.5,\"title\":\"t\"}"
    );
}

#[test]
fn openapi_yaml_is_served_byte_for_byte_without_parsing() {
    // The YAML endpoint never parses the document: even one the JSON
    // endpoint refuses is served as it stands.
    let broken = "a: [1,";
    let reply = openapi_yaml_response(Some(broken.to_string()));
    assert_eq!(reply.status, 200);
    assert!(matches!(reply.kind, ContentKind::Yaml));
    assert_eq!(reply.body, broken);
}

#[test]
fn openapi_failures_are_reported() {
    let missing = openapi_yaml_response(None);
    assert_eq!(missing.status, 500);
    assert_eq!(missing.body, "{\"error\":\"failed to read openapi specification\"}");

    let missing_json = openapi_json_response(None);
    assert_eq!(missing_json.status, 500);
    assert_eq!(missing_json.body, "{\"error\":\"failed to read openapi specification\"}");

    let unparsable = openapi_json_response(Some("a: [1,".to_string()));
    assert_eq!(unparsable.status, 500);
    assert_eq!(unparsable.body, "{\"error\":\"failed to parse yaml\"}");
}

#[test]
fn many_creates_stay_distinct_and_uncontaminated() {
    let mut plans = Vec::new();
    for i in 0..50 {
        let body = format!("{{\"index\": {}}}", i);
        plans.push((body.clone(), must_plan(&body, None)));
    }
    for (i, (body, plan)) in plans.iter().enumerate() {
        let reply = get_record_response(StoredRead::Content(plan.content.clone()));
        assert_eq!(reply.status, 200);
        let rec = decode_record_text(&reply.body).expect("the reply body is a record");
        assert_eq!(&rec.payload, body);
        assert_eq!(rec.payload, format!("{{\"index\": {}}}", i));
        for (_, other) in plans.iter().skip(i + 1) {
            assert_ne!(plan.record.uuid, other.record.uuid);
        }
    }
}

#[test]
fn body_that_is_not_json_is_rejected() {
    match create_record("not json{{{".to_string(), None) {
        CreateResult::BadBody(reply) => {
            assert_eq!(reply.status, 400);
            assert_eq!(reply.body, "{\"error\":\"invalid json body\"}");
        }
        CreateResult::Plan(_) => panic!("a non-JSON body was accepted"),
    }
}

#[test]
fn storage_failures_are_reported() {
    let unreadable = get_record_response(StoredRead::Unreadable);
    assert_eq!(unreadable.status, 500);
    assert_eq!(unreadable.body, "{\"error\":\"failed to read record\"}");

    let corrupt = get_record_response(StoredRead::Content("not a record".to_string()));
    assert_eq!(corrupt.status, 500);
    assert_eq!(corrupt.body, "{\"error\":\"corrupted record data\"}");

    let save = save_failed_reply();
    assert_eq!(save.status, 500);
    assert_eq!(save.body, "{\"error\":\"failed to save record\"}");
}

#[test]
fn create_reply_names_the_identifier() {
    let plan = must_plan("0", None);
    let reply = created_reply(&plan.record);
    assert_eq!(reply.status, 201);
    assert_eq!(
        reply.body,
        format!("{{\"status\":\"success\",\"uuid\":\"{}\"}}", plan.record.uuid)
    );
}
