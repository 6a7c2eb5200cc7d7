use policy_engine::rationale::{FunctionError, RationaleResult};
use policy_engine::sigstore::{collect_records, decode_record, package, SHA256};
use policy_engine::value::{value_eq, ObjectField, Value};

#[test]
fn package_registers_the_lookup_function() {
    let p = package();
    assert_eq!(p.functions.len(), 1);
    assert_eq!(p.functions[0], "SHA256");
    assert_eq!(p.path.segments, vec![String::from("sigstore")]);
}

#[test]
fn sha256_exposes_documentation_and_no_parameters() {
    let f = SHA256;
    assert!(f.documentation().is_some());
    assert!(f.parameters().is_empty());
}

#[test]
fn non_string_input_is_invalid() {
    match SHA256::check_input(&Value::Int(42)) {
        Err(FunctionError::Other(m)) => assert_eq!(m, "invalid input"),
        _ => panic!("a non-string input must be refused"),
    }
    match SHA256::check_input(&Value::Str(String::from("deadbeef"))) {
        Ok(s) => assert_eq!(s, "deadbeef"),
        _ => panic!("a string input is the digest"),
    }
}

#[test]
fn empty_lookup_is_no_signatures() {
    match SHA256::classify(Ok(Vec::new())) {
        Err(FunctionError::Other(m)) => assert_eq!(m, "no signatures"),
        _ => panic!("an empty lookup must be the no-signatures error"),
    }
}

#[test]
fn lookup_failure_passes_its_message_through() {
    match SHA256::classify(Err(String::from("connection refused"))) {
        Err(FunctionError::Other(m)) => assert_eq!(m, "connection refused"),
        _ => panic!("a lookup failure keeps its message"),
    }
}

#[test]
fn one_record_becomes_a_transform_of_the_decoded_list() {
    let body = base64::encode(b"{\"kind\":\"hashedrekord\",\"version\":7}");
    match SHA256::classify(Ok(vec![body])) {
        Ok(RationaleResult::Transform(v)) => {
            let expected = Value::List(vec![Value::Object(vec![
                ObjectField {
                    name: String::from("kind"),
                    value: Value::Str(String::from("hashedrekord")),
                },
                ObjectField { name: String::from("version"), value: Value::Int(7) },
            ])]);
            assert!(value_eq(&v, &expected));
        }
        _ => panic!("a matching record must become a transform"),
    }
}

#[test]
fn decode_record_rebuilds_the_json_document() {
    let body = base64::encode(b"[1, true, null, \"x\", [2]]");
    let v = decode_record(&body).expect("decodes");
    let expected = Value::List(vec![
        Value::Int(1),
        Value::Bool(true),
        Value::Null,
        Value::Str(String::from("x")),
        Value::List(vec![Value::Int(2)]),
    ]);
    assert!(value_eq(&v, &expected));
}

#[test]
fn invalid_base64_or_json_decodes_to_nothing() {
    assert!(decode_record("!!!not-base64!!!").is_none());
    let not_json = base64::encode(b"{nope");
    assert!(decode_record(&not_json).is_none());
}

#[test]
fn collect_records_keeps_only_decodable_bodies_in_order() {
    let good1 = base64::encode(b"1");
    let good2 = base64::encode(b"2");
    let bodies = vec![good1, String::from("%%%"), good2];
    let records = collect_records(&bodies);
    assert_eq!(records.len(), 2);
    assert!(value_eq(&records[0], &Value::Int(1)));
    assert!(value_eq(&records[1], &Value::Int(2)));
}

#[test]
fn transform_carries_exactly_the_given_records() {
    let records = vec![Value::Int(1), Value::Str(String::from("x"))];
    match SHA256::transform_of(records) {
        RationaleResult::Transform(v) => {
            let expected = Value::List(vec![Value::Int(1), Value::Str(String::from("x"))]);
            assert!(value_eq(&v, &expected));
        }
        _ => panic!("transform_of must build a transform"),
    }
}
