use policy_engine::eval::{evaluate, EngineError, Evaluation, FnOutcome};
use policy_engine::pattern::{Bindings, Pattern, PatternGraph, Prim, RefNode, SeqMode};
use policy_engine::rationale::RationaleResult;
use policy_engine::value::{clone_value, value_eq, ObjectField, Value};

fn graph(nodes: Vec<Pattern>) -> PatternGraph {
    PatternGraph { nodes }
}

fn complete(g: &PatternGraph, root: usize, v: &Value) -> policy_engine::rationale::Rationale {
    let trace: Vec<FnOutcome> = Vec::new();
    match evaluate(g, root, v, &trace) {
        Ok(Evaluation::Complete { rationale, output: _ }) => rationale,
        _ => panic!("evaluation did not complete"),
    }
}

#[test]
fn string_primitive_matches_string() {
    let g = graph(vec![Pattern::Primitive(Prim::Str)]);
    let r = complete(&g, 0, &Value::Str(String::from("hello")));
    assert!(r.is_match());
}

#[test]
fn string_primitive_rejects_integer() {
    let g = graph(vec![Pattern::Primitive(Prim::Str)]);
    let r = complete(&g, 0, &Value::Int(42));
    assert!(!r.is_match());
}

#[test]
fn literal_matches_equal_value_only() {
    let g = graph(vec![Pattern::Literal(Value::Int(42))]);
    assert!(complete(&g, 0, &Value::Int(42)).is_match());
    assert!(!complete(&g, 0, &Value::Int(41)).is_match());
    assert!(!complete(&g, 0, &Value::Str(String::from("42"))).is_match());
}

#[test]
fn object_rationale_pinpoints_failing_field() {
    let g = graph(vec![
        Pattern::Primitive(Prim::Str),
        Pattern::Primitive(Prim::Int),
        Pattern::Object(vec![
            policy_engine::pattern::FieldPattern { name: String::from("name"), pattern: 0 },
            policy_engine::pattern::FieldPattern { name: String::from("age"), pattern: 1 },
        ]),
    ]);
    let v = Value::Object(vec![
        ObjectField { name: String::from("name"), value: Value::Str(String::from("a")) },
        ObjectField { name: String::from("age"), value: Value::Str(String::from("x")) },
    ]);
    let r = complete(&g, 2, &v);
    assert!(!r.is_match());
    assert_eq!(r.children.len(), 2);
    assert!(r.children[0].is_match());
    assert_eq!(r.children[0].note, "name");
    assert!(!r.children[1].is_match());
    assert_eq!(r.children[1].note, "age");
}

#[test]
fn contradiction_never_matches() {
    let g = graph(vec![
        Pattern::Primitive(Prim::Str),
        Pattern::Not(0),
        Pattern::And(vec![0, 1]),
    ]);
    assert!(!complete(&g, 2, &Value::Str(String::from("s"))).is_match());
    assert!(!complete(&g, 2, &Value::Int(3)).is_match());
    assert!(!complete(&g, 2, &Value::Null).is_match());
}

#[test]
fn and_verdict_is_commutative() {
    let g = graph(vec![
        Pattern::Primitive(Prim::Str),
        Pattern::Literal(Value::Str(String::from("x"))),
        Pattern::And(vec![0, 1]),
        Pattern::And(vec![1, 0]),
    ]);
    for v in [Value::Str(String::from("x")), Value::Str(String::from("y")), Value::Int(1)] {
        let a = complete(&g, 2, &v).is_match();
        let b = complete(&g, 3, &v).is_match();
        assert_eq!(a, b);
    }
}

#[test]
fn double_negation_keeps_verdict() {
    let g = graph(vec![
        Pattern::Primitive(Prim::Str),
        Pattern::Not(0),
        Pattern::Not(1),
    ]);
    for v in [Value::Str(String::from("x")), Value::Int(1)] {
        assert_eq!(complete(&g, 2, &v).is_match(), complete(&g, 0, &v).is_match());
    }
}

#[test]
fn or_keeps_both_child_rationales() {
    let g = graph(vec![
        Pattern::Primitive(Prim::Str),
        Pattern::Primitive(Prim::Int),
        Pattern::Or(vec![0, 1]),
    ]);
    let r = complete(&g, 2, &Value::Str(String::from("q")));
    assert!(r.is_match());
    assert_eq!(r.children.len(), 2);
    assert!(r.children[0].is_match());
    assert!(!r.children[1].is_match());
}

#[test]
fn sequence_all_and_any() {
    let g = graph(vec![
        Pattern::Primitive(Prim::Int),
        Pattern::Sequence(SeqMode::All, 0),
        Pattern::Sequence(SeqMode::Any, 0),
    ]);
    let all_ints = Value::List(vec![Value::Int(1), Value::Int(2)]);
    let mixed = Value::List(vec![Value::Int(1), Value::Str(String::from("x"))]);
    let none = Value::List(vec![Value::Str(String::from("x"))]);
    assert!(complete(&g, 1, &all_ints).is_match());
    assert!(!complete(&g, 1, &mixed).is_match());
    assert!(complete(&g, 2, &mixed).is_match());
    assert!(!complete(&g, 2, &none).is_match());
    assert!(complete(&g, 1, &Value::List(vec![])).is_match());
    assert!(!complete(&g, 2, &Value::List(vec![])).is_match());
}

#[test]
fn cyclic_self_reference_exceeds_depth() {
    let g = graph(vec![Pattern::Ref(RefNode {
        name: String::from("loop"),
        target: 0,
        bindings: Bindings { entries: Vec::new() },
    })]);
    let trace: Vec<FnOutcome> = Vec::new();
    match evaluate(&g, 0, &Value::Null, &trace) {
        Err(EngineError::StackDepthExceeded) => {}
        _ => panic!("expected the depth guard to fire"),
    }
}

#[test]
fn function_call_without_outcome_reports_what_it_needs() {
    let g = graph(vec![Pattern::FunctionCall(String::from("sigstore::SHA256"))]);
    let trace: Vec<FnOutcome> = Vec::new();
    let v = Value::Str(String::from("deadbeef"));
    match evaluate(&g, 0, &v, &trace) {
        Ok(Evaluation::NeedsFunction { name, input }) => {
            assert_eq!(name, "sigstore::SHA256");
            assert!(value_eq(&input, &v));
        }
        _ => panic!("expected a function request"),
    }
}

#[test]
fn transform_chains_into_next_step() {
    let g = graph(vec![
        Pattern::FunctionCall(String::from("f")),
        Pattern::Primitive(Prim::Int),
        Pattern::Chain(vec![0, 1]),
    ]);
    let trace: Vec<FnOutcome> = vec![Ok(RationaleResult::Transform(Value::Int(7)))];
    let v = Value::Str(String::from("x"));
    match evaluate(&g, 2, &v, &trace) {
        Ok(Evaluation::Complete { rationale, output }) => {
            assert!(rationale.is_match());
            assert!(value_eq(&output, &Value::Int(7)));
            assert_eq!(rationale.children.len(), 2);
        }
        _ => panic!("expected completion"),
    }
    // Without the transform the second step sees the original string.
    let trace2: Vec<FnOutcome> = vec![Ok(RationaleResult::Match)];
    match evaluate(&g, 2, &v, &trace2) {
        Ok(Evaluation::Complete { rationale, output }) => {
            assert!(!rationale.is_match());
            assert!(value_eq(&output, &v));
        }
        _ => panic!("expected completion"),
    }
}

#[test]
fn function_error_becomes_local_error_rationale() {
    let g = graph(vec![
        Pattern::FunctionCall(String::from("f")),
        Pattern::Primitive(Prim::Str),
        Pattern::Or(vec![0, 1]),
    ]);
    let trace: Vec<FnOutcome> = vec![Err(
        policy_engine::rationale::FunctionError::Other(String::from("no signatures")),
    )];
    let v = Value::Str(String::from("x"));
    match evaluate(&g, 2, &v, &trace) {
        Ok(Evaluation::Complete { rationale, output: _ }) => {
            assert!(rationale.is_match());
            assert!(!rationale.children[0].is_match());
            assert!(rationale.children[1].is_match());
        }
        _ => panic!("expected completion: a function error stays local"),
    }
}

#[test]
fn clone_and_equality_are_structural() {
    let v = Value::Object(vec![
        ObjectField {
            name: String::from("xs"),
            value: Value::List(vec![Value::Int(1), Value::Octets(vec![1, 2, 3])]),
        },
        ObjectField { name: String::from("b"), value: Value::Bool(true) },
    ]);
    let c = clone_value(&v);
    assert!(value_eq(&v, &c));
    let other = Value::Object(vec![ObjectField {
        name: String::from("xs"),
        value: Value::List(vec![Value::Int(1), Value::Octets(vec![1, 2, 4])]),
    }]);
    assert!(!value_eq(&v, &other));
    assert_eq!(v.try_get_string(), None);
    assert_eq!(
        Value::Str(String::from("s")).try_get_string(),
        Some(String::from("s"))
    );
}

#[test]
fn well_formed_decides_graph_validity() {
    let good = graph(vec![Pattern::Primitive(Prim::Str), Pattern::Not(0)]);
    assert!(good.well_formed());
    let bad = graph(vec![Pattern::Not(7)]);
    assert!(!bad.well_formed());
    let bad_and = graph(vec![Pattern::And(vec![0, 3])]);
    assert!(!bad_and.well_formed());
}
