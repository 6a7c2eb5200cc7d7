use policy_engine::compile::compile;
use policy_engine::eval::{evaluate, Evaluation, FnOutcome};
use policy_engine::pattern::Prim;
use policy_engine::registry::{
    CompileError, Hir, Package, PackagePath, PatternDef, Registry,
};
use policy_engine::value::Value;

fn path(parts: &[&str]) -> Vec<String> {
    parts.iter().map(|s| String::from(*s)).collect()
}

fn pkg(parts: &[&str]) -> Package {
    Package::new(PackagePath::from_parts(path(parts)))
}

#[test]
fn unresolved_reference_lands_in_the_batch() {
    let mut p = pkg(&["demo"]);
    p.register_pattern(PatternDef {
        name: String::from("main"),
        params: Vec::new(),
        body: Hir::Ref { path: path(&["demo"]), name: String::from("nosuch"), args: Vec::new() },
    })
    .unwrap();
    let mut reg = Registry::new();
    reg.add_package(p);
    match compile(&reg) {
        Err(errs) => {
            assert!(errs.iter().any(|e| matches!(
                e,
                CompileError::UnresolvedReference(n) if n == "nosuch"
            )));
        }
        Ok(_) => panic!("an unresolved reference must fail compilation"),
    }
}

#[test]
fn nested_unresolved_reference_is_still_reported() {
    let mut p = pkg(&["demo"]);
    p.register_pattern(PatternDef {
        name: String::from("main"),
        params: Vec::new(),
        body: Hir::And(vec![
            Hir::Primitive(Prim::Str),
            Hir::Not(Box::new(Hir::Object(vec![policy_engine::registry::HirField {
                name: String::from("f"),
                body: Hir::Ref {
                    path: path(&["demo"]),
                    name: String::from("ghost_name"),
                    args: Vec::new(),
                },
            }]))),
        ]),
    })
    .unwrap();
    let mut reg = Registry::new();
    reg.add_package(p);
    match compile(&reg) {
        Err(errs) => {
            assert!(errs.iter().any(|e| matches!(
                e,
                CompileError::UnresolvedReference(n) if n == "ghost_name"
            )));
        }
        Ok(_) => panic!("a nested unresolved reference must fail compilation"),
    }
}

#[test]
fn arity_mismatch_is_reported() {
    let mut p = pkg(&["demo"]);
    p.register_pattern(PatternDef {
        name: String::from("maybe"),
        params: vec![String::from("P")],
        body: Hir::Or(vec![Hir::Parameter(String::from("P")), Hir::Primitive(Prim::Null)]),
    })
    .unwrap();
    p.register_pattern(PatternDef {
        name: String::from("main"),
        params: Vec::new(),
        body: Hir::Ref { path: path(&["demo"]), name: String::from("maybe"), args: Vec::new() },
    })
    .unwrap();
    let mut reg = Registry::new();
    reg.add_package(p);
    match compile(&reg) {
        Err(errs) => {
            assert!(errs.iter().any(|e| matches!(
                e,
                CompileError::ArityMismatch { name, expected: 1, found: 0 } if name == "maybe"
            )));
        }
        Ok(_) => panic!("an arity mismatch must fail compilation"),
    }
}

#[test]
fn duplicate_name_is_refused_at_registration() {
    let mut p = pkg(&["demo"]);
    p.register_function(String::from("SHA256")).unwrap();
    match p.register_function(String::from("SHA256")) {
        Err(CompileError::DuplicateName(n)) => assert_eq!(n, "SHA256"),
        _ => panic!("a duplicate function name must be refused"),
    }
    p.register_pattern(PatternDef {
        name: String::from("d"),
        params: Vec::new(),
        body: Hir::Primitive(Prim::Null),
    })
    .unwrap();
    match p.register_pattern(PatternDef {
        name: String::from("d"),
        params: Vec::new(),
        body: Hir::Primitive(Prim::Bool),
    }) {
        Err(CompileError::DuplicateName(n)) => assert_eq!(n, "d"),
        _ => panic!("a duplicate pattern name must be refused"),
    }
}

#[test]
fn unbound_parameter_is_a_compile_error() {
    let mut p = pkg(&["demo"]);
    p.register_pattern(PatternDef {
        name: String::from("main"),
        params: Vec::new(),
        body: Hir::Parameter(String::from("Q")),
    })
    .unwrap();
    let mut reg = Registry::new();
    reg.add_package(p);
    match compile(&reg) {
        Err(errs) => {
            assert!(errs.iter().any(|e| matches!(
                e,
                CompileError::UnresolvedReference(n) if n == "Q"
            )));
        }
        Ok(_) => panic!("an unbound parameter must fail compilation"),
    }
}

#[test]
fn generic_instantiation_evaluates_the_argument() {
    let mut p = pkg(&["util"]);
    p.register_pattern(PatternDef {
        name: String::from("maybe"),
        params: vec![String::from("P")],
        body: Hir::Or(vec![Hir::Parameter(String::from("P")), Hir::Primitive(Prim::Null)]),
    })
    .unwrap();
    p.register_pattern(PatternDef {
        name: String::from("main"),
        params: Vec::new(),
        body: Hir::Ref {
            path: path(&["util"]),
            name: String::from("maybe"),
            args: vec![Hir::Primitive(Prim::Str)],
        },
    })
    .unwrap();
    let mut reg = Registry::new();
    reg.add_package(p);
    let unit = compile(&reg).expect("compilation succeeds");
    let root = unit.find(&path(&["util"]), &String::from("main")).expect("main exists");
    let trace: Vec<FnOutcome> = Vec::new();
    let cases = [
        (Value::Str(String::from("s")), true),
        (Value::Null, true),
        (Value::Int(2), false),
    ];
    for (v, expect) in cases {
        match evaluate(&unit.graph, root, &v, &trace).expect("no engine error") {
            Evaluation::Complete { rationale, output: _ } => {
                assert_eq!(rationale.is_match(), expect);
            }
            _ => panic!("expected completion"),
        }
    }
}

#[test]
fn compiled_function_reference_resolves_and_requests_outcome() {
    let mut util = pkg(&["sigstore"]);
    util.register_function(String::from("SHA256")).unwrap();
    let mut p = pkg(&["demo"]);
    p.register_pattern(PatternDef {
        name: String::from("main"),
        params: Vec::new(),
        body: Hir::FunctionRef { path: path(&["sigstore"]), name: String::from("SHA256") },
    })
    .unwrap();
    let mut reg = Registry::new();
    reg.add_package(util);
    reg.add_package(p);
    let unit = compile(&reg).expect("compilation succeeds");
    let root = unit.find(&path(&["demo"]), &String::from("main")).expect("main exists");
    let trace: Vec<FnOutcome> = Vec::new();
    match evaluate(&unit.graph, root, &Value::Str(String::from("deadbeef")), &trace) {
        Ok(Evaluation::NeedsFunction { name, input: _ }) => assert_eq!(name, "SHA256"),
        _ => panic!("expected a function request"),
    }
}

#[test]
fn unknown_function_reference_is_unresolved() {
    let mut p = pkg(&["demo"]);
    p.register_pattern(PatternDef {
        name: String::from("main"),
        params: Vec::new(),
        body: Hir::FunctionRef { path: path(&["sigstore"]), name: String::from("SHA999") },
    })
    .unwrap();
    let mut reg = Registry::new();
    reg.add_package(p);
    match compile(&reg) {
        Err(errs) => {
            assert!(errs.iter().any(|e| matches!(
                e,
                CompileError::UnresolvedReference(n) if n == "SHA999"
            )));
        }
        Ok(_) => panic!("an unknown function must fail compilation"),
    }
}

#[test]
fn self_referential_definition_compiles_and_hits_depth_guard() {
    let mut p = pkg(&["demo"]);
    p.register_pattern(PatternDef {
        name: String::from("looping"),
        params: Vec::new(),
        body: Hir::Ref { path: path(&["demo"]), name: String::from("looping"), args: Vec::new() },
    })
    .unwrap();
    let mut reg = Registry::new();
    reg.add_package(p);
    let unit = compile(&reg).expect("a lazy self-reference compiles");
    let root = unit.find(&path(&["demo"]), &String::from("looping")).expect("exists");
    let trace: Vec<FnOutcome> = Vec::new();
    match evaluate(&unit.graph, root, &Value::Null, &trace) {
        Err(policy_engine::eval::EngineError::StackDepthExceeded) => {}
        _ => panic!("expected the depth guard"),
    }
}
