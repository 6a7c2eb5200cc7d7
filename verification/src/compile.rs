use vstd::prelude::*;
use crate::value::clone_value;
use crate::pattern::{
    Pat, Pattern, PatternGraph, Bindings, RefNode, FieldPattern, Prim, pat_of, graph_of, graph_wf,
    pat_wf, env_wf,
};
use crate::registry::{
    Registry, Package, Hir, HirField, CompileError, path_model, segs_eq,
};

verus! {

/// Where one definition lives after slot reservation: its namespace path,
/// name, declared parameters, and the graph slot reserved for it.
#[derive(Debug)]
pub struct DefEntry {
    pub path: Vec<String>,
    pub name: String,
    pub params: Vec<String>,
    pub slot: usize,
}

/// One registered external function, addressable by path and name.
#[derive(Debug)]
pub struct FnEntry {
    pub path: Vec<String>,
    pub name: String,
}

/// The first definition entry matching `p`::`n`, searching from `i`.
pub open spec fn find_def(defs: Seq<DefEntry>, i: int, p: Seq<Seq<char>>, n: Seq<char>) -> Option<
    int,
>
    decreases defs.len() - i,
{
    if i < 0 || i >= defs.len() {
        None
    } else if path_model(defs[i].path@) == p && defs[i].name@ == n {
        Some(i)
    } else {
        find_def(defs, i + 1, p, n)
    }
}

pub open spec fn fn_listed(fns: Seq<FnEntry>, p: Seq<Seq<char>>, n: Seq<char>) -> bool {
    exists|i: int|
        0 <= i < fns.len() && path_model((#[trigger] fns[i]).path@) == p && fns[i].name@ == n
}

pub open spec fn param_listed(params: Seq<String>, n: Seq<char>) -> bool {
    exists|i: int| 0 <= i < params.len() && (#[trigger] params[i])@ == n
}

/// Does `h` hold, anywhere inside it, a name `n` that neither the
/// definitions, the functions nor the declared parameters resolve?
pub open spec fn hir_unres(
    h: Hir,
    defs: Seq<DefEntry>,
    fns: Seq<FnEntry>,
    params: Seq<String>,
    n: Seq<char>,
) -> bool
    decreases h,
{
    match h {
        Hir::Literal(_) => false,
        Hir::Primitive(_) => false,
        Hir::Object(fs) => exists|i: int|
            0 <= i < fs@.len() && hir_unres((#[trigger] fs@[i]).body, defs, fns, params, n),
        Hir::Sequence(_, b) => hir_unres(*b, defs, fns, params, n),
        Hir::And(hs) => exists|i: int|
            0 <= i < hs@.len() && hir_unres(#[trigger] hs@[i], defs, fns, params, n),
        Hir::Or(hs) => exists|i: int|
            0 <= i < hs@.len() && hir_unres(#[trigger] hs@[i], defs, fns, params, n),
        Hir::Not(b) => hir_unres(*b, defs, fns, params, n),
        Hir::Chain(hs) => exists|i: int|
            0 <= i < hs@.len() && hir_unres(#[trigger] hs@[i], defs, fns, params, n),
        Hir::Ref { path, name, args } => (name@ == n && find_def(defs, 0, path_model(path@), n)
            is None) || (exists|i: int|
            0 <= i < args@.len() && hir_unres(#[trigger] args@[i], defs, fns, params, n)),
        Hir::FunctionRef { path, name } => name@ == n && !fn_listed(fns, path_model(path@), n),
        Hir::Parameter(q) => q@ == n && !param_listed(params, n),
    }
}

/// The batch holds an `UnresolvedReference` for `n`.
pub open spec fn err_has_unres(errs: Seq<CompileError>, n: Seq<char>) -> bool {
    exists|i: int|
        0 <= i < errs.len() && ((#[trigger] errs[i]) matches CompileError::UnresolvedReference(m)
            && m@ == n)
}

/// Does `h` hold, anywhere inside it, a reference to a definition named
/// `n` that resolves but is handed the wrong number of arguments?
pub open spec fn hir_arity_bad(h: Hir, defs: Seq<DefEntry>, n: Seq<char>) -> bool
    decreases h,
{
    match h {
        Hir::Literal(_) => false,
        Hir::Primitive(_) => false,
        Hir::Object(fs) => exists|i: int|
            0 <= i < fs@.len() && hir_arity_bad((#[trigger] fs@[i]).body, defs, n),
        Hir::Sequence(_, b) => hir_arity_bad(*b, defs, n),
        Hir::And(hs) => exists|i: int|
            0 <= i < hs@.len() && hir_arity_bad(#[trigger] hs@[i], defs, n),
        Hir::Or(hs) => exists|i: int|
            0 <= i < hs@.len() && hir_arity_bad(#[trigger] hs@[i], defs, n),
        Hir::Not(b) => hir_arity_bad(*b, defs, n),
        Hir::Chain(hs) => exists|i: int|
            0 <= i < hs@.len() && hir_arity_bad(#[trigger] hs@[i], defs, n),
        Hir::Ref { path, name, args } => (name@ == n && (match find_def(
            defs,
            0,
            path_model(path@),
            n,
        ) {
            Some(d) => args@.len() != defs[d].params@.len(),
            None => false,
        })) || (exists|i: int|
            0 <= i < args@.len() && hir_arity_bad(#[trigger] args@[i], defs, n)),
        Hir::FunctionRef { path: _, name: _ } => false,
        Hir::Parameter(_) => false,
    }
}

/// The batch holds an `ArityMismatch` for `n`.
pub open spec fn err_has_arity(errs: Seq<CompileError>, n: Seq<char>) -> bool {
    exists|i: int|
        0 <= i < errs.len() && ((#[trigger] errs[i]) matches CompileError::ArityMismatch {
            name: m,
            expected: _,
            found: _,
        } && m@ == n)
}

proof fn lemma_err_mono_arity(e1: Seq<CompileError>, e2: Seq<CompileError>, n: Seq<char>)
    requires
        e1.len() <= e2.len(),
        forall|k: int| 0 <= k < e1.len() ==> e2[k] == e1[k],
        err_has_arity(e1, n),
    ensures
        err_has_arity(e2, n),
{
    let i = choose|i: int|
        0 <= i < e1.len() && ((#[trigger] e1[i]) matches CompileError::ArityMismatch {
            name: m,
            expected: _,
            found: _,
        } && m@ == n);
    assert(e2[i] == e1[i]);
}

proof fn lemma_err_mono(e1: Seq<CompileError>, e2: Seq<CompileError>, n: Seq<char>)
    requires
        e1.len() <= e2.len(),
        forall|k: int| 0 <= k < e1.len() ==> e2[k] == e1[k],
        err_has_unres(e1, n),
    ensures
        err_has_unres(e2, n),
{
    let i = choose|i: int|
        0 <= i < e1.len() && ((#[trigger] e1[i]) matches CompileError::UnresolvedReference(m) && m@
            == n);
    assert(e2[i] == e1[i]);
}

proof fn lemma_pat_wf_mono(p: Pat, n: int, m: int)
    requires
        pat_wf(p, n),
        n <= m,
    ensures
        pat_wf(p, m),
{
    match p {
        Pat::Ref { name: _, target: _, bindings } => {
            assert(env_wf(bindings, m));
        },
        _ => {},
    }
}

proof fn lemma_graph_wf_push(gm: Seq<Pat>, p: Pat)
    requires
        graph_wf(gm),
        pat_wf(p, gm.len() as int + 1),
    ensures
        graph_wf(gm.push(p)),
{
    let g2 = gm.push(p);
    assert forall|i: int| 0 <= i < g2.len() implies pat_wf(#[trigger] g2[i], g2.len() as int) by {
        if i < gm.len() {
            assert(g2[i] == gm[i]);
            lemma_pat_wf_mono(gm[i], gm.len() as int, g2.len() as int);
        }
    }
}

proof fn lemma_graph_of_push(s: Seq<Pattern>, x: Pattern)
    ensures
        graph_of(s.push(x)) == graph_of(s).push(pat_of(x)),
{
    assert(graph_of(s.push(x)) =~= graph_of(s).push(pat_of(x)));
}

fn lookup_def(defs: &Vec<DefEntry>, path: &Vec<String>, name: &String) -> (r: Option<usize>)
    ensures
        match r {
            Some(d) => find_def(defs@, 0, path_model(path@), name@) == Some(d as int) && d
                < defs@.len(),
            None => find_def(defs@, 0, path_model(path@), name@) is None,
        },
{
    let mut i: usize = 0;
    while i < defs.len()
        invariant
            i <= defs@.len(),
            find_def(defs@, 0, path_model(path@), name@) == find_def(
                defs@,
                i as int,
                path_model(path@),
                name@,
            ),
        decreases defs@.len() - i,
    {
        if segs_eq(&defs[i].path, path) && defs[i].name == *name {
            return Some(i);
        }
        i = i + 1;
    }
    None
}

fn lookup_fn(fns: &Vec<FnEntry>, path: &Vec<String>, name: &String) -> (r: bool)
    ensures
        r == fn_listed(fns@, path_model(path@), name@),
{
    let mut i: usize = 0;
    while i < fns.len()
        invariant
            i <= fns@.len(),
            forall|j: int|
                0 <= j < i ==> !(path_model((#[trigger] fns@[j]).path@) == path_model(path@)
                    && fns@[j].name@ == name@),
        decreases fns@.len() - i,
    {
        if segs_eq(&fns[i].path, path) && fns[i].name == *name {
            return true;
        }
        i = i + 1;
    }
    false
}

fn param_contains(params: &Vec<String>, name: &String) -> (r: bool)
    ensures
        r == param_listed(params@, name@),
{
    let mut i: usize = 0;
    while i < params.len()
        invariant
            i <= params@.len(),
            forall|j: int| 0 <= j < i ==> (#[trigger] params@[j])@ != name@,
        decreases params@.len() - i,
    {
        if params[i] == *name {
            return true;
        }
        i = i + 1;
    }
    false
}

fn clone_path(v: &Vec<String>) -> (r: Vec<String>)
    ensures
        r@ == v@,
{
    let mut out: Vec<String> = Vec::new();
    let mut i: usize = 0;
    while i < v.len()
        invariant
            i <= v@.len(),
            out@ =~= v@.subrange(0, i as int),
        decreases v@.len() - i,
    {
        out.push(v[i].clone());
        i = i + 1;
    }
    assert(out@ =~= v@);
    out
}

/// Compile one surface pattern into the graph, collecting every
/// unresolved name and arity mismatch into the batch: compilation never
/// stops at the first problem. The last clause is the guarantee that makes
/// diagnostics trustworthy: every name anywhere inside `h` that neither
/// the definitions, the functions nor the declared parameters resolve ends
/// up in the batch as an `UnresolvedReference`.
pub fn compile_hir(
    h: &Hir,
    defs: &Vec<DefEntry>,
    fns: &Vec<FnEntry>,
    params: &Vec<String>,
    graph: &mut Vec<Pattern>,
    errs: &mut Vec<CompileError>,
) -> (idx: usize)
    requires
        forall|k: int| 0 <= k < defs@.len() ==> (#[trigger] defs@[k]).slot < old(graph)@.len(),
        graph_wf(graph_of(old(graph)@)),
    ensures
        old(graph)@.len() < final(graph)@.len(),
        forall|k: int| 0 <= k < old(graph)@.len() ==> final(graph)@[k] == old(graph)@[k],
        idx < final(graph)@.len(),
        graph_wf(graph_of(final(graph)@)),
        old(errs)@.len() <= final(errs)@.len(),
        forall|k: int| 0 <= k < old(errs)@.len() ==> final(errs)@[k] == old(errs)@[k],
        forall|n: Seq<char>|
            hir_unres(*h, defs@, fns@, params@, n) ==> err_has_unres(final(errs)@, n),
        forall|n: Seq<char>|
            hir_arity_bad(*h, defs@, n) ==> err_has_arity(final(errs)@, n),
    decreases *h, 0int,
{
    match h {
        Hir::Literal(v) => {
            let node = Pattern::Literal(clone_value(v));
            proof {
                lemma_graph_wf_push(graph_of(graph@), pat_of(node));
                lemma_graph_of_push(graph@, node);
            }
            let idx = graph.len();
            graph.push(node);
            idx
        },
        Hir::Primitive(k) => {
            let node = Pattern::Primitive(*k);
            proof {
                lemma_graph_wf_push(graph_of(graph@), pat_of(node));
                lemma_graph_of_push(graph@, node);
            }
            let idx = graph.len();
            graph.push(node);
            idx
        },
        Hir::Object(fs) => {
            let fps = compile_fields(fs, 0, defs, fns, params, graph, errs);
            let node = Pattern::Object(fps);
            proof {
                lemma_graph_wf_push(graph_of(graph@), pat_of(node));
                lemma_graph_of_push(graph@, node);
            }
            let idx = graph.len();
            graph.push(node);
            proof {
                assert forall|n: Seq<char>|
                    hir_unres(*h, defs@, fns@, params@, n) implies err_has_unres(
                    final(errs)@,
                    n,
                ) by {
                    let k = choose|k: int|
                        0 <= k < fs@.len() && hir_unres(
                            (#[trigger] fs@[k]).body,
                            defs@,
                            fns@,
                            params@,
                            n,
                        );
                    assert(0 <= k < fs@.len() && hir_unres(fs@[k].body, defs@, fns@, params@, n));
                }
                assert forall|n: Seq<char>|
                    hir_arity_bad(*h, defs@, n) implies err_has_arity(final(errs)@, n) by {
                    let k = choose|k: int|
                        0 <= k < fs@.len() && hir_arity_bad((#[trigger] fs@[k]).body, defs@, n);
                    assert(0 <= k < fs@.len() && hir_arity_bad(fs@[k].body, defs@, n));
                }
            }
            idx
        },
        Hir::Sequence(mode, b) => {
            let sub = compile_hir(b, defs, fns, params, graph, errs);
            let node = Pattern::Sequence(*mode, sub);
            proof {
                lemma_graph_wf_push(graph_of(graph@), pat_of(node));
                lemma_graph_of_push(graph@, node);
            }
            let idx = graph.len();
            graph.push(node);
            idx
        },
        Hir::And(hs) => {
            let idxs = compile_list(hs, 0, defs, fns, params, graph, errs);
            let node = Pattern::And(idxs);
            proof {
                lemma_graph_wf_push(graph_of(graph@), pat_of(node));
                lemma_graph_of_push(graph@, node);
            }
            let idx = graph.len();
            graph.push(node);
            proof {
                assert forall|n: Seq<char>|
                    hir_unres(*h, defs@, fns@, params@, n) implies err_has_unres(
                    final(errs)@,
                    n,
                ) by {
                    let k = choose|k: int|
                        0 <= k < hs@.len() && hir_unres(#[trigger] hs@[k], defs@, fns@, params@, n);
                    assert(0 <= k < hs@.len() && hir_unres(hs@[k], defs@, fns@, params@, n));
                }
                assert forall|n: Seq<char>|
                    hir_arity_bad(*h, defs@, n) implies err_has_arity(final(errs)@, n) by {
                    let k = choose|k: int|
                        0 <= k < hs@.len() && hir_arity_bad(#[trigger] hs@[k], defs@, n);
                    assert(0 <= k < hs@.len() && hir_arity_bad(hs@[k], defs@, n));
                }
            }
            idx
        },
        Hir::Or(hs) => {
            let idxs = compile_list(hs, 0, defs, fns, params, graph, errs);
            let node = Pattern::Or(idxs);
            proof {
                lemma_graph_wf_push(graph_of(graph@), pat_of(node));
                lemma_graph_of_push(graph@, node);
            }
            let idx = graph.len();
            graph.push(node);
            proof {
                assert forall|n: Seq<char>|
                    hir_unres(*h, defs@, fns@, params@, n) implies err_has_unres(
                    final(errs)@,
                    n,
                ) by {
                    let k = choose|k: int|
                        0 <= k < hs@.len() && hir_unres(#[trigger] hs@[k], defs@, fns@, params@, n);
                    assert(0 <= k < hs@.len() && hir_unres(hs@[k], defs@, fns@, params@, n));
                }
                assert forall|n: Seq<char>|
                    hir_arity_bad(*h, defs@, n) implies err_has_arity(final(errs)@, n) by {
                    let k = choose|k: int|
                        0 <= k < hs@.len() && hir_arity_bad(#[trigger] hs@[k], defs@, n);
                    assert(0 <= k < hs@.len() && hir_arity_bad(hs@[k], defs@, n));
                }
            }
            idx
        },
        Hir::Chain(hs) => {
            let idxs = compile_list(hs, 0, defs, fns, params, graph, errs);
            let node = Pattern::Chain(idxs);
            proof {
                lemma_graph_wf_push(graph_of(graph@), pat_of(node));
                lemma_graph_of_push(graph@, node);
            }
            let idx = graph.len();
            graph.push(node);
            proof {
                assert forall|n: Seq<char>|
                    hir_unres(*h, defs@, fns@, params@, n) implies err_has_unres(
                    final(errs)@,
                    n,
                ) by {
                    let k = choose|k: int|
                        0 <= k < hs@.len() && hir_unres(#[trigger] hs@[k], defs@, fns@, params@, n);
                    assert(0 <= k < hs@.len() && hir_unres(hs@[k], defs@, fns@, params@, n));
                }
                assert forall|n: Seq<char>|
                    hir_arity_bad(*h, defs@, n) implies err_has_arity(final(errs)@, n) by {
                    let k = choose|k: int|
                        0 <= k < hs@.len() && hir_arity_bad(#[trigger] hs@[k], defs@, n);
                    assert(0 <= k < hs@.len() && hir_arity_bad(hs@[k], defs@, n));
                }
            }
            idx
        },
        Hir::Not(b) => {
            let sub = compile_hir(b, defs, fns, params, graph, errs);
            let node = Pattern::Not(sub);
            proof {
                lemma_graph_wf_push(graph_of(graph@), pat_of(node));
                lemma_graph_of_push(graph@, node);
            }
            let idx = graph.len();
            graph.push(node);
            idx
        },
        Hir::Parameter(q) => {
            if !param_contains(params, q) {
                errs.push(CompileError::UnresolvedReference(q.clone()));
            }
            let node = Pattern::Parameter(q.clone());
            proof {
                lemma_graph_wf_push(graph_of(graph@), pat_of(node));
                lemma_graph_of_push(graph@, node);
            }
            let idx = graph.len();
            graph.push(node);
            proof {
                assert forall|n: Seq<char>|
                    hir_unres(*h, defs@, fns@, params@, n) implies err_has_unres(
                    final(errs)@,
                    n,
                ) by {
                    let last = final(errs)@.len() - 1;
                    assert(final(errs)@[last] matches CompileError::UnresolvedReference(m) && m@
                        == n);
                }
            }
            idx
        },
        Hir::FunctionRef { path, name } => {
            if !lookup_fn(fns, path, name) {
                errs.push(CompileError::UnresolvedReference(name.clone()));
            }
            let node = Pattern::FunctionCall(name.clone());
            proof {
                lemma_graph_wf_push(graph_of(graph@), pat_of(node));
                lemma_graph_of_push(graph@, node);
            }
            let idx = graph.len();
            graph.push(node);
            proof {
                assert forall|n: Seq<char>|
                    hir_unres(*h, defs@, fns@, params@, n) implies err_has_unres(
                    final(errs)@,
                    n,
                ) by {
                    let last = final(errs)@.len() - 1;
                    assert(final(errs)@[last] matches CompileError::UnresolvedReference(m) && m@
                        == n);
                }
            }
            idx
        },
        Hir::Ref { path, name, args } => {
            let arg_idxs = compile_list(args, 0, defs, fns, params, graph, errs);
            let ghost errs1 = errs@;
            match lookup_def(defs, path, name) {
                None => {
                    errs.push(CompileError::UnresolvedReference(name.clone()));
                    let node = Pattern::Primitive(Prim::Null);
                    proof {
                        lemma_graph_wf_push(graph_of(graph@), pat_of(node));
                        lemma_graph_of_push(graph@, node);
                    }
                    let idx = graph.len();
                    graph.push(node);
                    proof {
                        assert forall|n: Seq<char>|
                            hir_unres(*h, defs@, fns@, params@, n) implies err_has_unres(
                            final(errs)@,
                            n,
                        ) by {
                            if name@ == n && find_def(defs@, 0, path_model(path@), n) is None {
                                assert(final(errs)@[errs1.len() as int]
                                    matches CompileError::UnresolvedReference(m) && m@ == n);
                            } else {
                                lemma_err_mono(errs1, final(errs)@, n);
                            }
                        }
                        assert forall|n: Seq<char>|
                            hir_arity_bad(*h, defs@, n) implies err_has_arity(
                            final(errs)@,
                            n,
                        ) by {
                            lemma_err_mono_arity(errs1, final(errs)@, n);
                        }
                    }
                    idx
                },
                Some(d) => {
                    if args.len() != defs[d].params.len() {
                        errs.push(
                            CompileError::ArityMismatch {
                                name: name.clone(),
                                expected: defs[d].params.len(),
                                found: args.len(),
                            },
                        );
                    }
                    let mut entries: Vec<(String, usize)> = Vec::new();
                    let limit = if args.len() < defs[d].params.len() {
                        args.len()
                    } else {
                        defs[d].params.len()
                    };
                    let mut k: usize = 0;
                    while k < limit
                        invariant
                            k <= limit,
                            d < defs@.len(),
                            limit <= defs@[d as int].params@.len(),
                            limit <= arg_idxs@.len(),
                            forall|t: int|
                                0 <= t < arg_idxs@.len() ==> ((#[trigger] arg_idxs@[t]) as int)
                                    < graph@.len(),
                            entries@.len() == k,
                            forall|t: int|
                                0 <= t < k ==> ((#[trigger] entries@[t]).1 as int) < graph@.len(),
                        decreases limit - k,
                    {
                        entries.push((defs[d].params[k].clone(), arg_idxs[k]));
                        k = k + 1;
                    }
                    let node = Pattern::Ref(
                        RefNode {
                            name: name.clone(),
                            target: defs[d].slot,
                            bindings: Bindings { entries },
                        },
                    );
                    proof {
                        assert(pat_wf(pat_of(node), graph@.len() as int + 1));
                        lemma_graph_wf_push(graph_of(graph@), pat_of(node));
                        lemma_graph_of_push(graph@, node);
                    }
                    let idx = graph.len();
                    graph.push(node);
                    proof {
                        assert forall|n: Seq<char>|
                            hir_unres(*h, defs@, fns@, params@, n) implies err_has_unres(
                            final(errs)@,
                            n,
                        ) by {
                            lemma_err_mono(errs1, final(errs)@, n);
                        }
                        assert forall|n: Seq<char>|
                            hir_arity_bad(*h, defs@, n) implies err_has_arity(
                            final(errs)@,
                            n,
                        ) by {
                            if n == name@ && args@.len() != defs@[d as int].params@.len() {
                                assert(final(errs)@[errs1.len() as int]
                                    matches CompileError::ArityMismatch {
                                        name: m,
                                        expected: _,
                                        found: _,
                                    } && m@ == n);
                            } else {
                                lemma_err_mono_arity(errs1, final(errs)@, n);
                            }
                        }
                    }
                    idx
                },
            }
        },
    }
}

/// Compile the surface patterns `hs[i..]`, returning their node indices.
fn compile_list(
    hs: &Vec<Hir>,
    i: usize,
    defs: &Vec<DefEntry>,
    fns: &Vec<FnEntry>,
    params: &Vec<String>,
    graph: &mut Vec<Pattern>,
    errs: &mut Vec<CompileError>,
) -> (idxs: Vec<usize>)
    requires
        i <= hs@.len(),
        forall|k: int| 0 <= k < defs@.len() ==> (#[trigger] defs@[k]).slot < old(graph)@.len(),
        graph_wf(graph_of(old(graph)@)),
    ensures
        old(graph)@.len() <= final(graph)@.len(),
        forall|k: int| 0 <= k < old(graph)@.len() ==> final(graph)@[k] == old(graph)@[k],
        graph_wf(graph_of(final(graph)@)),
        idxs@.len() == hs@.len() - i,
        forall|k: int| 0 <= k < idxs@.len() ==> ((#[trigger] idxs@[k]) as int) < final(graph)@.len(),
        old(errs)@.len() <= final(errs)@.len(),
        forall|k: int| 0 <= k < old(errs)@.len() ==> final(errs)@[k] == old(errs)@[k],
        forall|n: Seq<char>|
            (exists|k: int|
                i <= k < hs@.len() && hir_unres(#[trigger] hs@[k], defs@, fns@, params@, n))
                ==> err_has_unres(final(errs)@, n),
        forall|n: Seq<char>|
            (exists|k: int| i <= k < hs@.len() && hir_arity_bad(#[trigger] hs@[k], defs@, n))
                ==> err_has_arity(final(errs)@, n),
    decreases *hs, hs@.len() - i,
{
    if i >= hs.len() {
        Vec::new()
    } else {
        let first = compile_hir(&hs[i], defs, fns, params, graph, errs);
        let ghost errs1 = errs@;
        let mut rest = compile_list(hs, i + 1, defs, fns, params, graph, errs);
        rest.insert(0, first);
        proof {
            assert forall|n: Seq<char>|
                (exists|k: int|
                    i <= k < hs@.len() && hir_unres(#[trigger] hs@[k], defs@, fns@, params@, n))
                    implies err_has_unres(final(errs)@, n) by {
                let k = choose|k: int|
                    i <= k < hs@.len() && hir_unres(#[trigger] hs@[k], defs@, fns@, params@, n);
                if k == i {
                    lemma_err_mono(errs1, final(errs)@, n);
                }
            }
            assert forall|n: Seq<char>|
                (exists|k: int| i <= k < hs@.len() && hir_arity_bad(#[trigger] hs@[k], defs@, n))
                    implies err_has_arity(final(errs)@, n) by {
                let k = choose|k: int|
                    i <= k < hs@.len() && hir_arity_bad(#[trigger] hs@[k], defs@, n);
                if k == i {
                    lemma_err_mono_arity(errs1, final(errs)@, n);
                }
            }
        }
        rest
    }
}

/// Compile the field constraints `fs[i..]` of an object pattern.
fn compile_fields(
    fs: &Vec<HirField>,
    i: usize,
    defs: &Vec<DefEntry>,
    fns: &Vec<FnEntry>,
    params: &Vec<String>,
    graph: &mut Vec<Pattern>,
    errs: &mut Vec<CompileError>,
) -> (fps: Vec<FieldPattern>)
    requires
        i <= fs@.len(),
        forall|k: int| 0 <= k < defs@.len() ==> (#[trigger] defs@[k]).slot < old(graph)@.len(),
        graph_wf(graph_of(old(graph)@)),
    ensures
        old(graph)@.len() <= final(graph)@.len(),
        forall|k: int| 0 <= k < old(graph)@.len() ==> final(graph)@[k] == old(graph)@[k],
        graph_wf(graph_of(final(graph)@)),
        fps@.len() == fs@.len() - i,
        forall|k: int|
            0 <= k < fps@.len() ==> ((#[trigger] fps@[k]).pattern as int) < final(graph)@.len(),
        old(errs)@.len() <= final(errs)@.len(),
        forall|k: int| 0 <= k < old(errs)@.len() ==> final(errs)@[k] == old(errs)@[k],
        forall|n: Seq<char>|
            (exists|k: int|
                i <= k < fs@.len() && hir_unres((#[trigger] fs@[k]).body, defs@, fns@, params@, n))
                ==> err_has_unres(final(errs)@, n),
        forall|n: Seq<char>|
            (exists|k: int|
                i <= k < fs@.len() && hir_arity_bad((#[trigger] fs@[k]).body, defs@, n))
                ==> err_has_arity(final(errs)@, n),
    decreases *fs, fs@.len() - i,
{
    if i >= fs.len() {
        Vec::new()
    } else {
        let sub = compile_hir(&fs[i].body, defs, fns, params, graph, errs);
        let ghost errs1 = errs@;
        let mut rest = compile_fields(fs, i + 1, defs, fns, params, graph, errs);
        rest.insert(0, FieldPattern { name: fs[i].name.clone(), pattern: sub });
        proof {
            assert forall|n: Seq<char>|
                (exists|k: int|
                    i <= k < fs@.len() && hir_unres(
                        (#[trigger] fs@[k]).body,
                        defs@,
                        fns@,
                        params@,
                        n,
                    )) implies err_has_unres(final(errs)@, n) by {
                let k = choose|k: int|
                    i <= k < fs@.len() && hir_unres((#[trigger] fs@[k]).body, defs@, fns@, params@, n);
                if k == i {
                    lemma_err_mono(errs1, final(errs)@, n);
                }
            }
            assert forall|n: Seq<char>|
                (exists|k: int|
                    i <= k < fs@.len() && hir_arity_bad((#[trigger] fs@[k]).body, defs@, n))
                    implies err_has_arity(final(errs)@, n) by {
                let k = choose|k: int|
                    i <= k < fs@.len() && hir_arity_bad((#[trigger] fs@[k]).body, defs@, n);
                if k == i {
                    lemma_err_mono_arity(errs1, final(errs)@, n);
                }
            }
        }
        rest
    }
}


proof fn lemma_graph_wf_update(gm: Seq<Pat>, i: int, p: Pat)
    requires
        graph_wf(gm),
        0 <= i < gm.len(),
        pat_wf(p, gm.len() as int),
    ensures
        graph_wf(gm.update(i, p)),
{
    let g2 = gm.update(i, p);
    assert forall|k: int| 0 <= k < g2.len() implies pat_wf(#[trigger] g2[k], g2.len() as int) by {
        if k != i {
            assert(g2[k] == gm[k]);
        }
    }
}

/// The usable output of a successful compilation: the resolved, read-only
/// graph, and where each definition's entry node stands in it.
#[derive(Debug)]
pub struct CompiledUnit {
    pub graph: PatternGraph,
    pub entries: Vec<DefEntry>,
}

pub open spec fn unit_wf(u: CompiledUnit) -> bool {
    &&& graph_wf(u.graph@)
    &&& forall|k: int|
        0 <= k < u.entries@.len() ==> ((#[trigger] u.entries@[k]).slot as int) < u.graph.nodes@.len()
}

impl CompiledUnit {
    /// The entry node of the definition registered under `path`::`name`.
    pub fn find(&self, path: &Vec<String>, name: &String) -> (r: Option<usize>)
        ensures
            match r {
                Some(t) => (find_def(self.entries@, 0, path_model(path@), name@) matches Some(d)
                    && self.entries@[d].slot == t) && (unit_wf(*self) ==> t
                    < self.graph.nodes@.len()),
                None => find_def(self.entries@, 0, path_model(path@), name@) is None,
            },
    {
        match lookup_def(&self.entries, path, name) {
            Some(d) => Some(self.entries[d].slot),
            None => None,
        }
    }
}

/// How many definitions the first `a` packages hold.
pub open spec fn defs_before(pkgs: Seq<Package>, a: int) -> int
    decreases a,
{
    if a <= 0 {
        0
    } else {
        defs_before(pkgs, a - 1) + pkgs[a - 1].patterns@.len()
    }
}

/// How many function names the first `a` packages expose.
pub open spec fn fns_before(pkgs: Seq<Package>, a: int) -> int
    decreases a,
{
    if a <= 0 {
        0
    } else {
        fns_before(pkgs, a - 1) + pkgs[a - 1].functions@.len()
    }
}

/// Entry `defs_before(pkgs, a) + b` of the definition table describes
/// definition `b` of package `a`: same path, name and parameters.
pub open spec fn def_entry_ok(pkgs: Seq<Package>, defs: Seq<DefEntry>, a: int, b: int) -> bool {
    &&& 0 <= defs_before(pkgs, a) + b < defs.len()
    &&& path_model(defs[defs_before(pkgs, a) + b].path@) == pkgs[a].path@
    &&& defs[defs_before(pkgs, a) + b].name@ == pkgs[a].patterns@[b].name@
    &&& path_model(defs[defs_before(pkgs, a) + b].params@) == path_model(
        pkgs[a].patterns@[b].params@,
    )
}

/// `defs` is the definition table of `pkgs`: one entry per definition, in
/// registration order.
pub open spec fn defs_for(pkgs: Seq<Package>, defs: Seq<DefEntry>) -> bool {
    &&& defs.len() == defs_before(pkgs, pkgs.len() as int)
    &&& forall|a: int, b: int|
        0 <= a < pkgs.len() && 0 <= b < pkgs[a].patterns@.len() ==> #[trigger] def_entry_ok(
            pkgs,
            defs,
            a,
            b,
        )
}

pub open spec fn fn_entry_ok(pkgs: Seq<Package>, fns: Seq<FnEntry>, a: int, b: int) -> bool {
    &&& 0 <= fns_before(pkgs, a) + b < fns.len()
    &&& path_model(fns[fns_before(pkgs, a) + b].path@) == pkgs[a].path@
    &&& fns[fns_before(pkgs, a) + b].name@ == pkgs[a].functions@[b]@
}

/// `fns` is the function table of `pkgs`: one entry per registered
/// function name, in registration order.
pub open spec fn fns_for(pkgs: Seq<Package>, fns: Seq<FnEntry>) -> bool {
    &&& fns.len() == fns_before(pkgs, pkgs.len() as int)
    &&& forall|a: int, b: int|
        0 <= a < pkgs.len() && 0 <= b < pkgs[a].functions@.len() ==> #[trigger] fn_entry_ok(
            pkgs,
            fns,
            a,
            b,
        )
}

proof fn lemma_defs_before_step(pkgs: Seq<Package>, a: int, m: int)
    requires
        0 <= a < m <= pkgs.len(),
    ensures
        defs_before(pkgs, a) + pkgs[a].patterns@.len() <= defs_before(pkgs, m),
    decreases m,
{
    if m == a + 1 {
    } else {
        lemma_defs_before_step(pkgs, a, m - 1);
    }
}

/// Compile every definition of every registered package into one shared
/// pattern graph. Each definition gets an entry node that delegates to its
/// compiled body, so references (including self-references) link by stable
/// index. All diagnostics of the whole unit are collected and returned
/// together; a compilation with any diagnostic yields no graph. The last
/// clause lifts `compile_hir`'s guarantee over the registry: on success no
/// definition holds an unresolved name and the unit's entry table mirrors
/// the registry's definitions one-to-one; on failure the batch names every
/// unresolved name of every definition.
pub fn compile(reg: &Registry) -> (r: Result<CompiledUnit, Vec<CompileError>>)
    ensures
        r matches Ok(unit) ==> unit_wf(unit),
        r matches Err(errs) ==> errs@.len() > 0,
        ({
            let pkgs = reg.packages@;
            exists|dtab: Seq<DefEntry>, ftab: Seq<FnEntry>|
                #![trigger defs_for(pkgs, dtab), fns_for(pkgs, ftab)]
                {
                    &&& defs_for(pkgs, dtab)
                    &&& fns_for(pkgs, ftab)
                    &&& match r {
                        Ok(unit) => unit.entries@ == dtab && (forall|a: int, b: int, n: Seq<char>|
                            0 <= a < pkgs.len() && 0 <= b < pkgs[a].patterns@.len()
                                ==> !#[trigger] hir_unres(
                                pkgs[a].patterns@[b].body,
                                dtab,
                                ftab,
                                pkgs[a].patterns@[b].params@,
                                n,
                            )),
                        Err(errs) => forall|a: int, b: int, n: Seq<char>|
                            0 <= a < pkgs.len() && 0 <= b < pkgs[a].patterns@.len()
                                && #[trigger] hir_unres(
                                pkgs[a].patterns@[b].body,
                                dtab,
                                ftab,
                                pkgs[a].patterns@[b].params@,
                                n,
                            ) ==> err_has_unres(errs@, n),
                    }
                }
        }),
{
    let ghost pkgs = reg.packages@;
    let mut nodes: Vec<Pattern> = Vec::new();
    let mut defs: Vec<DefEntry> = Vec::new();
    let mut fns: Vec<FnEntry> = Vec::new();
    let mut errs: Vec<CompileError> = Vec::new();

    // Reserve one slot per definition, so that references resolve to a
    // stable index before any body is compiled, and collect the function
    // names each package exposes.
    let mut p: usize = 0;
    while p < reg.packages.len()
        invariant
            pkgs == reg.packages@,
            p <= pkgs.len(),
            errs@.len() == 0,
            graph_wf(graph_of(nodes@)),
            forall|k: int| 0 <= k < defs@.len() ==> ((#[trigger] defs@[k]).slot as int) < nodes@.len(),
            defs@.len() == defs_before(pkgs, p as int),
            fns@.len() == fns_before(pkgs, p as int),
            forall|a: int, b: int|
                0 <= a < p && 0 <= b < pkgs[a].patterns@.len() ==> #[trigger] def_entry_ok(
                    pkgs,
                    defs@,
                    a,
                    b,
                ),
            forall|a: int, b: int|
                0 <= a < p && 0 <= b < pkgs[a].functions@.len() ==> #[trigger] fn_entry_ok(
                    pkgs,
                    fns@,
                    a,
                    b,
                ),
        decreases pkgs.len() - p,
    {
        let pkg = &reg.packages[p];
        let mut q: usize = 0;
        while q < pkg.patterns.len()
            invariant
                pkgs == reg.packages@,
                p < pkgs.len(),
                *pkg == pkgs[p as int],
                q <= pkg.patterns@.len(),
                errs@.len() == 0,
                graph_wf(graph_of(nodes@)),
                forall|k: int|
                    0 <= k < defs@.len() ==> ((#[trigger] defs@[k]).slot as int) < nodes@.len(),
                defs@.len() == defs_before(pkgs, p as int) + q,
                forall|a: int, b: int|
                    0 <= a < p && 0 <= b < pkgs[a].patterns@.len() ==> #[trigger] def_entry_ok(
                        pkgs,
                        defs@,
                        a,
                        b,
                    ),
                forall|b: int|
                    0 <= b < q ==> #[trigger] def_entry_ok(pkgs, defs@, p as int, b),
            decreases pkg.patterns@.len() - q,
        {
            let slot = nodes.len();
            let node = Pattern::Primitive(Prim::Null);
            proof {
                lemma_graph_wf_push(graph_of(nodes@), pat_of(node));
                lemma_graph_of_push(nodes@, node);
            }
            nodes.push(node);
            let entry = DefEntry {
                path: clone_path(&pkg.path.segments),
                name: pkg.patterns[q].name.clone(),
                params: clone_path(&pkg.patterns[q].params),
                slot,
            };
            let ghost defs_pre = defs@;
            defs.push(entry);
            proof {
                assert(defs@ == defs_pre.push(entry));
                assert(def_entry_ok(pkgs, defs@, p as int, q as int)) by {
                    assert(defs@[defs@.len() - 1].name@ == pkgs[p as int].patterns@[q as int].name@);
                }
                assert forall|a: int, b: int|
                    0 <= a < p && 0 <= b < pkgs[a].patterns@.len() implies #[trigger] def_entry_ok(
                    pkgs,
                    defs@,
                    a,
                    b,
                ) by {
                    assert(def_entry_ok(pkgs, defs_pre, a, b));
                    assert(defs@[defs_before(pkgs, a) + b] == defs_pre[defs_before(pkgs, a) + b]);
                }
                assert forall|b: int| 0 <= b < q + 1 implies #[trigger] def_entry_ok(
                    pkgs,
                    defs@,
                    p as int,
                    b,
                ) by {
                    if b < q {
                        assert(def_entry_ok(pkgs, defs_pre, p as int, b));
                        assert(defs@[defs_before(pkgs, p as int) + b] == defs_pre[defs_before(
                            pkgs,
                            p as int,
                        ) + b]);
                    }
                }
            }
            q = q + 1;
        }
        let mut f: usize = 0;
        while f < pkg.functions.len()
            invariant
                pkgs == reg.packages@,
                p < pkgs.len(),
                *pkg == pkgs[p as int],
                f <= pkg.functions@.len(),
                fns@.len() == fns_before(pkgs, p as int) + f,
                forall|a: int, b: int|
                    0 <= a < p && 0 <= b < pkgs[a].functions@.len() ==> #[trigger] fn_entry_ok(
                        pkgs,
                        fns@,
                        a,
                        b,
                    ),
                forall|b: int| 0 <= b < f ==> #[trigger] fn_entry_ok(pkgs, fns@, p as int, b),
            decreases pkg.functions@.len() - f,
        {
            let fentry = FnEntry {
                path: clone_path(&pkg.path.segments),
                name: pkg.functions[f].clone(),
            };
            let ghost fns_pre = fns@;
            fns.push(fentry);
            proof {
                assert(fns@ == fns_pre.push(fentry));
                assert(fn_entry_ok(pkgs, fns@, p as int, f as int));
                assert forall|a: int, b: int|
                    0 <= a < p && 0 <= b < pkgs[a].functions@.len() implies #[trigger] fn_entry_ok(
                    pkgs,
                    fns@,
                    a,
                    b,
                ) by {
                    assert(fn_entry_ok(pkgs, fns_pre, a, b));
                    assert(fns@[fns_before(pkgs, a) + b] == fns_pre[fns_before(pkgs, a) + b]);
                }
                assert forall|b: int| 0 <= b < f + 1 implies #[trigger] fn_entry_ok(
                    pkgs,
                    fns@,
                    p as int,
                    b,
                ) by {
                    if b < f {
                        assert(fn_entry_ok(pkgs, fns_pre, p as int, b));
                        assert(fns@[fns_before(pkgs, p as int) + b] == fns_pre[fns_before(
                            pkgs,
                            p as int,
                        ) + b]);
                    }
                }
            }
            f = f + 1;
        }
        p = p + 1;
    }
    proof {
        assert(defs_for(pkgs, defs@));
        assert(fns_for(pkgs, fns@));
    }

    // Compile each body and patch the definition's entry node to delegate
    // to it.
    let mut p2: usize = 0;
    let mut c: usize = 0;
    while p2 < reg.packages.len()
        invariant
            pkgs == reg.packages@,
            p2 <= pkgs.len(),
            defs_for(pkgs, defs@),
            fns_for(pkgs, fns@),
            c == defs_before(pkgs, p2 as int),
            c <= defs@.len(),
            graph_wf(graph_of(nodes@)),
            forall|k: int| 0 <= k < defs@.len() ==> ((#[trigger] defs@[k]).slot as int) < nodes@.len(),
            forall|a: int, b: int, n: Seq<char>|
                0 <= a < p2 && 0 <= b < pkgs[a].patterns@.len() && #[trigger] hir_unres(
                    pkgs[a].patterns@[b].body,
                    defs@,
                    fns@,
                    pkgs[a].patterns@[b].params@,
                    n,
                ) ==> err_has_unres(errs@, n),
        decreases pkgs.len() - p2,
    {
        let pkg = &reg.packages[p2];
        let mut q2: usize = 0;
        while q2 < pkg.patterns.len()
            invariant
                pkgs == reg.packages@,
                p2 < pkgs.len(),
                *pkg == pkgs[p2 as int],
                q2 <= pkg.patterns@.len(),
                defs_for(pkgs, defs@),
                fns_for(pkgs, fns@),
                c == defs_before(pkgs, p2 as int) + q2,
                c <= defs@.len(),
                graph_wf(graph_of(nodes@)),
                forall|k: int|
                    0 <= k < defs@.len() ==> ((#[trigger] defs@[k]).slot as int) < nodes@.len(),
                forall|a: int, b: int, n: Seq<char>|
                    0 <= a < p2 && 0 <= b < pkgs[a].patterns@.len() && #[trigger] hir_unres(
                        pkgs[a].patterns@[b].body,
                        defs@,
                        fns@,
                        pkgs[a].patterns@[b].params@,
                        n,
                    ) ==> err_has_unres(errs@, n),
                forall|b: int, n: Seq<char>|
                    0 <= b < q2 && #[trigger] hir_unres(
                        pkgs[p2 as int].patterns@[b].body,
                        defs@,
                        fns@,
                        pkgs[p2 as int].patterns@[b].params@,
                        n,
                    ) ==> err_has_unres(errs@, n),
            decreases pkg.patterns@.len() - q2,
        {
            let def = &pkg.patterns[q2];
            let ghost errs_in = errs@;
            let body_idx = compile_hir(&def.body, &defs, &fns, &def.params, &mut nodes, &mut errs);
            proof {
                assert forall|a: int, b: int, n: Seq<char>|
                    0 <= a < p2 && 0 <= b < pkgs[a].patterns@.len() && #[trigger] hir_unres(
                        pkgs[a].patterns@[b].body,
                        defs@,
                        fns@,
                        pkgs[a].patterns@[b].params@,
                        n,
                    ) implies err_has_unres(errs@, n) by {
                    lemma_err_mono(errs_in, errs@, n);
                }
                assert forall|b: int, n: Seq<char>|
                    0 <= b < q2 + 1 && #[trigger] hir_unres(
                        pkgs[p2 as int].patterns@[b].body,
                        defs@,
                        fns@,
                        pkgs[p2 as int].patterns@[b].params@,
                        n,
                    ) implies err_has_unres(errs@, n) by {
                    if b < q2 {
                        lemma_err_mono(errs_in, errs@, n);
                    }
                }
                assert(def_entry_ok(pkgs, defs@, p2 as int, q2 as int));
                lemma_defs_before_step(pkgs, p2 as int, pkgs.len() as int);
                assert((c as int) < defs@.len());
            }
            let slot = defs[c].slot;
            let entry = Pattern::Ref(
                RefNode {
                    name: def.name.clone(),
                    target: body_idx,
                    bindings: Bindings { entries: Vec::new() },
                },
            );
            proof {
                assert(env_wf(pat_of(entry)->Ref_bindings, nodes@.len() as int));
                lemma_graph_wf_update(graph_of(nodes@), slot as int, pat_of(entry));
            }
            let ghost before = nodes@;
            let _ = nodes.remove(slot);
            nodes.insert(slot, entry);
            proof {
                assert(nodes@ =~= before.update(slot as int, entry));
                assert(graph_of(nodes@) =~= graph_of(before).update(slot as int, pat_of(entry)));
            }
            let dl = defs.len();
            assert(c < dl);
            c = c + 1;
            q2 = q2 + 1;
        }
        p2 = p2 + 1;
    }

    if errs.len() > 0 {
        proof {
            assert(defs_for(pkgs, defs@));
            assert(fns_for(pkgs, fns@));
        }
        return Err(errs);
    }
    proof {
        assert forall|a: int, b: int, n: Seq<char>|
            0 <= a < pkgs.len() && 0 <= b < pkgs[a].patterns@.len() implies !#[trigger] hir_unres(
            pkgs[a].patterns@[b].body,
            defs@,
            fns@,
            pkgs[a].patterns@[b].params@,
            n,
        ) by {
            if hir_unres(pkgs[a].patterns@[b].body, defs@, fns@, pkgs[a].patterns@[b].params@, n) {
                assert(err_has_unres(errs@, n));
            }
        }
    }
    Ok(CompiledUnit { graph: PatternGraph { nodes }, entries: defs })
}

} // verus!
