use vstd::prelude::*;
use crate::value::Val;
use crate::rationale::{RatModel, RatResModel, outcome_is_match};
use crate::pattern::{Pat, Prim, EnvModel, env_wf, graph_wf, pat_wf, lemma_resolve_wf, resolve_spec};
use crate::eval::{
    EvalModel, ListEval, ChainEval, TraceModel, eval_node, eval_list, eval_elems, eval_fields,
    eval_chain, all_match, any_match, flatten_env, lemma_flatten_wf,
};

verus! {

/// A literal pattern matches exactly the values whose variant and content
/// equal its declared literal; it consumes no external outcomes and leaves
/// the value unchanged.
pub proof fn lemma_literal_exact(
    g: Seq<Pat>,
    i: int,
    lv: Val,
    v: Val,
    env: EnvModel,
    tr: TraceModel,
    pos: int,
    depth: nat,
)
    requires
        0 <= i < g.len(),
        g[i] == Pat::Literal(lv),
        depth >= 1,
    ensures
        eval_node(g, i, v, env, tr, pos, depth) matches EvalModel::Done { rat, out, pos: p }
            && (outcome_is_match(rat.outcome) <==> v == lv) && out == v && p == pos,
{
}

/// No node of the graph calls an external function.
pub open spec fn fn_free(g: Seq<Pat>) -> bool {
    forall|i: int| 0 <= i < g.len() ==> !((#[trigger] g[i]) is FunctionCall)
}

/// In a function-free graph, evaluation never reads the trace: a completed
/// evaluation leaves the trace position where it started, and it never asks
/// for an external outcome.
pub proof fn lemma_fn_free_pos(
    g: Seq<Pat>,
    idx: int,
    v: Val,
    env: EnvModel,
    tr: TraceModel,
    pos: int,
    depth: nat,
)
    requires
        fn_free(g),
        graph_wf(g),
        env_wf(env, g.len() as int),
        0 <= idx < g.len(),
    ensures
        eval_node(g, idx, v, env, tr, pos, depth) matches EvalModel::Done { rat: _, out: _, pos: p }
            ==> p == pos,
        !(eval_node(g, idx, v, env, tr, pos, depth) is Needs),
    decreases depth, 1nat, 0int,
{
    if depth == 0 {
    } else {
        let d = (depth - 1) as nat;
        assert(pat_wf(g[idx], g.len() as int));
        match g[idx] {
            Pat::Literal(_) => {},
            Pat::Primitive(_) => {},
            Pat::Object(fps) => {
                if v is Object {
                    lemma_fn_free_pos_fields(g, fps, 0, v, env, tr, pos, d);
                }
            },
            Pat::Sequence(_, ep) => {
                if v is List {
                    lemma_fn_free_pos_elems(g, ep, v->List_0, 0, env, tr, pos, d);
                }
            },
            Pat::And(items) => {
                lemma_fn_free_pos_list(g, items, 0, v, env, tr, pos, d);
            },
            Pat::Or(items) => {
                lemma_fn_free_pos_list(g, items, 0, v, env, tr, pos, d);
            },
            Pat::Not(c) => {
                lemma_fn_free_pos(g, c, v, env, tr, pos, d);
            },
            Pat::Chain(steps) => {
                lemma_fn_free_pos_chain(g, steps, 0, v, env, tr, pos, d);
            },
            Pat::Ref { name: _, target, bindings } => {
                if bindings.len() == 0 {
                    lemma_fn_free_pos(g, target, v, env, tr, pos, d);
                } else {
                    lemma_flatten_wf(g, bindings, env);
                    lemma_fn_free_pos(g, target, v, flatten_env(g, bindings, env), tr, pos, d);
                }
            },
            Pat::FunctionCall(_) => {
                assert(false);
            },
            Pat::Parameter(name) => {
                match resolve_spec(env, name) {
                    Some(t) => {
                        lemma_resolve_wf(env, name, g.len() as int);
                        lemma_fn_free_pos(g, t, v, env, tr, pos, d);
                    },
                    None => {},
                }
            },
        }
    }
}

proof fn lemma_fn_free_pos_list(
    g: Seq<Pat>,
    items: Seq<int>,
    i: int,
    v: Val,
    env: EnvModel,
    tr: TraceModel,
    pos: int,
    depth: nat,
)
    requires
        fn_free(g),
        graph_wf(g),
        env_wf(env, g.len() as int),
        forall|k: int| 0 <= k < items.len() ==> 0 <= #[trigger] items[k] < g.len(),
    ensures
        eval_list(g, items, i, v, env, tr, pos, depth) matches ListEval::Done { rats: _, pos: p }
            ==> p == pos,
        !(eval_list(g, items, i, v, env, tr, pos, depth) is Needs),
    decreases depth, 2nat, items.len() - i,
{
    if i < 0 || i >= items.len() {
    } else {
        lemma_fn_free_pos(g, items[i], v, env, tr, pos, depth);
        match eval_node(g, items[i], v, env, tr, pos, depth) {
            EvalModel::Done { rat: _, out: _, pos: p } => {
                lemma_fn_free_pos_list(g, items, i + 1, v, env, tr, p, depth);
            },
            _ => {},
        }
    }
}

proof fn lemma_fn_free_pos_elems(
    g: Seq<Pat>,
    ep: int,
    elems: Seq<Val>,
    i: int,
    env: EnvModel,
    tr: TraceModel,
    pos: int,
    depth: nat,
)
    requires
        fn_free(g),
        graph_wf(g),
        env_wf(env, g.len() as int),
        0 <= ep < g.len(),
    ensures
        eval_elems(g, ep, elems, i, env, tr, pos, depth) matches ListEval::Done { rats: _, pos: p }
            ==> p == pos,
        !(eval_elems(g, ep, elems, i, env, tr, pos, depth) is Needs),
    decreases depth, 2nat, elems.len() - i,
{
    if i < 0 || i >= elems.len() {
    } else {
        lemma_fn_free_pos(g, ep, elems[i], env, tr, pos, depth);
        match eval_node(g, ep, elems[i], env, tr, pos, depth) {
            EvalModel::Done { rat: _, out: _, pos: p } => {
                lemma_fn_free_pos_elems(g, ep, elems, i + 1, env, tr, p, depth);
            },
            _ => {},
        }
    }
}

proof fn lemma_fn_free_pos_fields(
    g: Seq<Pat>,
    fps: Seq<(Seq<char>, int)>,
    i: int,
    v: Val,
    env: EnvModel,
    tr: TraceModel,
    pos: int,
    depth: nat,
)
    requires
        fn_free(g),
        graph_wf(g),
        env_wf(env, g.len() as int),
        forall|k: int| 0 <= k < fps.len() ==> 0 <= (#[trigger] fps[k]).1 < g.len(),
    ensures
        eval_fields(g, fps, i, v, env, tr, pos, depth) matches ListEval::Done { rats: _, pos: p }
            ==> p == pos,
        !(eval_fields(g, fps, i, v, env, tr, pos, depth) is Needs),
    decreases depth, 2nat, fps.len() - i,
{
    if i < 0 || i >= fps.len() {
    } else {
        match crate::eval::obj_get(v->Object_0, 0, fps[i].0) {
            None => {
                lemma_fn_free_pos_fields(g, fps, i + 1, v, env, tr, pos, depth);
            },
            Some(fv) => {
                lemma_fn_free_pos(g, fps[i].1, fv, env, tr, pos, depth);
                match eval_node(g, fps[i].1, fv, env, tr, pos, depth) {
                    EvalModel::Done { rat: _, out: _, pos: p } => {
                        lemma_fn_free_pos_fields(g, fps, i + 1, v, env, tr, p, depth);
                    },
                    _ => {},
                }
            },
        }
    }
}

proof fn lemma_fn_free_pos_chain(
    g: Seq<Pat>,
    steps: Seq<int>,
    i: int,
    v: Val,
    env: EnvModel,
    tr: TraceModel,
    pos: int,
    depth: nat,
)
    requires
        fn_free(g),
        graph_wf(g),
        env_wf(env, g.len() as int),
        forall|k: int| 0 <= k < steps.len() ==> 0 <= #[trigger] steps[k] < g.len(),
    ensures
        eval_chain(g, steps, i, v, env, tr, pos, depth) matches ChainEval::Done {
            rats: _,
            ok: _,
            out: _,
            pos: p,
        } ==> p == pos,
        !(eval_chain(g, steps, i, v, env, tr, pos, depth) is Needs),
    decreases depth, 2nat, steps.len() - i,
{
    if i < 0 || i >= steps.len() {
    } else {
        lemma_fn_free_pos(g, steps[i], v, env, tr, pos, depth);
        match eval_node(g, steps[i], v, env, tr, pos, depth) {
            EvalModel::Done { rat, out, pos: p } => {
                if outcome_is_match(rat.outcome) {
                    lemma_fn_free_pos_chain(g, steps, i + 1, out, env, tr, p, depth);
                }
            },
            _ => {},
        }
    }
}

/// AND is commutative for the verdict, not for the ordering of the child
/// rationales: with the two children swapped, evaluation completes in the
/// same cases and, when it completes, matches in the same cases. This holds
/// of function-free graphs, where no child consumes external outcomes.
#[verifier::rlimit(80)]
pub proof fn lemma_and_commutative(
    g: Seq<Pat>,
    i: int,
    j: int,
    a: int,
    b: int,
    v: Val,
    env: EnvModel,
    tr: TraceModel,
    pos: int,
    depth: nat,
)
    requires
        fn_free(g),
        graph_wf(g),
        env_wf(env, g.len() as int),
        0 <= i < g.len(),
        0 <= j < g.len(),
        g[i] == Pat::And(seq![a, b]),
        g[j] == Pat::And(seq![b, a]),
    ensures
        ({
            let ri = eval_node(g, i, v, env, tr, pos, depth);
            let rj = eval_node(g, j, v, env, tr, pos, depth);
            &&& (ri is Done <==> rj is Done)
            &&& (ri matches EvalModel::Done { rat: rati, out: _, pos: _ } ==> (rj
                matches EvalModel::Done { rat: ratj, out: _, pos: _ } ==> (outcome_is_match(
                rati.outcome,
            ) <==> outcome_is_match(ratj.outcome))))
        }),
{
    reveal_with_fuel(eval_list, 4);
    if depth == 0 {
    } else {
        let d = (depth - 1) as nat;
        assert(pat_wf(g[i], g.len() as int));
        assert(pat_wf(g[j], g.len() as int));
        assert(seq![a, b][0] == a && seq![a, b][1] == b);
        assert(seq![b, a][0] == b && seq![b, a][1] == a);
        assert(0 <= a < g.len() && 0 <= b < g.len());
        lemma_fn_free_pos(g, a, v, env, tr, pos, d);
        lemma_fn_free_pos(g, b, v, env, tr, pos, d);
        let ra = eval_node(g, a, v, env, tr, pos, d);
        let rb = eval_node(g, b, v, env, tr, pos, d);
        assert(eval_list(g, seq![a, b], 2, v, env, tr, pos, d) == (ListEval::Done {
            rats: Seq::<RatModel>::empty(),
            pos,
        }));
        assert(eval_list(g, seq![b, a], 2, v, env, tr, pos, d) == (ListEval::Done {
            rats: Seq::<RatModel>::empty(),
            pos,
        }));
        match (ra, rb) {
            (
                EvalModel::Done { rat: rat_a, out: oa, pos: pa },
                EvalModel::Done { rat: rat_b, out: ob, pos: pb },
            ) => {
                assert(pa == pos && pb == pos);
                let rats_i = seq![rat_a] + (seq![rat_b] + Seq::<RatModel>::empty());
                let rats_j = seq![rat_b] + (seq![rat_a] + Seq::<RatModel>::empty());
                assert(eval_list(g, seq![a, b], 1, v, env, tr, pos, d) == (ListEval::Done {
                    rats: seq![rat_b] + Seq::<RatModel>::empty(),
                    pos,
                }));
                assert(eval_list(g, seq![a, b], 0, v, env, tr, pos, d) == (ListEval::Done {
                    rats: rats_i,
                    pos,
                }));
                assert(eval_list(g, seq![b, a], 1, v, env, tr, pos, d) == (ListEval::Done {
                    rats: seq![rat_a] + Seq::<RatModel>::empty(),
                    pos,
                }));
                assert(eval_list(g, seq![b, a], 0, v, env, tr, pos, d) == (ListEval::Done {
                    rats: rats_j,
                    pos,
                }));
                assert(rats_i.len() == 2 && rats_i[0] == rat_a && rats_i[1] == rat_b);
                assert(rats_j.len() == 2 && rats_j[0] == rat_b && rats_j[1] == rat_a);
                assert(all_match(rats_i) <==> (outcome_is_match(rat_a.outcome) && outcome_is_match(
                    rat_b.outcome,
                )));
                assert(all_match(rats_j) <==> (outcome_is_match(rat_b.outcome) && outcome_is_match(
                    rat_a.outcome,
                )));
            },
            (EvalModel::Done { rat: rat_a, out: oa, pos: pa }, EvalModel::Depth) => {
                assert(pa == pos);
                assert(eval_list(g, seq![a, b], 1, v, env, tr, pos, d) is Depth);
                assert(eval_list(g, seq![a, b], 0, v, env, tr, pos, d) is Depth);
                assert(eval_list(g, seq![b, a], 0, v, env, tr, pos, d) is Depth);
            },
            (EvalModel::Depth, EvalModel::Done { rat: rat_b, out: ob, pos: pb }) => {
                assert(pb == pos);
                assert(eval_list(g, seq![a, b], 0, v, env, tr, pos, d) is Depth);
                assert(eval_list(g, seq![b, a], 1, v, env, tr, pos, d) is Depth);
                assert(eval_list(g, seq![b, a], 0, v, env, tr, pos, d) is Depth);
            },
            (EvalModel::Depth, EvalModel::Depth) => {
                assert(eval_list(g, seq![a, b], 0, v, env, tr, pos, d) is Depth);
                assert(eval_list(g, seq![b, a], 0, v, env, tr, pos, d) is Depth);
            },
            _ => {},
        }
    }
}

/// Double negation: NOT(NOT(p)) completes exactly when evaluating p with
/// two fewer depth steps does, and then carries the same verdict and reads
/// the trace to the same position.
pub proof fn lemma_not_not(
    g: Seq<Pat>,
    i: int,
    j: int,
    k: int,
    v: Val,
    env: EnvModel,
    tr: TraceModel,
    pos: int,
    depth: nat,
)
    requires
        0 <= i < g.len(),
        0 <= j < g.len(),
        g[i] == Pat::Not(j),
        g[j] == Pat::Not(k),
        depth >= 2,
    ensures
        ({
            let ri = eval_node(g, i, v, env, tr, pos, depth);
            let rk = eval_node(g, k, v, env, tr, pos, (depth - 2) as nat);
            &&& (ri is Done <==> rk is Done)
            &&& (ri is Depth <==> rk is Depth)
            &&& (ri is Needs <==> rk is Needs)
            &&& (ri matches EvalModel::Done { rat: rati, out: _, pos: pi } ==> (rk
                matches EvalModel::Done { rat: ratk, out: _, pos: pk } ==> ((outcome_is_match(
                rati.outcome,
            ) <==> outcome_is_match(ratk.outcome)) && pi == pk)))
        }),
{
    reveal_with_fuel(eval_node, 3);
}

/// OR never short-circuits: when OR(a, b) completes, its rationale holds
/// both children's rationales — the first child's and then the second's,
/// evaluated from the trace position the first left off — even when the
/// first alone already matches.
#[verifier::rlimit(80)]
pub proof fn lemma_or_keeps_all_children(
    g: Seq<Pat>,
    i: int,
    a: int,
    b: int,
    rat_a: RatModel,
    va: Val,
    pa: int,
    rat_b: RatModel,
    vb: Val,
    pb: int,
    v: Val,
    env: EnvModel,
    tr: TraceModel,
    pos: int,
    depth: nat,
)
    requires
        0 <= i < g.len(),
        g[i] == Pat::Or(seq![a, b]),
        depth >= 1,
        eval_node(g, a, v, env, tr, pos, (depth - 1) as nat) == (EvalModel::Done {
            rat: rat_a,
            out: va,
            pos: pa,
        }),
        eval_node(g, b, v, env, tr, pa, (depth - 1) as nat) == (EvalModel::Done {
            rat: rat_b,
            out: vb,
            pos: pb,
        }),
    ensures
        eval_node(g, i, v, env, tr, pos, depth) matches EvalModel::Done { rat, out: _, pos: p }
            && rat.children == seq![rat_a, rat_b] && p == pb && (outcome_is_match(rat.outcome)
            <==> (outcome_is_match(rat_a.outcome) || outcome_is_match(rat_b.outcome))),
{
    reveal_with_fuel(eval_list, 4);
    let d = (depth - 1) as nat;
    assert(seq![a, b][0] == a && seq![a, b][1] == b);
    assert(eval_list(g, seq![a, b], 2, v, env, tr, pb, d) == (ListEval::Done {
        rats: Seq::<RatModel>::empty(),
        pos: pb,
    }));
    let rats = seq![rat_a] + (seq![rat_b] + Seq::<RatModel>::empty());
    assert(eval_list(g, seq![a, b], 1, v, env, tr, pa, d) == (ListEval::Done {
        rats: seq![rat_b] + Seq::<RatModel>::empty(),
        pos: pb,
    }));
    assert(eval_list(g, seq![a, b], 0, v, env, tr, pos, d) == (ListEval::Done {
        rats: rats,
        pos: pb,
    }));
    assert(rats =~= seq![rat_a, rat_b]);
    assert(rats.len() == 2 && rats[0] == rat_a && rats[1] == rat_b);
    assert(any_match(rats) <==> (outcome_is_match(rat_a.outcome) || outcome_is_match(
        rat_b.outcome,
    ))) by {
        if outcome_is_match(rat_a.outcome) {
            assert(any_match(rats));
        }
        if outcome_is_match(rat_b.outcome) {
            assert(any_match(rats));
        }
    }
}

/// Transform chaining: when the first step of a two-step chain yields a
/// transformed value, the second step evaluates against that new value,
/// not against the chain's input.
#[verifier::rlimit(80)]
pub proof fn lemma_chain_uses_transformed_value(
    g: Seq<Pat>,
    i: int,
    f: int,
    r2: int,
    rat_f: RatModel,
    vf: Val,
    pf: int,
    rat_s: RatModel,
    vs: Val,
    ps: int,
    v: Val,
    env: EnvModel,
    tr: TraceModel,
    pos: int,
    depth: nat,
)
    requires
        0 <= i < g.len(),
        g[i] == Pat::Chain(seq![f, r2]),
        depth >= 1,
        eval_node(g, f, v, env, tr, pos, (depth - 1) as nat) == (EvalModel::Done {
            rat: rat_f,
            out: vf,
            pos: pf,
        }),
        outcome_is_match(rat_f.outcome),
        eval_node(g, r2, vf, env, tr, pf, (depth - 1) as nat) == (EvalModel::Done {
            rat: rat_s,
            out: vs,
            pos: ps,
        }),
    ensures
        eval_node(g, i, v, env, tr, pos, depth) == (EvalModel::Done {
            rat: RatModel {
                outcome: if outcome_is_match(rat_s.outcome) {
                    RatResModel::Match
                } else {
                    RatResModel::NotMatch
                },
                note: Seq::empty(),
                children: seq![rat_f, rat_s],
            },
            out: if outcome_is_match(rat_s.outcome) {
                vs
            } else {
                v
            },
            pos: ps,
        }),
{
    reveal_with_fuel(eval_chain, 4);
    let d = (depth - 1) as nat;
    assert(seq![f, r2][0] == f && seq![f, r2][1] == r2);
    if outcome_is_match(rat_s.outcome) {
        assert(eval_chain(g, seq![f, r2], 2, vs, env, tr, ps, d) == (ChainEval::Done {
            rats: Seq::<RatModel>::empty(),
            ok: true,
            out: vs,
            pos: ps,
        }));
        assert(eval_chain(g, seq![f, r2], 1, vf, env, tr, pf, d) == (ChainEval::Done {
            rats: seq![rat_s] + Seq::<RatModel>::empty(),
            ok: true,
            out: vs,
            pos: ps,
        }));
        assert(eval_chain(g, seq![f, r2], 0, v, env, tr, pos, d) == (ChainEval::Done {
            rats: seq![rat_f] + (seq![rat_s] + Seq::<RatModel>::empty()),
            ok: true,
            out: vs,
            pos: ps,
        }));
        assert(seq![rat_f] + (seq![rat_s] + Seq::<RatModel>::empty()) =~= seq![rat_f, rat_s]);
    } else {
        assert(eval_chain(g, seq![f, r2], 1, vf, env, tr, pf, d) == (ChainEval::Done {
            rats: seq![rat_s],
            ok: false,
            out: vf,
            pos: ps,
        }));
        assert(eval_chain(g, seq![f, r2], 0, v, env, tr, pos, d) == (ChainEval::Done {
            rats: seq![rat_f] + seq![rat_s],
            ok: false,
            out: vf,
            pos: ps,
        }));
        assert(seq![rat_f] + seq![rat_s] =~= seq![rat_f, rat_s]);
    }
}

/// A pattern that lazily refers back to itself exhausts the depth guard for
/// every allowed depth: the outcome is the depth error, never an unbounded
/// walk (the evaluator's termination measure is the depth itself).
pub proof fn lemma_self_reference_exceeds_depth(
    g: Seq<Pat>,
    i: int,
    name: Seq<char>,
    bindings: EnvModel,
    v: Val,
    env: EnvModel,
    tr: TraceModel,
    pos: int,
    depth: nat,
)
    requires
        0 <= i < g.len(),
        g[i] == (Pat::Ref { name, target: i, bindings }),
    ensures
        eval_node(g, i, v, env, tr, pos, depth) == EvalModel::Depth,
    decreases depth,
{
    if depth == 0 {
    } else {
        let env2 = if bindings.len() == 0 {
            env
        } else {
            flatten_env(g, bindings, env)
        };
        lemma_self_reference_exceeds_depth(g, i, name, bindings, v, env2, tr, pos, (depth - 1) as nat);
    }
}

/// A conjunction of a check and its negation never matches: whenever
/// AND(string, NOT(string)) completes, its verdict is NotMatch, whatever
/// the value.
#[verifier::rlimit(80)]
pub proof fn lemma_contradiction_never_matches(
    g: Seq<Pat>,
    i: int,
    sp: int,
    np: int,
    v: Val,
    env: EnvModel,
    tr: TraceModel,
    pos: int,
    depth: nat,
)
    requires
        0 <= i < g.len(),
        0 <= sp < g.len(),
        0 <= np < g.len(),
        g[i] == Pat::And(seq![sp, np]),
        g[sp] == Pat::Primitive(Prim::Str),
        g[np] == Pat::Not(sp),
    ensures
        eval_node(g, i, v, env, tr, pos, depth) matches EvalModel::Done { rat, out: _, pos: _ }
            ==> !outcome_is_match(rat.outcome),
{
    reveal_with_fuel(eval_node, 4);
    reveal_with_fuel(eval_list, 4);
    if depth == 0 {
    } else {
        let d = (depth - 1) as nat;
        assert(seq![sp, np][0] == sp && seq![sp, np][1] == np);
        if d == 0 {
        } else {
            let dd = (d - 1) as nat;
            let rs = eval_node(g, sp, v, env, tr, pos, d);
            if dd == 0 {
                assert(eval_node(g, np, v, env, tr, pos, d) is Depth);
            } else {
                let rn = eval_node(g, np, v, env, tr, pos, d);
                match eval_list(g, seq![sp, np], 0, v, env, tr, pos, d) {
                    ListEval::Done { rats, pos: _ } => {
                        assert(rats.len() == 2);
                        assert(!(outcome_is_match(rats[0].outcome) && outcome_is_match(
                            rats[1].outcome,
                        )));
                    },
                    _ => {},
                }
            }
        }
    }
}


/// Extra depth changes nothing once evaluation no longer hits the guard:
/// a node whose evaluation is not the depth error evaluates to exactly the
/// same result under any larger depth.
pub proof fn lemma_depth_mono(
    g: Seq<Pat>,
    idx: int,
    v: Val,
    env: EnvModel,
    tr: TraceModel,
    pos: int,
    d1: nat,
    d2: nat,
)
    requires
        graph_wf(g),
        env_wf(env, g.len() as int),
        0 <= idx < g.len(),
        d1 <= d2,
        !(eval_node(g, idx, v, env, tr, pos, d1) is Depth),
    ensures
        eval_node(g, idx, v, env, tr, pos, d2) == eval_node(g, idx, v, env, tr, pos, d1),
    decreases d1, 1nat, 0int,
{
    assert(d1 > 0);
    let e1 = (d1 - 1) as nat;
    let e2 = (d2 - 1) as nat;
    assert(pat_wf(g[idx], g.len() as int));
    match g[idx] {
        Pat::Literal(_) => {},
        Pat::Primitive(_) => {},
        Pat::Object(fps) => {
            if v is Object {
                lemma_depth_mono_fields(g, fps, 0, v, env, tr, pos, e1, e2);
            }
        },
        Pat::Sequence(_, ep) => {
            if v is List {
                lemma_depth_mono_elems(g, ep, v->List_0, 0, env, tr, pos, e1, e2);
            }
        },
        Pat::And(items) => {
            lemma_depth_mono_list(g, items, 0, v, env, tr, pos, e1, e2);
        },
        Pat::Or(items) => {
            lemma_depth_mono_list(g, items, 0, v, env, tr, pos, e1, e2);
        },
        Pat::Not(c) => {
            lemma_depth_mono(g, c, v, env, tr, pos, e1, e2);
        },
        Pat::Chain(steps) => {
            lemma_depth_mono_chain(g, steps, 0, v, env, tr, pos, e1, e2);
        },
        Pat::Ref { name: _, target, bindings } => {
            if bindings.len() == 0 {
                lemma_depth_mono(g, target, v, env, tr, pos, e1, e2);
            } else {
                lemma_flatten_wf(g, bindings, env);
                lemma_depth_mono(g, target, v, flatten_env(g, bindings, env), tr, pos, e1, e2);
            }
        },
        Pat::FunctionCall(_) => {},
        Pat::Parameter(name) => {
            match resolve_spec(env, name) {
                Some(t) => {
                    lemma_resolve_wf(env, name, g.len() as int);
                    lemma_depth_mono(g, t, v, env, tr, pos, e1, e2);
                },
                None => {},
            }
        },
    }
}

proof fn lemma_depth_mono_list(
    g: Seq<Pat>,
    items: Seq<int>,
    i: int,
    v: Val,
    env: EnvModel,
    tr: TraceModel,
    pos: int,
    d1: nat,
    d2: nat,
)
    requires
        graph_wf(g),
        env_wf(env, g.len() as int),
        forall|k: int| 0 <= k < items.len() ==> 0 <= #[trigger] items[k] < g.len(),
        d1 <= d2,
        !(eval_list(g, items, i, v, env, tr, pos, d1) is Depth),
    ensures
        eval_list(g, items, i, v, env, tr, pos, d2) == eval_list(g, items, i, v, env, tr, pos, d1),
    decreases d1, 2nat, items.len() - i,
{
    if i < 0 || i >= items.len() {
    } else {
        match eval_node(g, items[i], v, env, tr, pos, d1) {
            EvalModel::Done { rat: _, out: _, pos: p } => {
                lemma_depth_mono(g, items[i], v, env, tr, pos, d1, d2);
                lemma_depth_mono_list(g, items, i + 1, v, env, tr, p, d1, d2);
            },
            EvalModel::Depth => {},
            EvalModel::Needs { name: _, input: _ } => {
                lemma_depth_mono(g, items[i], v, env, tr, pos, d1, d2);
            },
        }
    }
}

proof fn lemma_depth_mono_elems(
    g: Seq<Pat>,
    ep: int,
    elems: Seq<Val>,
    i: int,
    env: EnvModel,
    tr: TraceModel,
    pos: int,
    d1: nat,
    d2: nat,
)
    requires
        graph_wf(g),
        env_wf(env, g.len() as int),
        0 <= ep < g.len(),
        d1 <= d2,
        !(eval_elems(g, ep, elems, i, env, tr, pos, d1) is Depth),
    ensures
        eval_elems(g, ep, elems, i, env, tr, pos, d2) == eval_elems(g, ep, elems, i, env, tr, pos, d1),
    decreases d1, 2nat, elems.len() - i,
{
    if i < 0 || i >= elems.len() {
    } else {
        match eval_node(g, ep, elems[i], env, tr, pos, d1) {
            EvalModel::Done { rat: _, out: _, pos: p } => {
                lemma_depth_mono(g, ep, elems[i], env, tr, pos, d1, d2);
                lemma_depth_mono_elems(g, ep, elems, i + 1, env, tr, p, d1, d2);
            },
            EvalModel::Depth => {},
            EvalModel::Needs { name: _, input: _ } => {
                lemma_depth_mono(g, ep, elems[i], env, tr, pos, d1, d2);
            },
        }
    }
}

proof fn lemma_depth_mono_fields(
    g: Seq<Pat>,
    fps: Seq<(Seq<char>, int)>,
    i: int,
    v: Val,
    env: EnvModel,
    tr: TraceModel,
    pos: int,
    d1: nat,
    d2: nat,
)
    requires
        graph_wf(g),
        env_wf(env, g.len() as int),
        forall|k: int| 0 <= k < fps.len() ==> 0 <= (#[trigger] fps[k]).1 < g.len(),
        d1 <= d2,
        !(eval_fields(g, fps, i, v, env, tr, pos, d1) is Depth),
    ensures
        eval_fields(g, fps, i, v, env, tr, pos, d2) == eval_fields(g, fps, i, v, env, tr, pos, d1),
    decreases d1, 2nat, fps.len() - i,
{
    if i < 0 || i >= fps.len() {
    } else {
        match crate::eval::obj_get(v->Object_0, 0, fps[i].0) {
            None => {
                lemma_depth_mono_fields(g, fps, i + 1, v, env, tr, pos, d1, d2);
            },
            Some(fv) => {
                match eval_node(g, fps[i].1, fv, env, tr, pos, d1) {
                    EvalModel::Done { rat: _, out: _, pos: p } => {
                        lemma_depth_mono(g, fps[i].1, fv, env, tr, pos, d1, d2);
                        lemma_depth_mono_fields(g, fps, i + 1, v, env, tr, p, d1, d2);
                    },
                    EvalModel::Depth => {},
                    EvalModel::Needs { name: _, input: _ } => {
                        lemma_depth_mono(g, fps[i].1, fv, env, tr, pos, d1, d2);
                    },
                }
            },
        }
    }
}

proof fn lemma_depth_mono_chain(
    g: Seq<Pat>,
    steps: Seq<int>,
    i: int,
    v: Val,
    env: EnvModel,
    tr: TraceModel,
    pos: int,
    d1: nat,
    d2: nat,
)
    requires
        graph_wf(g),
        env_wf(env, g.len() as int),
        forall|k: int| 0 <= k < steps.len() ==> 0 <= #[trigger] steps[k] < g.len(),
        d1 <= d2,
        !(eval_chain(g, steps, i, v, env, tr, pos, d1) is Depth),
    ensures
        eval_chain(g, steps, i, v, env, tr, pos, d2) == eval_chain(g, steps, i, v, env, tr, pos, d1),
    decreases d1, 2nat, steps.len() - i,
{
    if i < 0 || i >= steps.len() {
    } else {
        match eval_node(g, steps[i], v, env, tr, pos, d1) {
            EvalModel::Done { rat, out, pos: p } => {
                lemma_depth_mono(g, steps[i], v, env, tr, pos, d1, d2);
                if outcome_is_match(rat.outcome) {
                    lemma_depth_mono_chain(g, steps, i + 1, out, env, tr, p, d1, d2);
                }
            },
            EvalModel::Depth => {},
            EvalModel::Needs { name: _, input: _ } => {
                lemma_depth_mono(g, steps[i], v, env, tr, pos, d1, d2);
            },
        }
    }
}

/// Double negation at one fixed depth, the form the engine itself runs:
/// whenever NOT(NOT(p)) completes, p completes at the same depth with the
/// same verdict, reading the trace to the same position.
pub proof fn lemma_not_not_verdict(
    g: Seq<Pat>,
    i: int,
    j: int,
    k: int,
    v: Val,
    env: EnvModel,
    tr: TraceModel,
    pos: int,
    depth: nat,
)
    requires
        graph_wf(g),
        env_wf(env, g.len() as int),
        0 <= i < g.len(),
        0 <= j < g.len(),
        0 <= k < g.len(),
        g[i] == Pat::Not(j),
        g[j] == Pat::Not(k),
    ensures
        ({
            let ri = eval_node(g, i, v, env, tr, pos, depth);
            let rk = eval_node(g, k, v, env, tr, pos, depth);
            ri matches EvalModel::Done { rat: rati, out: _, pos: pi } ==> (rk
                matches EvalModel::Done { rat: ratk, out: _, pos: pk } && (outcome_is_match(
                rati.outcome,
            ) <==> outcome_is_match(ratk.outcome)) && pi == pk)
        }),
{
    reveal_with_fuel(eval_node, 3);
    let ri = eval_node(g, i, v, env, tr, pos, depth);
    if ri is Done {
        assert(depth >= 2);
        lemma_not_not(g, i, j, k, v, env, tr, pos, depth);
        let rk2 = eval_node(g, k, v, env, tr, pos, (depth - 2) as nat);
        assert(rk2 is Done);
        lemma_depth_mono(g, k, v, env, tr, pos, (depth - 2) as nat, depth);
    }
}

} // verus!
