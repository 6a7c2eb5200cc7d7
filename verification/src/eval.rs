use vstd::prelude::*;
use crate::value::{Val, Value, val_of, clone_value, value_eq};
use crate::rationale::{
    ErrModel, FunctionError, RatResModel, RationaleResult, RatModel, Rationale, rat_of, rats_of,
    outcome_is_match, clone_rationale_result, clone_function_error, lemma_rat_of_parts,
};
use crate::pattern::{
    Prim, SeqMode, Bindings, EnvModel, resolve_spec, Pat, Pattern, PatternGraph, pat_wf, env_wf,
    graph_wf, lemma_resolve_wf, FieldPattern, pat_of, ixs_of, fields_of,
};
use crate::value::ObjectField;

verus! {

/// Model of the trace of external-function outcomes handed to `evaluate`.
pub type TraceModel = Seq<Result<RatResModel, ErrModel>>;

/// Model result of evaluating one node: a rationale plus the value that
/// flows on and the next unread trace position; or the depth guard fired;
/// or an external function's outcome is needed before going further.
#[verifier::ext_equal]
pub enum EvalModel {
    Done { rat: RatModel, out: Val, pos: int },
    Depth,
    Needs { name: Seq<char>, input: Val },
}

#[verifier::ext_equal]
pub enum ListEval {
    Done { rats: Seq<RatModel>, pos: int },
    Depth,
    Needs { name: Seq<char>, input: Val },
}

#[verifier::ext_equal]
pub enum ChainEval {
    Done { rats: Seq<RatModel>, ok: bool, out: Val, pos: int },
    Depth,
    Needs { name: Seq<char>, input: Val },
}

/// Does the value carry the variant tag this primitive check asks for?
pub open spec fn prim_matches(k: Prim, v: Val) -> bool {
    match k {
        Prim::Null => v is Null,
        Prim::Bool => v is Bool,
        Prim::Int => v is Int,
        Prim::Str => v is Str,
        Prim::Octets => v is Octets,
        Prim::List => v is List,
        Prim::Object => v is Object,
    }
}

/// The value stored under `name` in an object's field list, front to back.
pub open spec fn obj_get(obj: Seq<(Seq<char>, Val)>, i: int, name: Seq<char>) -> Option<Val>
    decreases obj.len() - i,
{
    if i < 0 || i >= obj.len() {
        None
    } else if obj[i].0 == name {
        Some(obj[i].1)
    } else {
        obj_get(obj, i + 1, name)
    }
}

pub open spec fn all_match(rats: Seq<RatModel>) -> bool {
    forall|i: int| 0 <= i < rats.len() ==> outcome_is_match((#[trigger] rats[i]).outcome)
}

pub open spec fn any_match(rats: Seq<RatModel>) -> bool {
    exists|i: int| 0 <= i < rats.len() && outcome_is_match((#[trigger] rats[i]).outcome)
}

/// The argument index a reference site binds for a parameter: if the
/// argument is itself a parameter of the enclosing definition, it is
/// resolved through the bindings in scope at the reference site.
pub open spec fn flatten_one(g: Seq<Pat>, t: int, env: EnvModel) -> int {
    if 0 <= t < g.len() && g[t] is Parameter {
        match resolve_spec(env, g[t]->Parameter_0) {
            Some(u) => u,
            None => t,
        }
    } else {
        t
    }
}

/// The environment a referenced definition is evaluated under.
pub open spec fn flatten_env(g: Seq<Pat>, b: EnvModel, env: EnvModel) -> EnvModel {
    Seq::new(
        b.len(),
        |i: int|
            if 0 <= i < b.len() {
                (b[i].0, flatten_one(g, b[i].1, env))
            } else {
                (Seq::<char>::empty(), 0int)
            },
    )
}

pub proof fn lemma_flatten_wf(g: Seq<Pat>, b: EnvModel, env: EnvModel)
    requires
        env_wf(b, g.len() as int),
        env_wf(env, g.len() as int),
    ensures
        env_wf(flatten_env(g, b, env), g.len() as int),
{
    let f = flatten_env(g, b, env);
    assert forall|i: int| 0 <= i < f.len() implies 0 <= (#[trigger] f[i]).1 < g.len() by {
        let t = b[i].1;
        if 0 <= t < g.len() && g[t] is Parameter {
            let n = g[t]->Parameter_0;
            if resolve_spec(env, n) is Some {
                lemma_resolve_wf(env, n, g.len() as int);
            }
        }
    }
}

/// The denotational semantics of evaluating the node at `idx` against `v`,
/// under bindings `env`, reading external outcomes from `tr` at `pos`, with
/// `depth` evaluation steps allowed before the depth guard fires.
pub open spec fn eval_node(
    g: Seq<Pat>,
    idx: int,
    v: Val,
    env: EnvModel,
    tr: TraceModel,
    pos: int,
    depth: nat,
) -> EvalModel
    decreases depth, 1nat, 0int,
{
    if depth == 0 {
        EvalModel::Depth
    } else {
        let d = (depth - 1) as nat;
        match g[idx] {
            Pat::Literal(lv) => EvalModel::Done {
                rat: RatModel {
                    outcome: if v == lv {
                        RatResModel::Match
                    } else {
                        RatResModel::NotMatch
                    },
                    note: Seq::empty(),
                    children: Seq::empty(),
                },
                out: v,
                pos: pos,
            },
            Pat::Primitive(k) => EvalModel::Done {
                rat: RatModel {
                    outcome: if prim_matches(k, v) {
                        RatResModel::Match
                    } else {
                        RatResModel::NotMatch
                    },
                    note: Seq::empty(),
                    children: Seq::empty(),
                },
                out: v,
                pos: pos,
            },
            Pat::Object(fps) => {
                if !(v is Object) {
                    EvalModel::Done {
                        rat: RatModel {
                            outcome: RatResModel::NotMatch,
                            note: Seq::empty(),
                            children: Seq::empty(),
                        },
                        out: v,
                        pos: pos,
                    }
                } else {
                    match eval_fields(g, fps, 0, v, env, tr, pos, d) {
                        ListEval::Done { rats, pos: p } => EvalModel::Done {
                            rat: RatModel {
                                outcome: if all_match(rats) {
                                    RatResModel::Match
                                } else {
                                    RatResModel::NotMatch
                                },
                                note: Seq::empty(),
                                children: rats,
                            },
                            out: v,
                            pos: p,
                        },
                        ListEval::Depth => EvalModel::Depth,
                        ListEval::Needs { name, input } => EvalModel::Needs { name, input },
                    }
                }
            },
            Pat::Sequence(mode, ep) => {
                if !(v is List) {
                    EvalModel::Done {
                        rat: RatModel {
                            outcome: RatResModel::NotMatch,
                            note: Seq::empty(),
                            children: Seq::empty(),
                        },
                        out: v,
                        pos: pos,
                    }
                } else {
                    match eval_elems(g, ep, v->List_0, 0, env, tr, pos, d) {
                        ListEval::Done { rats, pos: p } => EvalModel::Done {
                            rat: RatModel {
                                outcome: if (match mode {
                                    SeqMode::All => all_match(rats),
                                    SeqMode::Any => any_match(rats),
                                }) {
                                    RatResModel::Match
                                } else {
                                    RatResModel::NotMatch
                                },
                                note: Seq::empty(),
                                children: rats,
                            },
                            out: v,
                            pos: p,
                        },
                        ListEval::Depth => EvalModel::Depth,
                        ListEval::Needs { name, input } => EvalModel::Needs { name, input },
                    }
                }
            },
            Pat::And(items) => match eval_list(g, items, 0, v, env, tr, pos, d) {
                ListEval::Done { rats, pos: p } => EvalModel::Done {
                    rat: RatModel {
                        outcome: if all_match(rats) {
                            RatResModel::Match
                        } else {
                            RatResModel::NotMatch
                        },
                        note: Seq::empty(),
                        children: rats,
                    },
                    out: v,
                    pos: p,
                },
                ListEval::Depth => EvalModel::Depth,
                ListEval::Needs { name, input } => EvalModel::Needs { name, input },
            },
            Pat::Or(items) => match eval_list(g, items, 0, v, env, tr, pos, d) {
                ListEval::Done { rats, pos: p } => EvalModel::Done {
                    rat: RatModel {
                        outcome: if any_match(rats) {
                            RatResModel::Match
                        } else {
                            RatResModel::NotMatch
                        },
                        note: Seq::empty(),
                        children: rats,
                    },
                    out: v,
                    pos: p,
                },
                ListEval::Depth => EvalModel::Depth,
                ListEval::Needs { name, input } => EvalModel::Needs { name, input },
            },
            Pat::Not(c) => match eval_node(g, c, v, env, tr, pos, d) {
                EvalModel::Done { rat, out: _, pos: p } => EvalModel::Done {
                    rat: RatModel {
                        outcome: if outcome_is_match(rat.outcome) {
                            RatResModel::NotMatch
                        } else {
                            RatResModel::Match
                        },
                        note: Seq::empty(),
                        children: seq![rat],
                    },
                    out: v,
                    pos: p,
                },
                s => s,
            },
            Pat::Chain(steps) => match eval_chain(g, steps, 0, v, env, tr, pos, d) {
                ChainEval::Done { rats, ok, out, pos: p } => EvalModel::Done {
                    rat: RatModel {
                        outcome: if ok {
                            RatResModel::Match
                        } else {
                            RatResModel::NotMatch
                        },
                        note: Seq::empty(),
                        children: rats,
                    },
                    out: if ok {
                        out
                    } else {
                        v
                    },
                    pos: p,
                },
                ChainEval::Depth => EvalModel::Depth,
                ChainEval::Needs { name, input } => EvalModel::Needs { name, input },
            },
            Pat::Ref { name, target, bindings } => {
                let sub = if bindings.len() == 0 {
                    eval_node(g, target, v, env, tr, pos, d)
                } else {
                    eval_node(g, target, v, flatten_env(g, bindings, env), tr, pos, d)
                };
                match sub {
                    EvalModel::Done { rat, out, pos: p } => EvalModel::Done {
                        rat: RatModel { outcome: rat.outcome, note: name, children: seq![rat] },
                        out: out,
                        pos: p,
                    },
                    s => s,
                }
            },
            Pat::FunctionCall(name) => {
                if pos < 0 || pos >= tr.len() {
                    EvalModel::Needs { name, input: v }
                } else {
                    match tr[pos] {
                        Ok(rr) => EvalModel::Done {
                            rat: RatModel { outcome: rr, note: name, children: Seq::empty() },
                            out: if rr is Transform {
                                rr->Transform_0
                            } else {
                                v
                            },
                            pos: pos + 1,
                        },
                        Err(e) => EvalModel::Done {
                            rat: RatModel {
                                outcome: RatResModel::Error(e),
                                note: name,
                                children: Seq::empty(),
                            },
                            out: v,
                            pos: pos + 1,
                        },
                    }
                }
            },
            Pat::Parameter(name) => match resolve_spec(env, name) {
                Some(t) => match eval_node(g, t, v, env, tr, pos, d) {
                    EvalModel::Done { rat, out, pos: p } => EvalModel::Done {
                        rat: RatModel { outcome: rat.outcome, note: name, children: seq![rat] },
                        out: out,
                        pos: p,
                    },
                    s => s,
                },
                None => EvalModel::Done {
                    rat: RatModel {
                        outcome: RatResModel::NotMatch,
                        note: name,
                        children: Seq::empty(),
                    },
                    out: v,
                    pos: pos,
                },
            },
        }
    }
}

/// Evaluate the nodes `items[i..]`, each against the same value `v`.
pub open spec fn eval_list(
    g: Seq<Pat>,
    items: Seq<int>,
    i: int,
    v: Val,
    env: EnvModel,
    tr: TraceModel,
    pos: int,
    depth: nat,
) -> ListEval
    decreases depth, 2nat, items.len() - i,
{
    if i < 0 || i >= items.len() {
        ListEval::Done { rats: Seq::empty(), pos }
    } else {
        match eval_node(g, items[i], v, env, tr, pos, depth) {
            EvalModel::Done { rat, out: _, pos: p } => {
                match eval_list(g, items, i + 1, v, env, tr, p, depth) {
                    ListEval::Done { rats, pos: p2 } => ListEval::Done {
                        rats: seq![rat] + rats,
                        pos: p2,
                    },
                    s => s,
                }
            },
            EvalModel::Depth => ListEval::Depth,
            EvalModel::Needs { name, input } => ListEval::Needs { name, input },
        }
    }
}

/// Evaluate the element pattern `ep` against each of `elems[i..]`; the
/// child rationales are keyed by position.
pub open spec fn eval_elems(
    g: Seq<Pat>,
    ep: int,
    elems: Seq<Val>,
    i: int,
    env: EnvModel,
    tr: TraceModel,
    pos: int,
    depth: nat,
) -> ListEval
    decreases depth, 2nat, elems.len() - i,
{
    if i < 0 || i >= elems.len() {
        ListEval::Done { rats: Seq::empty(), pos }
    } else {
        match eval_node(g, ep, elems[i], env, tr, pos, depth) {
            EvalModel::Done { rat, out: _, pos: p } => {
                match eval_elems(g, ep, elems, i + 1, env, tr, p, depth) {
                    ListEval::Done { rats, pos: p2 } => ListEval::Done {
                        rats: seq![rat] + rats,
                        pos: p2,
                    },
                    s => s,
                }
            },
            EvalModel::Depth => ListEval::Depth,
            EvalModel::Needs { name, input } => ListEval::Needs { name, input },
        }
    }
}

/// Evaluate the field constraints `fps[i..]` against the object value `v`.
/// Each field's rationale is wrapped in a child note carrying the field
/// name; a declared field absent from the value is a mismatch for that
/// field.
pub open spec fn eval_fields(
    g: Seq<Pat>,
    fps: Seq<(Seq<char>, int)>,
    i: int,
    v: Val,
    env: EnvModel,
    tr: TraceModel,
    pos: int,
    depth: nat,
) -> ListEval
    decreases depth, 2nat, fps.len() - i,
{
    if i < 0 || i >= fps.len() {
        ListEval::Done { rats: Seq::empty(), pos }
    } else {
        match obj_get(v->Object_0, 0, fps[i].0) {
            None => {
                let miss = RatModel {
                    outcome: RatResModel::NotMatch,
                    note: fps[i].0,
                    children: Seq::empty(),
                };
                match eval_fields(g, fps, i + 1, v, env, tr, pos, depth) {
                    ListEval::Done { rats, pos: p2 } => ListEval::Done {
                        rats: seq![miss] + rats,
                        pos: p2,
                    },
                    s => s,
                }
            },
            Some(fv) => match eval_node(g, fps[i].1, fv, env, tr, pos, depth) {
                EvalModel::Done { rat, out: _, pos: p } => {
                    let child = RatModel {
                        outcome: rat.outcome,
                        note: fps[i].0,
                        children: seq![rat],
                    };
                    match eval_fields(g, fps, i + 1, v, env, tr, p, depth) {
                        ListEval::Done { rats, pos: p2 } => ListEval::Done {
                            rats: seq![child] + rats,
                            pos: p2,
                        },
                        s => s,
                    }
                },
                EvalModel::Depth => ListEval::Depth,
                EvalModel::Needs { name, input } => ListEval::Needs { name, input },
            },
        }
    }
}

/// Evaluate the refinement steps `steps[i..]`: each step sees the strict
/// predecessor's output value; the chain stops at the first failing step.
pub open spec fn eval_chain(
    g: Seq<Pat>,
    steps: Seq<int>,
    i: int,
    v: Val,
    env: EnvModel,
    tr: TraceModel,
    pos: int,
    depth: nat,
) -> ChainEval
    decreases depth, 2nat, steps.len() - i,
{
    if i < 0 || i >= steps.len() {
        ChainEval::Done { rats: Seq::empty(), ok: true, out: v, pos }
    } else {
        match eval_node(g, steps[i], v, env, tr, pos, depth) {
            EvalModel::Done { rat, out, pos: p } => {
                if !outcome_is_match(rat.outcome) {
                    ChainEval::Done { rats: seq![rat], ok: false, out: v, pos: p }
                } else {
                    match eval_chain(g, steps, i + 1, out, env, tr, p, depth) {
                        ChainEval::Done { rats, ok, out: out2, pos: p2 } => ChainEval::Done {
                            rats: seq![rat] + rats,
                            ok,
                            out: out2,
                            pos: p2,
                        },
                        s => s,
                    }
                }
            },
            EvalModel::Depth => ChainEval::Depth,
            EvalModel::Needs { name, input } => ChainEval::Needs { name, input },
        }
    }
}



/// One recorded outcome of an external-function invocation, in the order
/// the engine requests them.
pub type FnOutcome = Result<RationaleResult, FunctionError>;

pub open spec fn trace_of(s: Seq<FnOutcome>) -> TraceModel {
    Seq::new(
        s.len(),
        |i: int|
            if 0 <= i < s.len() {
                match s[i] {
                    Ok(rr) => Ok(rr@),
                    Err(e) => Err(e@),
                }
            } else {
                Ok(RatResModel::NotMatch)
            },
    )
}

pub open spec fn fields_model(s: Seq<ObjectField>) -> Seq<(Seq<char>, Val)> {
    Seq::new(
        s.len(),
        |i: int|
            if 0 <= i < s.len() {
                (s[i].name@, val_of(s[i].value))
            } else {
                (Seq::<char>::empty(), Val::Null)
            },
    )
}

pub open spec fn vals_model(s: Seq<Value>) -> Seq<Val> {
    Seq::new(s.len(), |i: int| if 0 <= i < s.len() { val_of(s[i]) } else { Val::Null })
}

/// Executable result of evaluating one node.
pub enum NodeEval {
    Done { rat: Rationale, out: Value, pos: usize },
    Depth,
    Needs { name: String, input: Value },
}

pub enum ListEvalX {
    Done { rats: Vec<Rationale>, pos: usize },
    Depth,
    Needs { name: String, input: Value },
}

pub enum ChainEvalX {
    Done { rats: Vec<Rationale>, ok: bool, out: Value, pos: usize },
    Depth,
    Needs { name: String, input: Value },
}

pub open spec fn node_eval_of(r: NodeEval) -> EvalModel {
    match r {
        NodeEval::Done { rat, out, pos } => EvalModel::Done {
            rat: rat_of(rat),
            out: val_of(out),
            pos: pos as int,
        },
        NodeEval::Depth => EvalModel::Depth,
        NodeEval::Needs { name, input } => EvalModel::Needs { name: name@, input: val_of(input) },
    }
}

pub open spec fn list_eval_of(r: ListEvalX) -> ListEval {
    match r {
        ListEvalX::Done { rats, pos } => ListEval::Done { rats: rats_of(rats@), pos: pos as int },
        ListEvalX::Depth => ListEval::Depth,
        ListEvalX::Needs { name, input } => ListEval::Needs { name: name@, input: val_of(input) },
    }
}

pub open spec fn chain_eval_of(r: ChainEvalX) -> ChainEval {
    match r {
        ChainEvalX::Done { rats, ok, out, pos } => ChainEval::Done {
            rats: rats_of(rats@),
            ok: ok,
            out: val_of(out),
            pos: pos as int,
        },
        ChainEvalX::Depth => ChainEval::Depth,
        ChainEvalX::Needs { name, input } => ChainEval::Needs { name: name@, input: val_of(input) },
    }
}

fn prim_check(k: &Prim, v: &Value) -> (r: bool)
    ensures
        r == prim_matches(*k, v@),
{
    match k {
        Prim::Null => matches!(v, Value::Null),
        Prim::Bool => matches!(v, Value::Bool(_)),
        Prim::Int => matches!(v, Value::Int(_)),
        Prim::Str => matches!(v, Value::Str(_)),
        Prim::Octets => matches!(v, Value::Octets(_)),
        Prim::List => matches!(v, Value::List(_)),
        Prim::Object => matches!(v, Value::Object(_)),
    }
}

fn all_match_x(rats: &Vec<Rationale>) -> (r: bool)
    ensures
        r == all_match(rats_of(rats@)),
{
    let mut i: usize = 0;
    while i < rats.len()
        invariant
            i <= rats@.len(),
            forall|j: int| 0 <= j < i ==> outcome_is_match(rats_of(rats@)[j].outcome),
        decreases rats@.len() - i,
    {
        if !rats[i].is_match() {
            assert(!outcome_is_match(rats_of(rats@)[i as int].outcome));
            return false;
        }
        i = i + 1;
    }
    true
}

fn any_match_x(rats: &Vec<Rationale>) -> (r: bool)
    ensures
        r == any_match(rats_of(rats@)),
{
    let mut i: usize = 0;
    while i < rats.len()
        invariant
            i <= rats@.len(),
            forall|j: int| 0 <= j < i ==> !outcome_is_match(rats_of(rats@)[j].outcome),
        decreases rats@.len() - i,
    {
        if rats[i].is_match() {
            assert(outcome_is_match(rats_of(rats@)[i as int].outcome));
            return true;
        }
        i = i + 1;
    }
    false
}

fn get_field<'a>(fields: &'a Vec<ObjectField>, name: &String) -> (r: Option<&'a Value>)
    ensures
        match r {
            Some(fv) => obj_get(fields_model(fields@), 0, name@) == Some(fv@),
            None => obj_get(fields_model(fields@), 0, name@) is None,
        },
{
    let mut i: usize = 0;
    while i < fields.len()
        invariant
            i <= fields@.len(),
            obj_get(fields_model(fields@), 0, name@) == obj_get(
                fields_model(fields@),
                i as int,
                name@,
            ),
        decreases fields@.len() - i,
    {
        if fields[i].name == *name {
            return Some(&fields[i].value);
        }
        i = i + 1;
    }
    None
}

/// Build the environment a referenced definition is evaluated under: each
/// argument that is itself a parameter reference is resolved through the
/// bindings in scope at the reference site.
fn flatten_bindings(g: &PatternGraph, b: &Bindings, env: &Bindings) -> (r: Bindings)
    requires
        env_wf(b@, g@.len() as int),
    ensures
        r@ == flatten_env(g@, b@, env@),
{
    let mut out: Vec<(String, usize)> = Vec::new();
    let mut i: usize = 0;
    while i < b.entries.len()
        invariant
            i <= b.entries@.len(),
            env_wf(b@, g@.len() as int),
            out@.len() == i,
            forall|j: int|
                0 <= j < i ==> (#[trigger] out@[j]).0@ == b@[j].0 && out@[j].1 as int
                    == flatten_one(g@, b@[j].1, env@),
        decreases b.entries@.len() - i,
    {
        let t = b.entries[i].1;
        assert(b@[i as int].1 == t as int);
        let chosen: usize = match &g.nodes[t] {
            Pattern::Parameter(q) => {
                assert(g@[t as int] == pat_of(g.nodes@[t as int]));
                match env.resolve(q) {
                    Some(u) => u,
                    None => t,
                }
            },
            _ => {
                assert(g@[t as int] == pat_of(g.nodes@[t as int]));
                t
            },
        };
        let name = b.entries[i].0.clone();
        out.push((name, chosen));
        i = i + 1;
    }
    let r = Bindings { entries: out };
    assert(r@ =~= flatten_env(g@, b@, env@));
    r
}


/// Executable evaluation of one node; its result is exactly what the
/// denotational semantics `eval_node` says.
pub fn eval_node_x(
    g: &PatternGraph,
    idx: usize,
    v: &Value,
    env: &Bindings,
    tr: &Vec<FnOutcome>,
    pos: usize,
    depth: u32,
) -> (r: NodeEval)
    requires
        graph_wf(g@),
        idx < g.nodes@.len(),
        env_wf(env@, g@.len() as int),
        pos <= tr@.len(),
    ensures
        node_eval_of(r) == eval_node(g@, idx as int, v@, env@, trace_of(tr@), pos as int, depth as nat),
        r matches NodeEval::Done { rat: _, out: _, pos: p } ==> p <= tr@.len(),
    decreases depth, 1nat, 0int,
{
    let ghost s = eval_node(g@, idx as int, v@, env@, trace_of(tr@), pos as int, depth as nat);
    if depth == 0 {
        return NodeEval::Depth;
    }
    proof {
        assert(g@[idx as int] == pat_of(g.nodes@[idx as int]));
        assert(pat_wf(g@[idx as int], g@.len() as int));
    }
    match &g.nodes[idx] {
        Pattern::Literal(lv) => {
            let eq = value_eq(v, lv);
            let rat = Rationale {
                outcome: if eq {
                    RationaleResult::Match
                } else {
                    RationaleResult::NotMatch
                },
                note: String::new(),
                children: Vec::new(),
            };
            proof {
                lemma_rat_of_parts(rat);
                assert(rats_of(rat.children@) =~= Seq::<RatModel>::empty());
            }
            let r = NodeEval::Done { rat, out: clone_value(v), pos };
            proof {
                assert(node_eval_of(r) =~~= s);
            }
            r
        },
        Pattern::Primitive(k) => {
            let m = prim_check(k, v);
            let rat = Rationale {
                outcome: if m {
                    RationaleResult::Match
                } else {
                    RationaleResult::NotMatch
                },
                note: String::new(),
                children: Vec::new(),
            };
            proof {
                lemma_rat_of_parts(rat);
                assert(rats_of(rat.children@) =~= Seq::<RatModel>::empty());
            }
            let r = NodeEval::Done { rat, out: clone_value(v), pos };
            proof {
                assert(node_eval_of(r) =~~= s);
            }
            r
        },
        Pattern::Object(fps) => {
            match v {
                Value::Object(_) => {
                    proof {
                        assert forall|k: int| 0 <= k < fps@.len() implies 0 <= (
                        #[trigger] fps@[k]).pattern < g.nodes@.len() by {
                            assert(fields_of(fps@)[k].1 == fps@[k].pattern as int);
                        }
                    }
                    let fr = eval_fields_x(g, fps, 0, v, env, tr, pos, depth - 1);
                    match fr {
                        ListEvalX::Done { rats, pos: p } => {
                            let m = all_match_x(&rats);
                            let rat = Rationale {
                                outcome: if m {
                                    RationaleResult::Match
                                } else {
                                    RationaleResult::NotMatch
                                },
                                note: String::new(),
                                children: rats,
                            };
                            proof {
                                lemma_rat_of_parts(rat);
                            }
                            let r = NodeEval::Done { rat, out: clone_value(v), pos: p };
                            proof {
                                assert(node_eval_of(r) =~~= s);
                            }
                            r
                        },
                        ListEvalX::Depth => {
                            let r = NodeEval::Depth;
                            proof {
                                assert(node_eval_of(r) =~~= s);
                            }
                            r
                        },
                        ListEvalX::Needs { name, input } => {
                            let r = NodeEval::Needs { name, input };
                            proof {
                                assert(node_eval_of(r) =~~= s);
                            }
                            r
                        },
                    }
                },
                _ => {
                    let rat = Rationale {
                        outcome: RationaleResult::NotMatch,
                        note: String::new(),
                        children: Vec::new(),
                    };
                    proof {
                        lemma_rat_of_parts(rat);
                        assert(rats_of(rat.children@) =~= Seq::<RatModel>::empty());
                    }
                    let r = NodeEval::Done { rat, out: clone_value(v), pos };
                    proof {
                        assert(node_eval_of(r) =~~= s);
                    }
                    r
                },
            }
        },
        Pattern::Sequence(mode, ep) => {
            match v {
                Value::List(items) => {
                    proof {
                        assert(v@->List_0 =~= vals_model(items@));
                    }
                    let er = eval_elems_x(g, *ep, items, 0, env, tr, pos, depth - 1);
                    match er {
                        ListEvalX::Done { rats, pos: p } => {
                            let m = match mode {
                                SeqMode::All => all_match_x(&rats),
                                SeqMode::Any => any_match_x(&rats),
                            };
                            let rat = Rationale {
                                outcome: if m {
                                    RationaleResult::Match
                                } else {
                                    RationaleResult::NotMatch
                                },
                                note: String::new(),
                                children: rats,
                            };
                            proof {
                                lemma_rat_of_parts(rat);
                            }
                            let r = NodeEval::Done { rat, out: clone_value(v), pos: p };
                            proof {
                                assert(node_eval_of(r) =~~= s);
                            }
                            r
                        },
                        ListEvalX::Depth => {
                            let r = NodeEval::Depth;
                            proof {
                                assert(node_eval_of(r) =~~= s);
                            }
                            r
                        },
                        ListEvalX::Needs { name, input } => {
                            let r = NodeEval::Needs { name, input };
                            proof {
                                assert(node_eval_of(r) =~~= s);
                            }
                            r
                        },
                    }
                },
                _ => {
                    let rat = Rationale {
                        outcome: RationaleResult::NotMatch,
                        note: String::new(),
                        children: Vec::new(),
                    };
                    proof {
                        lemma_rat_of_parts(rat);
                        assert(rats_of(rat.children@) =~= Seq::<RatModel>::empty());
                    }
                    let r = NodeEval::Done { rat, out: clone_value(v), pos };
                    proof {
                        assert(node_eval_of(r) =~~= s);
                    }
                    r
                },
            }
        },
        Pattern::And(items) => {
            proof {
                assert forall|k: int| 0 <= k < items@.len() implies (#[trigger] items@[k])
                    < g.nodes@.len() by {
                    assert(ixs_of(items@)[k] == items@[k] as int);
                }
            }
            let lr = eval_list_x(g, items, 0, v, env, tr, pos, depth - 1);
            match lr {
                ListEvalX::Done { rats, pos: p } => {
                    let m = all_match_x(&rats);
                    let rat = Rationale {
                        outcome: if m {
                            RationaleResult::Match
                        } else {
                            RationaleResult::NotMatch
                        },
                        note: String::new(),
                        children: rats,
                    };
                    proof {
                        lemma_rat_of_parts(rat);
                    }
                    let r = NodeEval::Done { rat, out: clone_value(v), pos: p };
                    proof {
                        assert(node_eval_of(r) =~~= s);
                    }
                    r
                },
                ListEvalX::Depth => {
                    let r = NodeEval::Depth;
                    proof {
                        assert(node_eval_of(r) =~~= s);
                    }
                    r
                },
                ListEvalX::Needs { name, input } => {
                    let r = NodeEval::Needs { name, input };
                    proof {
                        assert(node_eval_of(r) =~~= s);
                    }
                    r
                },
            }
        },
        Pattern::Or(items) => {
            proof {
                assert forall|k: int| 0 <= k < items@.len() implies (#[trigger] items@[k])
                    < g.nodes@.len() by {
                    assert(ixs_of(items@)[k] == items@[k] as int);
                }
            }
            let lr = eval_list_x(g, items, 0, v, env, tr, pos, depth - 1);
            match lr {
                ListEvalX::Done { rats, pos: p } => {
                    let m = any_match_x(&rats);
                    let rat = Rationale {
                        outcome: if m {
                            RationaleResult::Match
                        } else {
                            RationaleResult::NotMatch
                        },
                        note: String::new(),
                        children: rats,
                    };
                    proof {
                        lemma_rat_of_parts(rat);
                    }
                    let r = NodeEval::Done { rat, out: clone_value(v), pos: p };
                    proof {
                        assert(node_eval_of(r) =~~= s);
                    }
                    r
                },
                ListEvalX::Depth => {
                    let r = NodeEval::Depth;
                    proof {
                        assert(node_eval_of(r) =~~= s);
                    }
                    r
                },
                ListEvalX::Needs { name, input } => {
                    let r = NodeEval::Needs { name, input };
                    proof {
                        assert(node_eval_of(r) =~~= s);
                    }
                    r
                },
            }
        },
        Pattern::Not(c) => {
            let cr = eval_node_x(g, *c, v, env, tr, pos, depth - 1);
            match cr {
                NodeEval::Done { rat, out: _, pos: p } => {
                    let m = rat.is_match();
                    let mut kids: Vec<Rationale> = Vec::new();
                    kids.push(rat);
                    let nr = Rationale {
                        outcome: if m {
                            RationaleResult::NotMatch
                        } else {
                            RationaleResult::Match
                        },
                        note: String::new(),
                        children: kids,
                    };
                    proof {
                        lemma_rat_of_parts(nr);
                        assert(rats_of(nr.children@) =~= seq![rat_of(nr.children@[0])]);
                    }
                    let r = NodeEval::Done { rat: nr, out: clone_value(v), pos: p };
                    proof {
                        assert(node_eval_of(r) =~~= s);
                    }
                    r
                },
                NodeEval::Depth => {
                    let r = NodeEval::Depth;
                    proof {
                        assert(node_eval_of(r) =~~= s);
                    }
                    r
                },
                NodeEval::Needs { name, input } => {
                    let r = NodeEval::Needs { name, input };
                    proof {
                        assert(node_eval_of(r) =~~= s);
                    }
                    r
                },
            }
        },
        Pattern::Chain(steps) => {
            proof {
                assert forall|k: int| 0 <= k < steps@.len() implies (#[trigger] steps@[k])
                    < g.nodes@.len() by {
                    assert(ixs_of(steps@)[k] == steps@[k] as int);
                }
            }
            let cr = eval_chain_x(g, steps, 0, v, env, tr, pos, depth - 1);
            match cr {
                ChainEvalX::Done { rats, ok, out, pos: p } => {
                    let rat = Rationale {
                        outcome: if ok {
                            RationaleResult::Match
                        } else {
                            RationaleResult::NotMatch
                        },
                        note: String::new(),
                        children: rats,
                    };
                    proof {
                        lemma_rat_of_parts(rat);
                    }
                    let outv = if ok {
                        out
                    } else {
                        clone_value(v)
                    };
                    let r = NodeEval::Done { rat, out: outv, pos: p };
                    proof {
                        assert(node_eval_of(r) =~~= s);
                    }
                    r
                },
                ChainEvalX::Depth => {
                    let r = NodeEval::Depth;
                    proof {
                        assert(node_eval_of(r) =~~= s);
                    }
                    r
                },
                ChainEvalX::Needs { name, input } => {
                    let r = NodeEval::Needs { name, input };
                    proof {
                        assert(node_eval_of(r) =~~= s);
                    }
                    r
                },
            }
        },
        Pattern::Ref(rn) => {
            let cr = if rn.bindings.entries.len() == 0 {
                eval_node_x(g, rn.target, v, env, tr, pos, depth - 1)
            } else {
                let newenv = flatten_bindings(g, &rn.bindings, env);
                proof {
                    lemma_flatten_wf(g@, rn.bindings@, env@);
                }
                eval_node_x(g, rn.target, v, &newenv, tr, pos, depth - 1)
            };
            match cr {
                NodeEval::Done { rat, out, pos: p } => {
                    let oc = clone_rationale_result(&rat.outcome);
                    let mut kids: Vec<Rationale> = Vec::new();
                    kids.push(rat);
                    let nr = Rationale { outcome: oc, note: rn.name.clone(), children: kids };
                    proof {
                        lemma_rat_of_parts(nr);
                        assert(rats_of(nr.children@) =~= seq![rat_of(nr.children@[0])]);
                    }
                    let r = NodeEval::Done { rat: nr, out, pos: p };
                    proof {
                        assert(node_eval_of(r) =~~= s);
                    }
                    r
                },
                NodeEval::Depth => {
                    let r = NodeEval::Depth;
                    proof {
                        assert(node_eval_of(r) =~~= s);
                    }
                    r
                },
                NodeEval::Needs { name, input } => {
                    let r = NodeEval::Needs { name, input };
                    proof {
                        assert(node_eval_of(r) =~~= s);
                    }
                    r
                },
            }
        },
        Pattern::FunctionCall(name) => {
            if pos < tr.len() {
                match &tr[pos] {
                    Ok(rr) => {
                        let oc = clone_rationale_result(rr);
                        let out = match rr {
                            RationaleResult::Transform(tv) => clone_value(tv),
                            _ => clone_value(v),
                        };
                        let rat = Rationale { outcome: oc, note: name.clone(), children: Vec::new() };
                        proof {
                            lemma_rat_of_parts(rat);
                            assert(rats_of(rat.children@) =~= Seq::<RatModel>::empty());
                        }
                        let r = NodeEval::Done { rat, out, pos: pos + 1 };
                        proof {
                            assert(trace_of(tr@)[pos as int] == Ok::<RatResModel, ErrModel>(rr@));
                            assert(node_eval_of(r) =~~= s);
                        }
                        r
                    },
                    Err(e) => {
                        let rat = Rationale {
                            outcome: RationaleResult::Error(clone_function_error(e)),
                            note: name.clone(),
                            children: Vec::new(),
                        };
                        proof {
                            lemma_rat_of_parts(rat);
                            assert(rats_of(rat.children@) =~= Seq::<RatModel>::empty());
                        }
                        let r = NodeEval::Done { rat, out: clone_value(v), pos: pos + 1 };
                        proof {
                            assert(trace_of(tr@)[pos as int] == Err::<RatResModel, ErrModel>(e@));
                            assert(node_eval_of(r) =~~= s);
                        }
                        r
                    },
                }
            } else {
                let r = NodeEval::Needs { name: name.clone(), input: clone_value(v) };
                proof {
                    assert(node_eval_of(r) =~~= s);
                }
                r
            }
        },
        Pattern::Parameter(name) => {
            match env.resolve(name) {
                Some(t) => {
                    proof {
                        lemma_resolve_wf(env@, name@, g@.len() as int);
                    }
                    let cr = eval_node_x(g, t, v, env, tr, pos, depth - 1);
                    match cr {
                        NodeEval::Done { rat, out, pos: p } => {
                            let oc = clone_rationale_result(&rat.outcome);
                            let mut kids: Vec<Rationale> = Vec::new();
                            kids.push(rat);
                            let nr = Rationale { outcome: oc, note: name.clone(), children: kids };
                            proof {
                                lemma_rat_of_parts(nr);
                                assert(rats_of(nr.children@) =~= seq![rat_of(nr.children@[0])]);
                            }
                            let r = NodeEval::Done { rat: nr, out, pos: p };
                            proof {
                                assert(node_eval_of(r) =~~= s);
                            }
                            r
                        },
                        NodeEval::Depth => {
                            let r = NodeEval::Depth;
                            proof {
                                assert(node_eval_of(r) =~~= s);
                            }
                            r
                        },
                        NodeEval::Needs { name: n2, input } => {
                            let r = NodeEval::Needs { name: n2, input };
                            proof {
                                assert(node_eval_of(r) =~~= s);
                            }
                            r
                        },
                    }
                },
                None => {
                    let rat = Rationale {
                        outcome: RationaleResult::NotMatch,
                        note: name.clone(),
                        children: Vec::new(),
                    };
                    proof {
                        lemma_rat_of_parts(rat);
                        assert(rats_of(rat.children@) =~= Seq::<RatModel>::empty());
                    }
                    let r = NodeEval::Done { rat, out: clone_value(v), pos };
                    proof {
                        assert(node_eval_of(r) =~~= s);
                    }
                    r
                },
            }
        },
    }
}

fn eval_list_x(
    g: &PatternGraph,
    items: &Vec<usize>,
    i: usize,
    v: &Value,
    env: &Bindings,
    tr: &Vec<FnOutcome>,
    pos: usize,
    depth: u32,
) -> (r: ListEvalX)
    requires
        graph_wf(g@),
        env_wf(env@, g@.len() as int),
        pos <= tr@.len(),
        i <= items@.len(),
        forall|k: int| 0 <= k < items@.len() ==> (#[trigger] items@[k]) < g.nodes@.len(),
    ensures
        list_eval_of(r) == eval_list(g@, ixs_of(items@), i as int, v@, env@, trace_of(tr@), pos as int, depth as nat),
        r matches ListEvalX::Done { rats: _, pos: p } ==> p <= tr@.len(),
    decreases depth, 2nat, items@.len() - i,
{
    let ghost s = eval_list(g@, ixs_of(items@), i as int, v@, env@, trace_of(tr@), pos as int, depth as nat);
    if i >= items.len() {
        let r = ListEvalX::Done { rats: Vec::new(), pos };
        proof {
            assert(list_eval_of(r) =~~= s);
        }
        r
    } else {
        let nr = eval_node_x(g, items[i], v, env, tr, pos, depth);
        match nr {
            NodeEval::Done { rat, out: _, pos: p } => {
                let rest = eval_list_x(g, items, i + 1, v, env, tr, p, depth);
                match rest {
                    ListEvalX::Done { rats: mut rats, pos: p2 } => {
                        rats.insert(0, rat);
                        let r = ListEvalX::Done { rats, pos: p2 };
                        proof {
                            assert(list_eval_of(r) =~~= s);
                        }
                        r
                    },
                    ListEvalX::Depth => {
                        let r = ListEvalX::Depth;
                        proof {
                            assert(list_eval_of(r) =~~= s);
                        }
                        r
                    },
                    ListEvalX::Needs { name, input } => {
                        let r = ListEvalX::Needs { name, input };
                        proof {
                            assert(list_eval_of(r) =~~= s);
                        }
                        r
                    },
                }
            },
            NodeEval::Depth => {
                let r = ListEvalX::Depth;
                proof {
                    assert(list_eval_of(r) =~~= s);
                }
                r
            },
            NodeEval::Needs { name, input } => {
                let r = ListEvalX::Needs { name, input };
                proof {
                    assert(list_eval_of(r) =~~= s);
                }
                r
            },
        }
    }
}

fn eval_elems_x(
    g: &PatternGraph,
    ep: usize,
    elems: &Vec<Value>,
    i: usize,
    env: &Bindings,
    tr: &Vec<FnOutcome>,
    pos: usize,
    depth: u32,
) -> (r: ListEvalX)
    requires
        graph_wf(g@),
        env_wf(env@, g@.len() as int),
        pos <= tr@.len(),
        i <= elems@.len(),
        ep < g.nodes@.len(),
    ensures
        list_eval_of(r) == eval_elems(g@, ep as int, vals_model(elems@), i as int, env@, trace_of(tr@), pos as int, depth as nat),
        r matches ListEvalX::Done { rats: _, pos: p } ==> p <= tr@.len(),
    decreases depth, 2nat, elems@.len() - i,
{
    let ghost s = eval_elems(g@, ep as int, vals_model(elems@), i as int, env@, trace_of(tr@), pos as int, depth as nat);
    if i >= elems.len() {
        let r = ListEvalX::Done { rats: Vec::new(), pos };
        proof {
            assert(list_eval_of(r) =~~= s);
        }
        r
    } else {
        let nr = eval_node_x(g, ep, &elems[i], env, tr, pos, depth);
        match nr {
            NodeEval::Done { rat, out: _, pos: p } => {
                let rest = eval_elems_x(g, ep, elems, i + 1, env, tr, p, depth);
                match rest {
                    ListEvalX::Done { rats: mut rats, pos: p2 } => {
                        rats.insert(0, rat);
                        let r = ListEvalX::Done { rats, pos: p2 };
                        proof {
                            assert(list_eval_of(r) =~~= s);
                        }
                        r
                    },
                    ListEvalX::Depth => {
                        let r = ListEvalX::Depth;
                        proof {
                            assert(list_eval_of(r) =~~= s);
                        }
                        r
                    },
                    ListEvalX::Needs { name, input } => {
                        let r = ListEvalX::Needs { name, input };
                        proof {
                            assert(list_eval_of(r) =~~= s);
                        }
                        r
                    },
                }
            },
            NodeEval::Depth => {
                let r = ListEvalX::Depth;
                proof {
                    assert(list_eval_of(r) =~~= s);
                }
                r
            },
            NodeEval::Needs { name, input } => {
                let r = ListEvalX::Needs { name, input };
                proof {
                    assert(list_eval_of(r) =~~= s);
                }
                r
            },
        }
    }
}

fn eval_fields_x(
    g: &PatternGraph,
    fps: &Vec<FieldPattern>,
    i: usize,
    v: &Value,
    env: &Bindings,
    tr: &Vec<FnOutcome>,
    pos: usize,
    depth: u32,
) -> (r: ListEvalX)
    requires
        graph_wf(g@),
        env_wf(env@, g@.len() as int),
        pos <= tr@.len(),
        i <= fps@.len(),
        v@ is Object,
        forall|k: int| 0 <= k < fps@.len() ==> 0 <= (#[trigger] fps@[k]).pattern < g.nodes@.len(),
    ensures
        list_eval_of(r) == eval_fields(g@, fields_of(fps@), i as int, v@, env@, trace_of(tr@), pos as int, depth as nat),
        r matches ListEvalX::Done { rats: _, pos: p } ==> p <= tr@.len(),
    decreases depth, 2nat, fps@.len() - i,
{
    let ghost s = eval_fields(g@, fields_of(fps@), i as int, v@, env@, trace_of(tr@), pos as int, depth as nat);
    if i >= fps.len() {
        let r = ListEvalX::Done { rats: Vec::new(), pos };
        proof {
            assert(list_eval_of(r) =~~= s);
        }
        return r;
    }
    match v {
        Value::Object(fields) => {
            proof {
                assert(v@->Object_0 =~= fields_model(fields@));
            }
            match get_field(fields, &fps[i].name) {
                None => {
                    let miss = Rationale {
                        outcome: RationaleResult::NotMatch,
                        note: fps[i].name.clone(),
                        children: Vec::new(),
                    };
                    proof {
                        lemma_rat_of_parts(miss);
                        assert(rats_of(miss.children@) =~= Seq::<RatModel>::empty());
                    }
                    let rest = eval_fields_x(g, fps, i + 1, v, env, tr, pos, depth);
                    match rest {
                        ListEvalX::Done { rats: mut rats, pos: p2 } => {
                            rats.insert(0, miss);
                            let r = ListEvalX::Done { rats, pos: p2 };
                            proof {
                                assert(list_eval_of(r) =~~= s);
                            }
                            r
                        },
                        ListEvalX::Depth => {
                            let r = ListEvalX::Depth;
                            proof {
                                assert(list_eval_of(r) =~~= s);
                            }
                            r
                        },
                        ListEvalX::Needs { name, input } => {
                            let r = ListEvalX::Needs { name, input };
                            proof {
                                assert(list_eval_of(r) =~~= s);
                            }
                            r
                        },
                    }
                },
                Some(fv) => {
                    let nr = eval_node_x(g, fps[i].pattern, fv, env, tr, pos, depth);
                    match nr {
                        NodeEval::Done { rat, out: _, pos: p } => {
                            let oc = clone_rationale_result(&rat.outcome);
                            let mut kids: Vec<Rationale> = Vec::new();
                            kids.push(rat);
                            let child = Rationale {
                                outcome: oc,
                                note: fps[i].name.clone(),
                                children: kids,
                            };
                            proof {
                                lemma_rat_of_parts(child);
                                assert(rats_of(child.children@) =~= seq![
                                    rat_of(child.children@[0]),
                                ]);
                            }
                            let rest = eval_fields_x(g, fps, i + 1, v, env, tr, p, depth);
                            match rest {
                                ListEvalX::Done { rats: mut rats, pos: p2 } => {
                                    rats.insert(0, child);
                                    let r = ListEvalX::Done { rats, pos: p2 };
                                    proof {
                                        assert(list_eval_of(r) =~~= s);
                                    }
                                    r
                                },
                                ListEvalX::Depth => {
                                    let r = ListEvalX::Depth;
                                    proof {
                                        assert(list_eval_of(r) =~~= s);
                                    }
                                    r
                                },
                                ListEvalX::Needs { name, input } => {
                                    let r = ListEvalX::Needs { name, input };
                                    proof {
                                        assert(list_eval_of(r) =~~= s);
                                    }
                                    r
                                },
                            }
                        },
                        NodeEval::Depth => {
                            let r = ListEvalX::Depth;
                            proof {
                                assert(list_eval_of(r) =~~= s);
                            }
                            r
                        },
                        NodeEval::Needs { name, input } => {
                            let r = ListEvalX::Needs { name, input };
                            proof {
                                assert(list_eval_of(r) =~~= s);
                            }
                            r
                        },
                    }
                },
            }
        },
        _ => {
            proof {
                assert(false);
            }
            ListEvalX::Depth
        },
    }
}

fn eval_chain_x(
    g: &PatternGraph,
    steps: &Vec<usize>,
    i: usize,
    v: &Value,
    env: &Bindings,
    tr: &Vec<FnOutcome>,
    pos: usize,
    depth: u32,
) -> (r: ChainEvalX)
    requires
        graph_wf(g@),
        env_wf(env@, g@.len() as int),
        pos <= tr@.len(),
        i <= steps@.len(),
        forall|k: int| 0 <= k < steps@.len() ==> (#[trigger] steps@[k]) < g.nodes@.len(),
    ensures
        chain_eval_of(r) == eval_chain(g@, ixs_of(steps@), i as int, v@, env@, trace_of(tr@), pos as int, depth as nat),
        r matches ChainEvalX::Done { rats: _, ok: _, out: _, pos: p } ==> p <= tr@.len(),
    decreases depth, 2nat, steps@.len() - i,
{
    let ghost s = eval_chain(g@, ixs_of(steps@), i as int, v@, env@, trace_of(tr@), pos as int, depth as nat);
    if i >= steps.len() {
        let r = ChainEvalX::Done { rats: Vec::new(), ok: true, out: clone_value(v), pos };
        proof {
            assert(chain_eval_of(r) =~~= s);
        }
        return r;
    }
    let nr = eval_node_x(g, steps[i], v, env, tr, pos, depth);
    match nr {
        NodeEval::Done { rat, out, pos: p } => {
            if !rat.is_match() {
                let mut rats: Vec<Rationale> = Vec::new();
                rats.push(rat);
                let r = ChainEvalX::Done { rats, ok: false, out: clone_value(v), pos: p };
                proof {
                    assert(chain_eval_of(r) =~~= s);
                }
                r
            } else {
                let rest = eval_chain_x(g, steps, i + 1, &out, env, tr, p, depth);
                match rest {
                    ChainEvalX::Done { rats: mut rats, ok, out: out2, pos: p2 } => {
                        rats.insert(0, rat);
                        let r = ChainEvalX::Done { rats, ok, out: out2, pos: p2 };
                        proof {
                            assert(chain_eval_of(r) =~~= s);
                        }
                        r
                    },
                    ChainEvalX::Depth => {
                        let r = ChainEvalX::Depth;
                        proof {
                            assert(chain_eval_of(r) =~~= s);
                        }
                        r
                    },
                    ChainEvalX::Needs { name, input } => {
                        let r = ChainEvalX::Needs { name, input };
                        proof {
                            assert(chain_eval_of(r) =~~= s);
                        }
                        r
                    },
                }
            }
        },
        NodeEval::Depth => {
            let r = ChainEvalX::Depth;
            proof {
                assert(chain_eval_of(r) =~~= s);
            }
            r
        },
        NodeEval::Needs { name, input } => {
            let r = ChainEvalX::Needs { name, input };
            proof {
                assert(chain_eval_of(r) =~~= s);
            }
            r
        },
    }
}

/// Engine-level failures: they abort the whole `evaluate` call and are
/// surfaced distinctly from a policy NotMatch verdict. The engine itself
/// only ever reports the depth guard; a driver that cancels an evaluation
/// reports `Cancelled`.
#[derive(Debug)]
pub enum EngineError {
    StackDepthExceeded,
    Cancelled,
}

/// The outcome of one engine pass: either a complete rationale with the
/// value evaluation ended on, or the name of the external function whose
/// outcome must be supplied (with the value it would be invoked on) before
/// evaluation can finish.
#[derive(Debug)]
pub enum Evaluation {
    Complete { rationale: Rationale, output: Value },
    NeedsFunction { name: String, input: Value },
}

/// How many evaluation steps may stack up before the depth guard fires:
/// a lazily self-referential pattern ends in `StackDepthExceeded`, never in
/// an unbounded hang.
pub const DEFAULT_MAX_DEPTH: u32 = 64;

/// Evaluate the compiled pattern at `root` against `v`. Outcomes of
/// external-function calls are read from `trace` in request order; when the
/// trace is exhausted at a function-call node, the engine reports which
/// function it needs and on which input, so the driver can perform that one
/// call and run the evaluation again with the outcome appended.
pub fn evaluate(g: &PatternGraph, root: usize, v: &Value, trace: &Vec<FnOutcome>) -> (r: Result<
    Evaluation,
    EngineError,
>)
    requires
        graph_wf(g@),
        root < g.nodes@.len(),
    ensures
        ({
            let s = eval_node(
                g@,
                root as int,
                v@,
                Seq::empty(),
                trace_of(trace@),
                0,
                DEFAULT_MAX_DEPTH as nat,
            );
            match r {
                Ok(Evaluation::Complete { rationale, output }) => s matches EvalModel::Done {
                    rat,
                    out,
                    pos: _,
                } && rat == rationale@ && out == output@,
                Ok(Evaluation::NeedsFunction { name, input }) => s == (EvalModel::Needs {
                    name: name@,
                    input: input@,
                }),
                Err(EngineError::StackDepthExceeded) => s is Depth,
                Err(EngineError::Cancelled) => false,
            }
        }),
{
    let env = Bindings::empty();
    let r0 = eval_node_x(g, root, v, &env, trace, 0, DEFAULT_MAX_DEPTH);
    match r0 {
        NodeEval::Done { rat, out, pos: _ } => Ok(
            Evaluation::Complete { rationale: rat, output: out },
        ),
        NodeEval::Depth => Err(EngineError::StackDepthExceeded),
        NodeEval::Needs { name, input } => Ok(Evaluation::NeedsFunction { name, input }),
    }
}

} // verus!
