use vstd::prelude::*;
use crate::value::{Val, val_of, Value};

verus! {

/// A primitive type check: does the value carry this variant tag?
#[derive(Clone, Copy, Debug)]
pub enum Prim {
    Null,
    Bool,
    Int,
    Str,
    Octets,
    List,
    Object,
}

/// Whether a sequence constraint asks for every element or for at least one.
#[derive(Clone, Copy, Debug)]
pub enum SeqMode {
    All,
    Any,
}

/// Model of `Bindings`: parameter name paired with the graph index of the
/// argument pattern bound to it.
pub type EnvModel = Seq<(Seq<char>, int)>;

/// Resolved generic-parameter bindings for one pattern instantiation:
/// an ordered mapping from parameter name to the graph index of the
/// argument pattern. Built once at compile time, immutable thereafter.
#[derive(Debug)]
pub struct Bindings {
    pub entries: Vec<(String, usize)>,
}

pub open spec fn env_of(entries: Seq<(String, usize)>) -> EnvModel {
    Seq::new(
        entries.len(),
        |i: int|
            if 0 <= i < entries.len() {
                (entries[i].0@, entries[i].1 as int)
            } else {
                (Seq::<char>::empty(), 0int)
            },
    )
}

impl View for Bindings {
    type V = EnvModel;

    open spec fn view(&self) -> EnvModel {
        env_of(self.entries@)
    }
}

/// The binding for `name`, searching front to back.
pub open spec fn resolve_from(env: EnvModel, i: int, name: Seq<char>) -> Option<int>
    decreases env.len() - i,
{
    if i < 0 || i >= env.len() {
        None
    } else if env[i].0 == name {
        Some(env[i].1)
    } else {
        resolve_from(env, i + 1, name)
    }
}

pub open spec fn resolve_spec(env: EnvModel, name: Seq<char>) -> Option<int> {
    resolve_from(env, 0, name)
}

impl Bindings {
    pub fn empty() -> (r: Bindings)
        ensures
            r@ == Seq::<(Seq<char>, int)>::empty(),
    {
        let r = Bindings { entries: Vec::new() };
        proof {
            assert(r@ =~= Seq::<(Seq<char>, int)>::empty());
        }
        r
    }

    /// The pattern argument bound to `name`, if any: an unbound parameter is
    /// a compile-time error, so evaluation treats absence as a mismatch.
    pub fn resolve(&self, name: &String) -> (r: Option<usize>)
        ensures
            match r {
                Some(t) => resolve_spec(self@, name@) == Some(t as int),
                None => resolve_spec(self@, name@) is None,
            },
    {
        let mut i: usize = 0;
        while i < self.entries.len()
            invariant
                i <= self.entries@.len(),
                resolve_from(self@, 0, name@) == resolve_from(self@, i as int, name@),
            decreases self.entries@.len() - i,
        {
            if self.entries[i].0 == *name {
                return Some(self.entries[i].1);
            }
            i = i + 1;
        }
        None
    }
}

/// One declared field constraint of an object pattern.
#[derive(Debug)]
pub struct FieldPattern {
    pub name: String,
    pub pattern: usize,
}

/// A named reference to another compiled pattern, with the bindings built at
/// the reference site.
#[derive(Debug)]
pub struct RefNode {
    pub name: String,
    pub target: usize,
    pub bindings: Bindings,
}

/// Model of a compiled pattern node.
pub enum Pat {
    Literal(Val),
    Primitive(Prim),
    Object(Seq<(Seq<char>, int)>),
    Sequence(SeqMode, int),
    And(Seq<int>),
    Or(Seq<int>),
    Not(int),
    Chain(Seq<int>),
    Ref { name: Seq<char>, target: int, bindings: EnvModel },
    FunctionCall(Seq<char>),
    Parameter(Seq<char>),
}

/// One node of the resolved pattern graph. Children are referenced by their
/// stable index into the graph's node list, so self-referential definitions
/// need no ownership cycle; evaluation guards re-entry by depth.
#[derive(Debug)]
pub enum Pattern {
    /// Match if the value's variant and content equal this literal.
    Literal(Value),
    /// Match if the value carries this variant tag.
    Primitive(Prim),
    /// Match only if every declared field constraint matches.
    Object(Vec<FieldPattern>),
    /// Match if all (or, for `Any`, at least one) elements satisfy the
    /// element pattern.
    Sequence(SeqMode, usize),
    /// Match iff all children match; all child rationales are kept.
    And(Vec<usize>),
    /// Match if any child matches; every child is still evaluated.
    Or(Vec<usize>),
    /// Match iff the single child does not match.
    Not(usize),
    /// Sequential refinement: each step evaluates against the strict
    /// predecessor's output value.
    Chain(Vec<usize>),
    /// Delegate to the referenced pattern with this site's bindings.
    Ref(RefNode),
    /// Invoke the external function registered under this name.
    FunctionCall(String),
    /// Resolve through the bindings in scope and evaluate the argument.
    Parameter(String),
}

pub open spec fn ixs_of(s: Seq<usize>) -> Seq<int> {
    Seq::new(s.len(), |i: int| if 0 <= i < s.len() { s[i] as int } else { 0int })
}

pub open spec fn fields_of(s: Seq<FieldPattern>) -> Seq<(Seq<char>, int)> {
    Seq::new(
        s.len(),
        |i: int|
            if 0 <= i < s.len() {
                (s[i].name@, s[i].pattern as int)
            } else {
                (Seq::<char>::empty(), 0int)
            },
    )
}

pub open spec fn pat_of(p: Pattern) -> Pat {
    match p {
        Pattern::Literal(v) => Pat::Literal(val_of(v)),
        Pattern::Primitive(k) => Pat::Primitive(k),
        Pattern::Object(fs) => Pat::Object(fields_of(fs@)),
        Pattern::Sequence(m, e) => Pat::Sequence(m, e as int),
        Pattern::And(items) => Pat::And(ixs_of(items@)),
        Pattern::Or(items) => Pat::Or(ixs_of(items@)),
        Pattern::Not(c) => Pat::Not(c as int),
        Pattern::Chain(steps) => Pat::Chain(ixs_of(steps@)),
        Pattern::Ref(r) => Pat::Ref { name: r.name@, target: r.target as int, bindings: r.bindings@ },
        Pattern::FunctionCall(n) => Pat::FunctionCall(n@),
        Pattern::Parameter(n) => Pat::Parameter(n@),
    }
}

impl View for Pattern {
    type V = Pat;

    open spec fn view(&self) -> Pat {
        pat_of(*self)
    }
}

/// Every child index a node holds stays inside the graph.
pub open spec fn pat_wf(p: Pat, n: int) -> bool {
    match p {
        Pat::Literal(_) => true,
        Pat::Primitive(_) => true,
        Pat::Object(fs) => forall|i: int| 0 <= i < fs.len() ==> 0 <= (#[trigger] fs[i]).1 < n,
        Pat::Sequence(_, e) => 0 <= e < n,
        Pat::And(items) => forall|i: int| 0 <= i < items.len() ==> 0 <= #[trigger] items[i] < n,
        Pat::Or(items) => forall|i: int| 0 <= i < items.len() ==> 0 <= #[trigger] items[i] < n,
        Pat::Not(c) => 0 <= c < n,
        Pat::Chain(steps) => forall|i: int| 0 <= i < steps.len() ==> 0 <= #[trigger] steps[i] < n,
        Pat::Ref { name: _, target, bindings } => 0 <= target < n && env_wf(bindings, n),
        Pat::FunctionCall(_) => true,
        Pat::Parameter(_) => true,
    }
}

/// Every binding in scope points inside the graph.
pub open spec fn env_wf(env: EnvModel, n: int) -> bool {
    forall|i: int| 0 <= i < env.len() ==> 0 <= (#[trigger] env[i]).1 < n
}

/// The compiled, namespace-resolved pattern graph: a single shared,
/// read-only node list; references are indices into it.
#[derive(Debug)]
pub struct PatternGraph {
    pub nodes: Vec<Pattern>,
}

pub open spec fn graph_of(nodes: Seq<Pattern>) -> Seq<Pat> {
    Seq::new(
        nodes.len(),
        |i: int| if 0 <= i < nodes.len() { pat_of(nodes[i]) } else { Pat::Primitive(Prim::Null) },
    )
}

impl View for PatternGraph {
    type V = Seq<Pat>;

    open spec fn view(&self) -> Seq<Pat> {
        graph_of(self.nodes@)
    }
}

/// A graph is well formed when every node's child indices stay inside it.
pub open spec fn graph_wf(g: Seq<Pat>) -> bool {
    forall|i: int| 0 <= i < g.len() ==> pat_wf(#[trigger] g[i], g.len() as int)
}

/// A resolved binding in a well-formed environment points inside the graph.
pub proof fn lemma_resolve_wf(env: EnvModel, name: Seq<char>, n: int)
    requires
        env_wf(env, n),
        resolve_spec(env, name) is Some,
    ensures
        0 <= resolve_spec(env, name)->Some_0 < n,
{
    lemma_resolve_from_wf(env, 0, name, n);
}

proof fn lemma_resolve_from_wf(env: EnvModel, i: int, name: Seq<char>, n: int)
    requires
        env_wf(env, n),
        resolve_from(env, i, name) is Some,
    ensures
        0 <= resolve_from(env, i, name)->Some_0 < n,
    decreases env.len() - i,
{
    if i < 0 || i >= env.len() {
    } else if env[i].0 == name {
    } else {
        lemma_resolve_from_wf(env, i + 1, name, n);
    }
}


fn check_indices(items: &Vec<usize>, n: usize) -> (r: bool)
    ensures
        r == (forall|i: int| 0 <= i < ixs_of(items@).len() ==> 0 <= #[trigger] ixs_of(items@)[i]
            < n as int),
{
    let mut i: usize = 0;
    while i < items.len()
        invariant
            i <= items@.len(),
            forall|j: int| 0 <= j < i ==> 0 <= #[trigger] ixs_of(items@)[j] < n as int,
        decreases items@.len() - i,
    {
        if items[i] >= n {
            assert(!(0 <= ixs_of(items@)[i as int] < n as int));
            return false;
        }
        assert(0 <= ixs_of(items@)[i as int] < n as int);
        i = i + 1;
    }
    true
}

fn check_env(b: &Bindings, n: usize) -> (r: bool)
    ensures
        r == env_wf(b@, n as int),
{
    let mut i: usize = 0;
    while i < b.entries.len()
        invariant
            i <= b.entries@.len(),
            forall|j: int| 0 <= j < i ==> 0 <= (#[trigger] b@[j]).1 < n as int,
        decreases b.entries@.len() - i,
    {
        if b.entries[i].1 >= n {
            assert(!(0 <= b@[i as int].1 < n as int));
            return false;
        }
        assert(0 <= b@[i as int].1 < n as int);
        i = i + 1;
    }
    true
}

#[verifier::rlimit(50)]
fn check_pattern(p: &Pattern, n: usize) -> (r: bool)
    ensures
        r == pat_wf(pat_of(*p), n as int),
{
    match p {
        Pattern::Literal(_) => {
            assert(pat_wf(pat_of(*p), n as int));
            true
        },
        Pattern::Primitive(_) => {
            assert(pat_wf(pat_of(*p), n as int));
            true
        },
        Pattern::Object(fs) => {
            let mut i: usize = 0;
            while i < fs.len()
                invariant
                    *p == Pattern::Object(*fs),
                    i <= fs@.len(),
                    forall|j: int| 0 <= j < i ==> 0 <= (#[trigger] fields_of(fs@)[j]).1 < n as int,
                decreases fs@.len() - i,
            {
                if fs[i].pattern >= n {
                    proof {
                        assert(pat_of(*p) is Object);
                        assert(pat_of(*p)->Object_0 == fields_of(fs@));
                        assert(!(0 <= pat_of(*p)->Object_0[i as int].1 < n as int));
                        assert(!pat_wf(pat_of(*p), n as int));
                    }
                    return false;
                }
                assert(0 <= fields_of(fs@)[i as int].1 < n as int);
                i = i + 1;
            }
            proof {
                assert forall|j: int|
                    0 <= j < fields_of(fs@).len() implies 0 <= (#[trigger] fields_of(
                    fs@,
                )[j]).1 < n as int by {}
                assert(pat_wf(pat_of(*p), n as int));
            }
            true
        },
        Pattern::Sequence(_, e) => {
            let ok = *e < n;
            proof {
                if !ok {
                    assert(!(0 <= pat_of(*p)->Sequence_1 < n as int));
                }
            }
            ok
        },
        Pattern::And(items) => {
            let ok = check_indices(items, n);
            proof {
                assert(pat_of(*p)->And_0 == ixs_of(items@));
                if ok {
                    assert(pat_wf(pat_of(*p), n as int));
                } else {
                    let i = choose|i: int|
                        0 <= i < ixs_of(items@).len() && !(0 <= #[trigger] ixs_of(items@)[i]
                            < n as int);
                    assert(!(0 <= pat_of(*p)->And_0[i] < n as int));
                    assert(!pat_wf(pat_of(*p), n as int));
                }
            }
            ok
        },
        Pattern::Or(items) => {
            let ok = check_indices(items, n);
            proof {
                assert(pat_of(*p)->Or_0 == ixs_of(items@));
                if ok {
                    assert(pat_wf(pat_of(*p), n as int));
                } else {
                    let i = choose|i: int|
                        0 <= i < ixs_of(items@).len() && !(0 <= #[trigger] ixs_of(items@)[i]
                            < n as int);
                    assert(!(0 <= pat_of(*p)->Or_0[i] < n as int));
                    assert(!pat_wf(pat_of(*p), n as int));
                }
            }
            ok
        },
        Pattern::Not(c) => {
            let ok = *c < n;
            proof {
                if !ok {
                    assert(!(0 <= pat_of(*p)->Not_0 < n as int));
                }
            }
            ok
        },
        Pattern::Chain(steps) => {
            let ok = check_indices(steps, n);
            proof {
                assert(pat_of(*p)->Chain_0 == ixs_of(steps@));
                if ok {
                    assert(pat_wf(pat_of(*p), n as int));
                } else {
                    let i = choose|i: int|
                        0 <= i < ixs_of(steps@).len() && !(0 <= #[trigger] ixs_of(steps@)[i]
                            < n as int);
                    assert(!(0 <= pat_of(*p)->Chain_0[i] < n as int));
                    assert(!pat_wf(pat_of(*p), n as int));
                }
            }
            ok
        },
        Pattern::Ref(rn) => {
            let t_ok = rn.target < n;
            let e_ok = check_env(&rn.bindings, n);
            proof {
                assert(pat_of(*p)->Ref_bindings == rn.bindings@);
                if !t_ok {
                    assert(!(0 <= pat_of(*p)->Ref_target < n as int));
                }
            }
            t_ok && e_ok
        },
        Pattern::FunctionCall(_) => {
            assert(pat_wf(pat_of(*p), n as int));
            true
        },
        Pattern::Parameter(_) => {
            assert(pat_wf(pat_of(*p), n as int));
            true
        },
    }
}

impl PatternGraph {
    /// Runtime well-formedness check: it passes exactly when every child
    /// index every node holds stays inside the graph, so evaluation can
    /// follow any edge.
    pub fn well_formed(&self) -> (r: bool)
        ensures
            r == graph_wf(self@),
    {
        let n = self.nodes.len();
        let mut i: usize = 0;
        while i < self.nodes.len()
            invariant
                n == self.nodes@.len(),
                i <= self.nodes@.len(),
                forall|j: int| 0 <= j < i ==> pat_wf(#[trigger] self@[j], self@.len() as int),
            decreases self.nodes@.len() - i,
        {
            if !check_pattern(&self.nodes[i], n) {
                proof {
                    assert(self@[i as int] == pat_of(self.nodes@[i as int]));
                    assert(!pat_wf(self@[i as int], self@.len() as int));
                }
                return false;
            }
            assert(self@[i as int] == pat_of(self.nodes@[i as int]));
            i = i + 1;
        }
        true
    }
}

} // verus!
