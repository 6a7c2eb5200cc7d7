use vstd::prelude::*;
use crate::pattern::{Prim, SeqMode};
use crate::value::Value;

verus! {

/// A dotted namespace path addressing one group of definitions. Two paths
/// are equal exactly when their segment sequences are equal.
#[derive(Debug)]
pub struct PackagePath {
    pub segments: Vec<String>,
}

pub open spec fn path_model(s: Seq<String>) -> Seq<Seq<char>> {
    Seq::new(s.len(), |i: int| if 0 <= i < s.len() { s[i]@ } else { Seq::<char>::empty() })
}

impl View for PackagePath {
    type V = Seq<Seq<char>>;

    open spec fn view(&self) -> Seq<Seq<char>> {
        path_model(self.segments@)
    }
}

impl PackagePath {
    pub fn from_parts(parts: Vec<String>) -> (r: PackagePath)
        ensures
            r@ == path_model(parts@),
    {
        PackagePath { segments: parts }
    }
}

/// Segment-wise equality of two paths.
pub fn segs_eq(a: &Vec<String>, b: &Vec<String>) -> (r: bool)
    ensures
        r == (path_model(a@) == path_model(b@)),
{
    if a.len() != b.len() {
        assert(path_model(a@).len() != path_model(b@).len());
        return false;
    }
    let mut i: usize = 0;
    while i < a.len()
        invariant
            i <= a@.len(),
            a@.len() == b@.len(),
            forall|j: int| 0 <= j < i ==> a@[j]@ == b@[j]@,
        decreases a@.len() - i,
    {
        if !(a[i] == b[i]) {
            assert(path_model(a@)[i as int] != path_model(b@)[i as int]);
            return false;
        }
        i = i + 1;
    }
    assert(path_model(a@) =~= path_model(b@));
    true
}

/// One field of an object constraint in the surface representation.
#[derive(Debug)]
pub struct HirField {
    pub name: String,
    pub body: Hir,
}

/// The surface (first-stage) pattern representation handed to compilation:
/// names are still unresolved and generic arguments are still attached to
/// the reference sites.
#[derive(Debug)]
pub enum Hir {
    Literal(Value),
    Primitive(Prim),
    Object(Vec<HirField>),
    Sequence(SeqMode, Box<Hir>),
    And(Vec<Hir>),
    Or(Vec<Hir>),
    Not(Box<Hir>),
    Chain(Vec<Hir>),
    Ref { path: Vec<String>, name: String, args: Vec<Hir> },
    FunctionRef { path: Vec<String>, name: String },
    Parameter(String),
}

/// One named pattern definition: its declared generic parameter list
/// (ordered) and its body.
#[derive(Debug)]
pub struct PatternDef {
    pub name: String,
    pub params: Vec<String>,
    pub body: Hir,
}

/// A compile-time diagnostic. Diagnostics are collected across the whole
/// compilation unit and reported together, never one at a time.
#[derive(Debug)]
pub enum CompileError {
    UnresolvedReference(String),
    ArityMismatch { name: String, expected: usize, found: usize },
    DuplicateName(String),
}

/// A named collection of pattern definitions and external-function names,
/// registered once at startup and read-only afterwards.
#[derive(Debug)]
pub struct Package {
    pub path: PackagePath,
    pub patterns: Vec<PatternDef>,
    pub functions: Vec<String>,
}

pub open spec fn pkg_has_fn(p: Package, n: Seq<char>) -> bool {
    exists|i: int| 0 <= i < p.functions@.len() && (#[trigger] p.functions@[i])@ == n
}

pub open spec fn pkg_has_def(p: Package, n: Seq<char>) -> bool {
    exists|i: int| 0 <= i < p.patterns@.len() && (#[trigger] p.patterns@[i]).name@ == n
}

impl Package {
    pub fn new(path: PackagePath) -> (r: Package)
        ensures
            r.path@ == path@,
            r.patterns@.len() == 0,
            r.functions@.len() == 0,
    {
        Package { path, patterns: Vec::new(), functions: Vec::new() }
    }

    /// Register an external function under `name`; a name already taken in
    /// this package is refused with `DuplicateName`, and nothing changes.
    pub fn register_function(&mut self, name: String) -> (r: Result<(), CompileError>)
        ensures
            match r {
                Ok(()) => !pkg_has_fn(*old(self), name@) && final(self).functions@
                    == old(self).functions@.push(name) && final(self).patterns@
                    == old(self).patterns@ && final(self).path@ == old(self).path@,
                Err(e) => pkg_has_fn(*old(self), name@) && *final(self) == *old(self) && (e
                    matches CompileError::DuplicateName(m) && m@ == name@),
            },
    {
        let mut i: usize = 0;
        while i < self.functions.len()
            invariant
                i <= self.functions@.len(),
                forall|j: int| 0 <= j < i ==> (#[trigger] self.functions@[j])@ != name@,
            decreases self.functions@.len() - i,
        {
            if self.functions[i] == name {
                return Err(CompileError::DuplicateName(name));
            }
            i = i + 1;
        }
        self.functions.push(name);
        Ok(())
    }

    /// Register a pattern definition; a name already taken in this package
    /// is refused with `DuplicateName`, and nothing changes.
    pub fn register_pattern(&mut self, def: PatternDef) -> (r: Result<(), CompileError>)
        ensures
            match r {
                Ok(()) => !pkg_has_def(*old(self), def.name@) && final(self).patterns@
                    == old(self).patterns@.push(def) && final(self).functions@
                    == old(self).functions@ && final(self).path@ == old(self).path@,
                Err(e) => pkg_has_def(*old(self), def.name@) && *final(self) == *old(self) && (e
                    matches CompileError::DuplicateName(m) && m@ == def.name@),
            },
    {
        let mut i: usize = 0;
        while i < self.patterns.len()
            invariant
                i <= self.patterns@.len(),
                forall|j: int| 0 <= j < i ==> (#[trigger] self.patterns@[j]).name@ != def.name@,
            decreases self.patterns@.len() - i,
        {
            if self.patterns[i].name == def.name {
                return Err(CompileError::DuplicateName(def.name));
            }
            i = i + 1;
        }
        self.patterns.push(def);
        Ok(())
    }
}

/// The namespace registry: an explicit object built once at startup and
/// consulted only during compilation. Evaluation walks the already
/// resolved graph and never reads it.
#[derive(Debug)]
pub struct Registry {
    pub packages: Vec<Package>,
}

impl Registry {
    pub fn new() -> (r: Registry)
        ensures
            r.packages@.len() == 0,
    {
        Registry { packages: Vec::new() }
    }

    pub fn add_package(&mut self, p: Package)
        ensures
            final(self).packages@ == old(self).packages@.push(p),
    {
        self.packages.push(p);
    }
}

} // verus!
