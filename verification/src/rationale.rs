use vstd::prelude::*;
use crate::value::{Val, Value, val_of, clone_value};

verus! {

/// Model of a `FunctionError`.
pub enum ErrModel {
    InvalidInput,
    Other(Seq<char>),
}

/// Failure signaled by an external function: either the input value's shape
/// is structurally unusable, or a domain-specific failure with a message.
/// It never aborts a whole evaluation; it becomes a local error rationale.
#[derive(Debug)]
pub enum FunctionError {
    InvalidInput,
    Other(String),
}

impl View for FunctionError {
    type V = ErrModel;

    open spec fn view(&self) -> ErrModel {
        match self {
            FunctionError::InvalidInput => ErrModel::InvalidInput,
            FunctionError::Other(m) => ErrModel::Other(m@),
        }
    }
}

pub fn clone_function_error(e: &FunctionError) -> (r: FunctionError)
    ensures
        r@ == e@,
{
    match e {
        FunctionError::InvalidInput => FunctionError::InvalidInput,
        FunctionError::Other(m) => FunctionError::Other(m.clone()),
    }
}

/// Model of a `RationaleResult`.
#[verifier::ext_equal]
pub enum RatResModel {
    Match,
    NotMatch,
    Transform(Val),
    Error(ErrModel),
}

/// Outcome of evaluating one pattern node against one value. A `Transform`
/// carries the new value that replaces the one under consideration for any
/// evaluation that consumes this node's result.
#[derive(Debug)]
pub enum RationaleResult {
    Match,
    NotMatch,
    Transform(Value),
    Error(FunctionError),
}

impl View for RationaleResult {
    type V = RatResModel;

    open spec fn view(&self) -> RatResModel {
        match self {
            RationaleResult::Match => RatResModel::Match,
            RationaleResult::NotMatch => RatResModel::NotMatch,
            RationaleResult::Transform(v) => RatResModel::Transform(val_of(*v)),
            RationaleResult::Error(e) => RatResModel::Error(e@),
        }
    }
}

/// A `Match` or a `Transform` counts toward an overall match; a `NotMatch`
/// or an `Error` does not.
pub open spec fn outcome_is_match(o: RatResModel) -> bool {
    o is Match || o is Transform
}

impl RationaleResult {
    pub fn is_match(&self) -> (r: bool)
        ensures
            r == outcome_is_match(self@),
    {
        match self {
            RationaleResult::Match => true,
            RationaleResult::Transform(_) => true,
            _ => false,
        }
    }
}

pub fn clone_rationale_result(o: &RationaleResult) -> (r: RationaleResult)
    ensures
        r@ == o@,
{
    match o {
        RationaleResult::Match => RationaleResult::Match,
        RationaleResult::NotMatch => RationaleResult::NotMatch,
        RationaleResult::Transform(v) => RationaleResult::Transform(clone_value(v)),
        RationaleResult::Error(e) => RationaleResult::Error(clone_function_error(e)),
    }
}

/// Model of a `Rationale` tree.
#[verifier::ext_equal]
pub struct RatModel {
    pub outcome: RatResModel,
    pub note: Seq<char>,
    pub children: Seq<RatModel>,
}

/// The explanation tree produced by evaluating a pattern node against a
/// value: the node's outcome, a short note (a reference, function or field
/// name), and one child rationale per sub-evaluation, kept even for failing
/// branches so the explanation is complete.
#[derive(Debug)]
pub struct Rationale {
    pub outcome: RationaleResult,
    pub note: String,
    pub children: Vec<Rationale>,
}

pub open spec fn rat_of(r: Rationale) -> RatModel
    decreases r,
{
    RatModel {
        outcome: r.outcome@,
        note: r.note@,
        children: Seq::new(
            r.children@.len(),
            |i: int|
                if 0 <= i < r.children@.len() {
                    rat_of(r.children@[i])
                } else {
                    RatModel { outcome: RatResModel::NotMatch, note: Seq::empty(), children: Seq::empty() }
                },
        ),
    }
}

impl View for Rationale {
    type V = RatModel;

    open spec fn view(&self) -> RatModel {
        rat_of(*self)
    }
}

/// The model of a sequence of child rationales.
pub open spec fn rats_of(s: Seq<Rationale>) -> Seq<RatModel> {
    Seq::new(
        s.len(),
        |i: int|
            if 0 <= i < s.len() {
                rat_of(s[i])
            } else {
                RatModel { outcome: RatResModel::NotMatch, note: Seq::empty(), children: Seq::empty() }
            },
    )
}

/// `rat_of` splits into the model of each part.
pub proof fn lemma_rat_of_parts(r: Rationale)
    ensures
        rat_of(r) == (RatModel { outcome: r.outcome@, note: r.note@, children: rats_of(r.children@) }),
{
    assert(rat_of(r).children =~= rats_of(r.children@));
    assert(rat_of(r) =~= (RatModel {
        outcome: r.outcome@,
        note: r.note@,
        children: rats_of(r.children@),
    }));
}

impl Rationale {
    /// The top-level verdict this rationale carries.
    pub fn is_match(&self) -> (r: bool)
        ensures
            r == outcome_is_match(self@.outcome),
    {
        self.outcome.is_match()
    }
}

} // verus!
