use vstd::prelude::*;

verus! {

/// Mathematical model of a runtime value, used in contracts: the view of `Value`.
#[verifier::ext_equal]
pub enum Val {
    Null,
    Bool(bool),
    Int(int),
    Str(Seq<char>),
    Octets(Seq<u8>),
    List(Seq<Val>),
    Object(Seq<(Seq<char>, Val)>),
}

/// One field of an object value: a name paired with the value stored under it.
#[derive(Debug)]
pub struct ObjectField {
    pub name: String,
    pub value: Value,
}

/// A runtime datum under evaluation: a JSON-like tree of primitives,
/// ordered lists and field maps. Patterns are matched against values of
/// this type; structural equality is variant-and-content based.
#[derive(Debug)]
pub enum Value {
    Null,
    Bool(bool),
    Int(i64),
    Str(String),
    Octets(Vec<u8>),
    List(Vec<Value>),
    Object(Vec<ObjectField>),
}

pub open spec fn val_of(v: Value) -> Val
    decreases v,
{
    match v {
        Value::Null => Val::Null,
        Value::Bool(b) => Val::Bool(b),
        Value::Int(i) => Val::Int(i as int),
        Value::Str(s) => Val::Str(s@),
        Value::Octets(o) => Val::Octets(o@),
        Value::List(items) => Val::List(
            Seq::new(
                items@.len(),
                |i: int|
                    if 0 <= i < items@.len() {
                        val_of(items@[i])
                    } else {
                        Val::Null
                    },
            ),
        ),
        Value::Object(fields) => Val::Object(
            Seq::new(
                fields@.len(),
                |i: int|
                    if 0 <= i < fields@.len() {
                        (fields@[i].name@, val_of(fields@[i].value))
                    } else {
                        (Seq::empty(), Val::Null)
                    },
            ),
        ),
    }
}

impl View for Value {
    type V = Val;

    open spec fn view(&self) -> Val {
        val_of(*self)
    }
}

impl Value {
    /// Structural read access: the string content, if this value is a string.
    /// Absence is an ordinary query result, not an error.
    pub fn try_get_string(&self) -> (r: Option<String>)
        ensures
            match r {
                Some(s) => self@ == Val::Str(s@),
                None => !(self@ is Str),
            },
    {
        match self {
            Value::Str(s) => Some(s.clone()),
            _ => None,
        }
    }
}

/// Duplicate a value; the copy has the same model as the original.
pub fn clone_value(v: &Value) -> (r: Value)
    ensures
        r@ == v@,
    decreases *v,
{
    match v {
        Value::Null => Value::Null,
        Value::Bool(b) => Value::Bool(*b),
        Value::Int(i) => Value::Int(*i),
        Value::Str(s) => Value::Str(s.clone()),
        Value::Octets(o) => {
            let mut out: Vec<u8> = Vec::new();
            let mut i: usize = 0;
            while i < o.len()
                invariant
                    i <= o.len(),
                    out@ =~= o@.subrange(0, i as int),
                decreases o.len() - i,
            {
                out.push(o[i]);
                i = i + 1;
            }
            assert(out@ =~= o@);
            Value::Octets(out)
        },
        Value::List(items) => {
            let mut out: Vec<Value> = Vec::new();
            let mut i: usize = 0;
            while i < items.len()
                invariant
                    *v == Value::List(*items),
                    i <= items.len(),
                    out@.len() == i,
                    forall|j: int| 0 <= j < i ==> val_of(out@[j]) == val_of(items@[j]),
                decreases items.len() - i,
            {
                proof {
                    assert(*items == v->List_0);
                    assert(decreases_to!(*v => v->List_0));
                    assert(decreases_to!(*items => items@[i as int]));
                    assert(decreases_to!(*v => items@[i as int]));
                }
                let c = clone_value(&items[i]);
                out.push(c);
                i = i + 1;
            }
            let r = Value::List(out);
            proof {
                let s1 = r@->List_0;
                let s2 = v@->List_0;
                assert forall|k: int| 0 <= k < s1.len() implies s1[k] == s2[k] by {
                    assert(s1[k] == val_of(out@[k]));
                    assert(s2[k] == val_of(items@[k]));
                }
                assert(s1 =~= s2);
                assert(r@ == Val::List(s1));
                assert(v@ == Val::List(s2));
            }
            r
        },
        Value::Object(fields) => {
            let mut out: Vec<ObjectField> = Vec::new();
            let mut i: usize = 0;
            while i < fields.len()
                invariant
                    *v == Value::Object(*fields),
                    i <= fields.len(),
                    out@.len() == i,
                    forall|j: int|
                        0 <= j < i ==> out@[j].name@ == fields@[j].name@ && val_of(out@[j].value)
                            == val_of(fields@[j].value),
                decreases fields.len() - i,
            {
                proof {
                    assert(*fields == v->Object_0);
                    assert(decreases_to!(*v => v->Object_0));
                    assert(decreases_to!(*fields => fields@[i as int]));
                    assert(decreases_to!(*fields => fields@[i as int].value));
                    assert(decreases_to!(*v => fields@[i as int].value));
                }
                let c = ObjectField {
                    name: fields[i].name.clone(),
                    value: clone_value(&fields[i].value),
                };
                out.push(c);
                i = i + 1;
            }
            let r = Value::Object(out);
            proof {
                let s1 = r@->Object_0;
                let s2 = v@->Object_0;
                assert forall|k: int| 0 <= k < s1.len() implies s1[k] == s2[k] by {
                    assert(s1[k] == (out@[k].name@, val_of(out@[k].value)));
                    assert(s2[k] == (fields@[k].name@, val_of(fields@[k].value)));
                }
                assert(s1 =~= s2);
                assert(r@ == Val::Object(s1));
                assert(v@ == Val::Object(s2));
            }
            r
        },
    }
}

/// Structural equality of two values: same variant and same content.
pub fn value_eq(a: &Value, b: &Value) -> (r: bool)
    ensures
        r == (a@ == b@),
    decreases *a,
{
    match (a, b) {
        (Value::Null, Value::Null) => true,
        (Value::Bool(x), Value::Bool(y)) => *x == *y,
        (Value::Int(x), Value::Int(y)) => *x == *y,
        (Value::Str(x), Value::Str(y)) => *x == *y,
        (Value::Octets(x), Value::Octets(y)) => {
            if x.len() != y.len() {
                assert(a@->Octets_0.len() == x@.len());
                assert(b@->Octets_0.len() == y@.len());
                return false;
            }
            let mut i: usize = 0;
            while i < x.len()
                invariant
                    *a == Value::Octets(*x),
                    *b == Value::Octets(*y),
                    i <= x.len(),
                    x@.len() == y@.len(),
                    forall|j: int| 0 <= j < i ==> x@[j] == y@[j],
                decreases x.len() - i,
            {
                if x[i] != y[i] {
                    assert(a@->Octets_0[i as int] != b@->Octets_0[i as int]);
                    return false;
                }
                i = i + 1;
            }
            assert(x@ =~= y@);
            true
        },
        (Value::List(x), Value::List(y)) => {
            if x.len() != y.len() {
                assert(a@->List_0.len() == x@.len());
                assert(b@->List_0.len() == y@.len());
                return false;
            }
            let mut i: usize = 0;
            while i < x.len()
                invariant
                    *a == Value::List(*x),
                    *b == Value::List(*y),
                    i <= x.len(),
                    x@.len() == y@.len(),
                    forall|j: int| 0 <= j < i ==> val_of(x@[j]) == val_of(y@[j]),
                decreases x.len() - i,
            {
                proof {
                    assert(decreases_to!(*x => x@[i as int]));
                    assert(decreases_to!(*a => x@[i as int]));
                }
                if !value_eq(&x[i], &y[i]) {
                    assert(a@->List_0[i as int] == val_of(x@[i as int]));
                    assert(b@->List_0[i as int] == val_of(y@[i as int]));
                    return false;
                }
                i = i + 1;
            }
            proof {
                let sa = a@->List_0;
                let sb = b@->List_0;
                assert(sa =~= sb);
            }
            true
        },
        (Value::Object(x), Value::Object(y)) => {
            if x.len() != y.len() {
                assert(a@->Object_0.len() == x@.len());
                assert(b@->Object_0.len() == y@.len());
                return false;
            }
            let mut i: usize = 0;
            while i < x.len()
                invariant
                    *a == Value::Object(*x),
                    *b == Value::Object(*y),
                    i <= x.len(),
                    x@.len() == y@.len(),
                    forall|j: int|
                        0 <= j < i ==> x@[j].name@ == y@[j].name@ && val_of(x@[j].value) == val_of(
                            y@[j].value,
                        ),
                decreases x.len() - i,
            {
                proof {
                    assert(decreases_to!(*x => x@[i as int]));
                    assert(decreases_to!(*a => x@[i as int].value));
                }
                let ne = x[i].name == y[i].name;
                let ve = value_eq(&x[i].value, &y[i].value);
                if !(ne && ve) {
                    assert(a@->Object_0[i as int] == (x@[i as int].name@, val_of(x@[i as int].value)));
                    assert(b@->Object_0[i as int] == (y@[i as int].name@, val_of(y@[i as int].value)));
                    return false;
                }
                i = i + 1;
            }
            proof {
                let sa = a@->Object_0;
                let sb = b@->Object_0;
                assert(sa =~= sb);
            }
            true
        },
        _ => {
            assert(a@ != b@);
            false
        },
    }
}

} // verus!
