use vstd::prelude::*;

verus! {

broadcast use vstd::std_specs::vec::group_vec_axioms;

} // verus!

verus! {

/// A runtime value. `Float` holds the bit pattern of an IEEE-754
/// single-precision number.
#[derive(Debug)]
pub enum Value {
    Int(i32),
    Bool(bool),
    Color(u8, u8, u8),
    RandomColor,
    Float(u32),
    Array(Vec<Value>),
}

/// The mathematical content of a runtime value.
pub enum SValue {
    Int(i32),
    Bool(bool),
    Color(u8, u8, u8),
    RandomColor,
    Float(u32),
    Array(Seq<SValue>),
}

pub open spec fn view_value(v: Value) -> SValue
    decreases v,
{
    match v {
        Value::Int(i) => SValue::Int(i),
        Value::Bool(b) => SValue::Bool(b),
        Value::Color(r, g, b) => SValue::Color(r, g, b),
        Value::RandomColor => SValue::RandomColor,
        Value::Float(f) => SValue::Float(f),
        Value::Array(a) => SValue::Array(Seq::new(a@.len(), |i: int| if 0 <= i < a@.len() { view_value(a@[i]) } else { SValue::Int(0) })),
    }
}

impl View for Value {
    type V = SValue;

    open spec fn view(&self) -> SValue {
        view_value(*self)
    }
}

impl Value {
    pub fn copy(&self) -> (r: Value)
        ensures
            view_value(r) == view_value(*self),
        decreases self,
    {
        match self {
            Value::Int(i) => Value::Int(*i),
            Value::Bool(b) => Value::Bool(*b),
            Value::Color(r, g, b) => Value::Color(*r, *g, *b),
            Value::RandomColor => Value::RandomColor,
            Value::Float(f) => Value::Float(*f),
            Value::Array(a) => {
                let mut out: Vec<Value> = Vec::new();
                let mut i: usize = 0;
                while i < a.len()
                    invariant
                        i <= a@.len(),
                        *self is Array,
                        self->Array_0 == *a,
                        out@.len() == i,
                        forall|j: int| 0 <= j < i ==> #[trigger] view_value(out@[j]) == view_value(a@[j]),
                    decreases a.len() - i,
                {
                    proof {
                        assert(decreases_to!(*a => a[i as int]));
                        assert(decreases_to!(*self => self->Array_0));
                    }
                    out.push(a[i].copy());
                    i += 1;
                }
                let r = Value::Array(out);
                proof {
                    let vr = view_value(r)->Array_0;
                    let vs = view_value(*self)->Array_0;
                    assert(vr.len() == out@.len());
                    assert(vs.len() == a@.len());
                    assert forall|j: int| 0 <= j < vr.len() implies #[trigger] vr[j] == vs[j] by {
                        assert(vr[j] == view_value(out@[j]));
                        assert(vs[j] == view_value(a@[j]));
                    }
                    assert(vr =~= vs);
                }
                r
            },
        }
    }
}

} // verus!
