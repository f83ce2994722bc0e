//! The msgpack values that Neovim sends over RPC.
//!
//! Floats are carried as their IEEE-754 bit patterns: the library passes
//! them on and never computes with them.

use vstd::prelude::*;

verus! {

/// A msgpack value. Integers span `i64::MIN..=u64::MAX`; a string whose
/// bytes are not UTF-8 is kept as `InvalidString`.
#[derive(PartialEq, Debug)]
pub enum Value {
    Nil,
    Boolean(bool),
    Integer(i128),
    F32(u32),
    F64(u64),
    String(String),
    InvalidString(Vec<u8>),
    Binary(Vec<u8>),
    Array(Vec<Value>),
    Dict(Vec<(Value, Value)>),
    Ext(i8, Vec<u8>),
}

/// The mathematical content of a [`Value`].
pub enum ValueView {
    Nil,
    Boolean(bool),
    Integer(int),
    F32(u32),
    F64(u64),
    String(Seq<char>),
    InvalidString(Seq<u8>),
    Binary(Seq<u8>),
    Array(Seq<ValueView>),
    Dict(Seq<(ValueView, ValueView)>),
    Ext(i8, Seq<u8>),
}

/// A number as it was sent: an integer, or the bits of a float.
#[derive(Clone, Copy, PartialEq, Eq, Structural, Debug)]
pub enum Number {
    Integer(i128),
    F32(u32),
    F64(u64),
}

impl Value {
    /// The content of the value.
    pub open spec fn content(self) -> ValueView
        decreases self,
    {
        match self {
            Value::Nil => ValueView::Nil,
            Value::Boolean(b) => ValueView::Boolean(b),
            Value::Integer(n) => ValueView::Integer(n as int),
            Value::F32(b) => ValueView::F32(b),
            Value::F64(b) => ValueView::F64(b),
            Value::String(s) => ValueView::String(s@),
            Value::InvalidString(b) => ValueView::InvalidString(b@),
            Value::Binary(b) => ValueView::Binary(b@),
            Value::Array(v) => ValueView::Array(
                Seq::new(
                    v@.len(),
                    |i: int|
                        if 0 <= i < v@.len() {
                            v@[i].content()
                        } else {
                            ValueView::Nil
                        },
                ),
            ),
            Value::Dict(v) => ValueView::Dict(
                Seq::new(
                    v@.len(),
                    |i: int|
                        if 0 <= i < v@.len() {
                            (v@[i].0.content(), v@[i].1.content())
                        } else {
                            (ValueView::Nil, ValueView::Nil)
                        },
                ),
            ),
            Value::Ext(t, b) => ValueView::Ext(t, b@),
        }
    }
}

impl View for Value {
    type V = ValueView;

    open spec fn view(&self) -> ValueView {
        self.content()
    }
}

impl ValueView {
    /// The integer as a `u64`, if it is one that fits.
    pub open spec fn as_u64(self) -> Option<u64> {
        match self {
            ValueView::Integer(n) => if 0 <= n <= u64::MAX {
                Some(n as u64)
            } else {
                None
            },
            _ => None,
        }
    }

    /// The integer as an `i64`, if it is one that fits.
    pub open spec fn as_i64(self) -> Option<i64> {
        match self {
            ValueView::Integer(n) => if i64::MIN <= n <= i64::MAX {
                Some(n as i64)
            } else {
                None
            },
            _ => None,
        }
    }

    pub open spec fn as_bool(self) -> Option<bool> {
        match self {
            ValueView::Boolean(b) => Some(b),
            _ => None,
        }
    }

    /// The characters of a (valid UTF-8) string.
    pub open spec fn as_str(self) -> Option<Seq<char>> {
        match self {
            ValueView::String(s) => Some(s),
            _ => None,
        }
    }

    pub open spec fn as_array(self) -> Option<Seq<ValueView>> {
        match self {
            ValueView::Array(v) => Some(v),
            _ => None,
        }
    }

    pub open spec fn as_dict(self) -> Option<Seq<(ValueView, ValueView)>> {
        match self {
            ValueView::Dict(v) => Some(v),
            _ => None,
        }
    }

    /// The number, if the value is an integer or a float.
    pub open spec fn as_number(self) -> Option<Number> {
        match self {
            ValueView::Integer(n) => Some(Number::Integer(n as i128)),
            ValueView::F32(b) => Some(Number::F32(b)),
            ValueView::F64(b) => Some(Number::F64(b)),
            _ => None,
        }
    }

    /// Element `i` of an array; `Nil` when there is no such element.
    pub open spec fn item(self, i: int) -> ValueView {
        match self {
            ValueView::Array(v) => if 0 <= i < v.len() {
                v[i]
            } else {
                ValueView::Nil
            },
            _ => ValueView::Nil,
        }
    }
}

fn copy_bytes(b: &Vec<u8>) -> (r: Vec<u8>)
    ensures
        r@ == b@,
{
    let mut r: Vec<u8> = Vec::new();
    let mut i: usize = 0;
    while i < b.len()
        invariant
            0 <= i <= b@.len(),
            r@ == b@.take(i as int),
        decreases b@.len() - i,
    {
        r.push(b[i]);
        i = i + 1;
        assert(r@ =~= b@.take(i as int));
    }
    assert(b@.take(b@.len() as int) =~= b@);
    r
}

impl Value {
    /// A copy of the value.
    #[verifier::loop_isolation(false)]
    pub fn copy(&self) -> (r: Value)
        ensures
            r@ == self@,
        decreases self,
    {
        match self {
            Value::Nil => Value::Nil,
            Value::Boolean(b) => Value::Boolean(*b),
            Value::Integer(n) => Value::Integer(*n),
            Value::F32(b) => Value::F32(*b),
            Value::F64(b) => Value::F64(*b),
            Value::String(s) => Value::String(s.clone()),
            Value::InvalidString(b) => Value::InvalidString(copy_bytes(b)),
            Value::Binary(b) => Value::Binary(copy_bytes(b)),
            Value::Array(v) => {
                let mut r: Vec<Value> = Vec::new();
                let mut i: usize = 0;
                while i < v.len()
                    invariant
                        0 <= i <= v@.len(),
                        r@.len() == i,
                        forall|k: int| 0 <= k < i ==> (#[trigger] r@[k])@ == v@[k]@,
                    decreases v@.len() - i,
                {
                    r.push(v[i].copy());
                    i = i + 1;
                }
                let res = Value::Array(r);
                assert(res@ =~= self@) by {
                    assert(res@->Array_0 =~= self@->Array_0);
                }
                res
            },
            Value::Dict(v) => {
                let mut r: Vec<(Value, Value)> = Vec::new();
                let mut i: usize = 0;
                while i < v.len()
                    invariant
                        0 <= i <= v@.len(),
                        r@.len() == i,
                        forall|k: int|
                            0 <= k < i ==> (#[trigger] r@[k]).0@ == v@[k].0@ && r@[k].1@
                                == v@[k].1@,
                    decreases v@.len() - i,
                {
                    let k = v[i].0.copy();
                    let x = v[i].1.copy();
                    r.push((k, x));
                    i = i + 1;
                }
                let res = Value::Dict(r);
                assert(res@ =~= self@) by {
                    assert(res@->Dict_0 =~= self@->Dict_0);
                }
                res
            },
            Value::Ext(t, b) => Value::Ext(*t, copy_bytes(b)),
        }
    }

    pub fn as_u64(&self) -> (r: Option<u64>)
        ensures
            r == self@.as_u64(),
    {
        match self {
            Value::Integer(n) => if 0 <= *n && *n <= u64::MAX as i128 {
                Some(*n as u64)
            } else {
                None
            },
            _ => None,
        }
    }

    pub fn as_i64(&self) -> (r: Option<i64>)
        ensures
            r == self@.as_i64(),
    {
        match self {
            Value::Integer(n) => if i64::MIN as i128 <= *n && *n <= i64::MAX as i128 {
                Some(*n as i64)
            } else {
                None
            },
            _ => None,
        }
    }

    pub fn as_bool(&self) -> (r: Option<bool>)
        ensures
            r == self@.as_bool(),
    {
        match self {
            Value::Boolean(b) => Some(*b),
            _ => None,
        }
    }

    pub fn as_str(&self) -> (r: Option<&str>)
        ensures
            r is Some <==> self@.as_str() is Some,
            r matches Some(s) ==> s@ == self@.as_str()->0,
    {
        match self {
            Value::String(s) => Some(s.as_str()),
            _ => None,
        }
    }

    pub fn as_array(&self) -> (r: Option<&Vec<Value>>)
        ensures
            r is Some <==> self@.as_array() is Some,
            r matches Some(v) ==> v@.len() == self@.as_array()->0.len() && forall|i: int|
                0 <= i < v@.len() ==> (#[trigger] v@[i])@ == self@.as_array()->0[i],
    {
        match self {
            Value::Array(v) => {
                assert(self@ is Array);
                assert(self@->Array_0.len() == v@.len());
                assert forall|i: int| 0 <= i < v@.len() implies (#[trigger] v@[i])@ == self@->Array_0[i] by {
                    assert(self@->Array_0[i] == v@[i].view());
                }
                Some(v)
            },
            _ => None,
        }
    }

    pub fn as_dict(&self) -> (r: Option<&Vec<(Value, Value)>>)
        ensures
            r is Some <==> self@.as_dict() is Some,
            r matches Some(v) ==> v@.len() == self@.as_dict()->0.len() && forall|i: int|
                0 <= i < v@.len() ==> (#[trigger] v@[i]).0@ == self@.as_dict()->0[i].0 && v@[i].1@
                    == self@.as_dict()->0[i].1,
    {
        match self {
            Value::Dict(v) => Some(v),
            _ => None,
        }
    }

    pub fn as_number(&self) -> (r: Option<Number>)
        ensures
            r == self@.as_number(),
    {
        match self {
            Value::Integer(n) => Some(Number::Integer(*n)),
            Value::F32(b) => Some(Number::F32(*b)),
            Value::F64(b) => Some(Number::F64(*b)),
            _ => None,
        }
    }

    /// Element `i` of an array; `None` stands for the `Nil` that
    /// [`ValueView::item`] gives when there is no such element.
    pub fn item(&self, i: usize) -> (r: Option<&Value>)
        ensures
            r is None ==> self@.item(i as int) == ValueView::Nil,
            r matches Some(x) ==> x@ == self@.item(i as int),
    {
        match self {
            Value::Array(v) => if i < v.len() {
                Some(&v[i])
            } else {
                None
            },
            _ => None,
        }
    }
}

fn bytes_eq(a: &Vec<u8>, b: &Vec<u8>) -> (r: bool)
    ensures
        r == (a@ == b@),
{
    if a.len() != b.len() {
        return false;
    }
    let mut i: usize = 0;
    while i < a.len()
        invariant
            a@.len() == b@.len(),
            0 <= i <= a@.len(),
            forall|k: int| 0 <= k < i ==> a@[k] == b@[k],
        decreases a@.len() - i,
    {
        if a[i] != b[i] {
            return false;
        }
        i = i + 1;
    }
    assert(a@ =~= b@);
    true
}

impl Value {
    /// Whether the two values are the same msgpack value.
    #[verifier::loop_isolation(false)]
    pub fn same_as(&self, other: &Value) -> (r: bool)
        ensures
            r == (self@ == other@),
        decreases self,
    {
        match (self, other) {
            (Value::Nil, Value::Nil) => true,
            (Value::Boolean(a), Value::Boolean(b)) => *a == *b,
            (Value::Integer(a), Value::Integer(b)) => *a == *b,
            (Value::F32(a), Value::F32(b)) => *a == *b,
            (Value::F64(a), Value::F64(b)) => *a == *b,
            (Value::String(a), Value::String(b)) => crate::text::str_eq(a.as_str(), b.as_str()),
            (Value::InvalidString(a), Value::InvalidString(b)) => bytes_eq(a, b),
            (Value::Binary(a), Value::Binary(b)) => bytes_eq(a, b),
            (Value::Ext(t, a), Value::Ext(u, b)) => *t == *u && bytes_eq(a, b),
            (Value::Array(a), Value::Array(b)) => {
                if a.len() != b.len() {
                    assert(self@->Array_0.len() != other@->Array_0.len());
                    return false;
                }
                let mut i: usize = 0;
                while i < a.len()
                    invariant
                        a@.len() == b@.len(),
                        0 <= i <= a@.len(),
                        forall|k: int| 0 <= k < i ==> (#[trigger] a@[k])@ == b@[k]@,
                    decreases a@.len() - i,
                {
                    if !a[i].same_as(&b[i]) {
                        assert(self@->Array_0[i as int] != other@->Array_0[i as int]);
                        return false;
                    }
                    i = i + 1;
                }
                assert(self@->Array_0 =~= other@->Array_0);
                true
            },
            (Value::Dict(a), Value::Dict(b)) => {
                if a.len() != b.len() {
                    assert(self@->Dict_0.len() != other@->Dict_0.len());
                    return false;
                }
                let mut i: usize = 0;
                while i < a.len()
                    invariant
                        a@.len() == b@.len(),
                        0 <= i <= a@.len(),
                        forall|k: int|
                            0 <= k < i ==> (#[trigger] a@[k]).0@ == b@[k].0@ && a@[k].1@
                                == b@[k].1@,
                    decreases a@.len() - i,
                {
                    if !(a[i].0.same_as(&b[i].0) && a[i].1.same_as(&b[i].1)) {
                        assert(self@->Dict_0[i as int] != other@->Dict_0[i as int]);
                        return false;
                    }
                    i = i + 1;
                }
                assert(self@->Dict_0 =~= other@->Dict_0);
                true
            },
            _ => false,
        }
    }
}

} // verus!
