//! JSON values.

use vstd::prelude::*;
use vstd::string::*;
use crate::collections::{map_get, map_insert, map_remove, CloneView, StrMap};
use crate::text::str_eq;

verus! {

/// A JSON value. A number is held as its text; an object as its entries in order.
#[derive(Debug)]
pub enum Value {
    Null,
    Bool(bool),
    Number(String),
    Text(String),
    Array(Vec<Value>),
    Object(Vec<(String, Value)>),
}

/// What a [`Value`] stands for.
pub enum ValueV {
    Null,
    Bool(bool),
    Number(Seq<char>),
    Text(Seq<char>),
    Array(Seq<ValueV>),
    Object(Seq<(Seq<char>, ValueV)>),
}

/// What `v` stands for.
pub open spec fn value_view(v: Value) -> ValueV
    decreases v,
{
    match v {
        Value::Null => ValueV::Null,
        Value::Bool(b) => ValueV::Bool(b),
        Value::Number(s) => ValueV::Number(s@),
        Value::Text(s) => ValueV::Text(s@),
        Value::Array(a) => ValueV::Array(
            Seq::new(
                a@.len(),
                |i: int|
                    if 0 <= i < a@.len() {
                        value_view(a@[i])
                    } else {
                        ValueV::Null
                    },
            ),
        ),
        Value::Object(m) => ValueV::Object(
            Seq::new(
                m@.len(),
                |i: int|
                    if 0 <= i < m@.len() {
                        (m@[i].0@, value_view(m@[i].1))
                    } else {
                        (Seq::empty(), ValueV::Null)
                    },
            ),
        ),
    }
}

impl DeepView for Value {
    type V = ValueV;

    open spec fn deep_view(&self) -> ValueV {
        value_view(*self)
    }
}

/// A copy of `v`.
pub fn clone_value(v: &Value) -> (r: Value)
    ensures
        value_view(r) == value_view(*v),
    decreases v,
{
    match v {
        Value::Null => Value::Null,
        Value::Bool(b) => Value::Bool(*b),
        Value::Number(s) => Value::Number(s.clone()),
        Value::Text(s) => Value::Text(s.clone()),
        Value::Array(a) => {
            let mut out: Vec<Value> = Vec::new();
            let mut i: usize = 0;
            while i < a.len()
                invariant
                    0 <= i <= a@.len(),
                    out@.len() == i,
                    decreases_to!(v => a),
                    forall|j: int| 0 <= j < i ==> value_view(#[trigger] out@[j]) == value_view(a@[j]),
                decreases a@.len() - i,
            {
                assert(decreases_to!(a@ => a@[i as int]));
                out.push(clone_value(&a[i]));
                i = i + 1;
            }
            let r = Value::Array(out);
            assert(value_view(r)->Array_0 =~= value_view(*v)->Array_0);
            r
        },
        Value::Object(m) => {
            let mut out: Vec<(String, Value)> = Vec::new();
            let mut i: usize = 0;
            while i < m.len()
                invariant
                    0 <= i <= m@.len(),
                    out@.len() == i,
                    decreases_to!(v => m),
                    forall|j: int|
                        0 <= j < i ==> value_view((#[trigger] out@[j]).1) == value_view(m@[j].1)
                            && out@[j].0@ == m@[j].0@,
                decreases m@.len() - i,
            {
                assert(decreases_to!(m@ => m@[i as int]));
                let e = &m[i];
                out.push((e.0.clone(), clone_value(&e.1)));
                i = i + 1;
            }
            let r = Value::Object(out);
            assert(value_view(r)->Object_0 =~= value_view(*v)->Object_0);
            r
        },
    }
}

impl CloneView for Value {
    fn clone_view(&self) -> (r: Self) {
        clone_value(self)
    }
}

impl Clone for Value {
    fn clone(&self) -> (r: Self)
        ensures
            r.deep_view() == self.deep_view(),
    {
        clone_value(self)
    }
}

impl ValueV {
    /// The entries of an object; none of any other value.
    pub open spec fn entries(self) -> Seq<(Seq<char>, ValueV)> {
        match self {
            ValueV::Object(m) => m,
            _ => Seq::empty(),
        }
    }

    /// The items of an array; none of any other value.
    pub open spec fn items(self) -> Seq<ValueV> {
        match self {
            ValueV::Array(a) => a,
            _ => Seq::empty(),
        }
    }

    /// The value under a key of an object.
    pub open spec fn get(self, key: Seq<char>) -> Option<ValueV> {
        map_get(self.entries(), key)
    }

    pub open spec fn as_bool(self) -> Option<bool> {
        match self {
            ValueV::Bool(b) => Some(b),
            _ => None,
        }
    }

    pub open spec fn as_str(self) -> Option<Seq<char>> {
        match self {
            ValueV::Text(s) => Some(s),
            _ => None,
        }
    }

    /// The string under a key of an object.
    pub open spec fn get_str(self, key: Seq<char>) -> Option<Seq<char>> {
        match self.get(key) {
            Some(v) => v.as_str(),
            None => None,
        }
    }
}

impl Value {
    /// The value under a key of an object.
    pub fn get(&self, key: &str) -> (r: Option<&Value>)
        ensures
            match r {
                Some(v) => self.deep_view().get(key@) == Some(v.deep_view()),
                None => self.deep_view().get(key@) is None,
            },
    {
        match self {
            Value::Object(m) => {
                let mut i: usize = 0;
                let ghost all = self.deep_view().entries();
                assert(all.skip(0) =~= all);
                while i < m.len()
                    invariant
                        0 <= i <= m@.len(),
                        *self == Value::Object(*m),
                        all == self.deep_view().entries(),
                        all.len() == m@.len(),
                        map_get(all.skip(i as int), key@) == map_get(all, key@),
                    decreases m@.len() - i,
                {
                    let e = &m[i];
                    assert(all.skip(i as int)[0] == (e.0@, e.1.deep_view()));
                    if str_eq(e.0.as_str(), key) {
                        return Some(&e.1);
                    }
                    assert(all.skip(i as int).skip(1) =~= all.skip(i + 1));
                    i = i + 1;
                }
                None
            },
            _ => None,
        }
    }

    pub fn as_bool(&self) -> (r: Option<bool>)
        ensures
            r == self.deep_view().as_bool(),
    {
        match self {
            Value::Bool(b) => Some(*b),
            _ => None,
        }
    }

    pub fn as_str(&self) -> (r: Option<&str>)
        ensures
            r.deep_view() == self.deep_view().as_str(),
    {
        match self {
            Value::Text(s) => Some(s.as_str()),
            _ => None,
        }
    }
}

// ---------------------------------------------------------------------------
// Making values
// ---------------------------------------------------------------------------

/// Entries put into an object, one after the other.
pub open spec fn entries_of(pairs: Seq<(Seq<char>, ValueV)>) -> Seq<(Seq<char>, ValueV)>
    decreases pairs.len(),
{
    if pairs.len() == 0 {
        Seq::empty()
    } else {
        map_insert(entries_of(pairs.drop_last()), pairs.last().0, pairs.last().1)
    }
}

/// The object with some entries.
pub open spec fn object(pairs: Seq<(Seq<char>, ValueV)>) -> ValueV {
    ValueV::Object(entries_of(pairs))
}

/// The object that a map stands for.
pub fn object_of(m: StrMap<Value>) -> (r: Value)
    ensures
        r.deep_view() == ValueV::Object(m.deep_view()),
{
    let r = Value::Object(m.entries);
    assert(value_view(r)->Object_0 =~= m.deep_view());
    r
}

/// The array of some values.
pub fn array_of(v: Vec<Value>) -> (r: Value)
    ensures
        r.deep_view() == ValueV::Array(v.deep_view()),
{
    let r = Value::Array(v);
    assert(value_view(r)->Array_0 =~= v.deep_view());
    r
}

/// The map that an object stands for; an empty one for any other value.
pub fn map_of(v: Value) -> (r: StrMap<Value>)
    ensures
        r.deep_view() == v.deep_view().entries(),
{
    match v {
        Value::Object(m) => {
            let r = StrMap { entries: m };
            assert(r.deep_view() =~= v.deep_view().entries());
            r
        },
        _ => {
            let r = StrMap::new();
            assert(r.deep_view() =~= v.deep_view().entries());
            r
        },
    }
}

/// An entry of an object.
pub fn entry(key: &str, value: Value) -> (r: (String, Value))
    ensures
        r.deep_view() == (key@, value.deep_view()),
        r.0@ == key@,
        r.1 == value,
{
    (key.to_string(), value)
}

/// A text.
pub fn text(s: &str) -> (r: Value)
    ensures
        r.deep_view() == ValueV::Text(s@),
{
    Value::Text(s.to_string())
}

/// The object with some entries.
pub fn json_object(pairs: Vec<(String, Value)>) -> (r: Value)
    ensures
        r.deep_view() == object(pairs.deep_view()),
{
    let ghost all = pairs.deep_view();
    let mut m: StrMap<Value> = StrMap::new();
    let mut i: usize = 0;
    assert(all.take(0) =~= Seq::empty());
    assert(m.deep_view() =~= entries_of(all.take(0)));
    while i < pairs.len()
        invariant
            0 <= i <= pairs@.len(),
            all == pairs.deep_view(),
            m.deep_view() == entries_of(all.take(i as int)),
        decreases pairs@.len() - i,
    {
        proof {
            assert(all.take(i + 1).drop_last() =~= all.take(i as int));
            assert(all.take(i + 1).last() == pairs@[i as int].deep_view());
        }
        m.insert(pairs[i].0.clone(), pairs[i].1.clone_view());
        i = i + 1;
    }
    assert(all.take(i as int) =~= all);
    object_of(m)
}

impl ValueV {
    /// An object with another value under a key; any other value as it is.
    pub open spec fn with(self, key: Seq<char>, value: ValueV) -> ValueV {
        match self {
            ValueV::Object(m) => ValueV::Object(map_insert(m, key, value)),
            _ => self,
        }
    }

    /// An object without what is under a key; any other value as it is.
    pub open spec fn without(self, key: Seq<char>) -> ValueV {
        match self {
            ValueV::Object(m) => ValueV::Object(map_remove(m, key)),
            _ => self,
        }
    }

    /// An object with some entries put in, one after the other.
    pub open spec fn with_entries(self, entries: Seq<(Seq<char>, ValueV)>) -> ValueV
        decreases entries.len(),
    {
        if entries.len() == 0 {
            self
        } else {
            self.with_entries(entries.drop_last()).with(entries.last().0, entries.last().1)
        }
    }
}

/// An object with another value under a key.
pub fn with_value(v: Value, key: &str, value: Value) -> (r: Value)
    ensures
        r.deep_view() == v.deep_view().with(key@, value.deep_view()),
{
    match v {
        Value::Object(_) => {
            let mut m = map_of(v);
            m.insert(key.to_string(), value);
            object_of(m)
        },
        _ => v,
    }
}

/// An object without what is under a key.
pub fn without_key(v: Value, key: &str) -> (r: Value)
    ensures
        r.deep_view() == v.deep_view().without(key@),
{
    match v {
        Value::Object(_) => object_of(map_of(v).without(key)),
        _ => v,
    }
}

/// A value with the entries of a patch put into it, where both are objects.
pub open spec fn merged(base: ValueV, patch: ValueV) -> ValueV {
    base.with_entries(patch.entries())
}

/// A value with the entries of a patch put into it, where both are objects.
pub fn merge_json(base: Value, patch: &Value) -> (r: Value)
    ensures
        r.deep_view() == merged(base.deep_view(), patch.deep_view()),
{
    match patch {
        Value::Object(m) => {
            let ghost b = base.deep_view();
            let ghost all = patch.deep_view().entries();
            let mut out = base;
            let mut i: usize = 0;
            assert(all.take(0) =~= Seq::empty());
            while i < m.len()
                invariant
                    0 <= i <= m@.len(),
                    *patch == Value::Object(*m),
                    all == patch.deep_view().entries(),
                    all.len() == m@.len(),
                    out.deep_view() == b.with_entries(all.take(i as int)),
                decreases m@.len() - i,
            {
                proof {
                    assert(all.take(i + 1).drop_last() =~= all.take(i as int));
                    assert(all.take(i + 1).last() == (m@[i as int].0@, m@[i as int].1.deep_view()));
                }
                out = with_value(out, m[i].0.as_str(), m[i].1.clone_view());
                i = i + 1;
            }
            assert(all.take(i as int) =~= all);
            out
        },
        _ => base,
    }
}

impl Value {
    /// The string under a key of an object.
    pub fn get_str(&self, key: &str) -> (r: Option<&str>)
        ensures
            match r {
                Some(s) => self.deep_view().get_str(key@) == Some(s@),
                None => self.deep_view().get_str(key@) is None,
            },
    {
        match self.get(key) {
            Some(v) => v.as_str(),
            None => None,
        }
    }
}

} // verus!
