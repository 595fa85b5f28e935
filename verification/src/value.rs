//! The runtime values the executor computes: the absence-of-value sentinels,
//! booleans, strings, and objects with ordered, enumerable string-keyed
//! properties.

use vstd::prelude::*;

verus! {

/// A runtime value.
#[derive(Debug)]
pub enum Value {
    /// The absence-of-value sentinel.
    Undefined,
    /// The explicit empty value.
    Null,
    /// A boolean.
    Bool(bool),
    /// A string.
    Str(String),
    /// An object: ordered, enumerable string-keyed properties.
    Object(Vec<(String, Value)>),
}

/// Mathematical image of a [`Value`]: strings as character sequences.
pub enum GValue {
    /// The absence-of-value sentinel.
    Undefined,
    /// The explicit empty value.
    Null,
    /// A boolean.
    Bool(bool),
    /// A string.
    Str(Seq<char>),
    /// An object: its properties in enumeration order.
    Object(Seq<(Seq<char>, GValue)>),
}

/// The image of a property list.
pub open spec fn props_view(s: Seq<(String, Value)>) -> Seq<(Seq<char>, GValue)>
    decreases s, 1nat,
{
    if s.len() == 0 {
        Seq::empty()
    } else {
        props_view(s.drop_last()).push((s.last().0@, vview(s.last().1)))
    }
}

/// The image of a value.
pub open spec fn vview(v: Value) -> GValue
    decreases v, 0nat,
{
    match v {
        Value::Undefined => GValue::Undefined,
        Value::Null => GValue::Null,
        Value::Bool(b) => GValue::Bool(b),
        Value::Str(s) => GValue::Str(s@),
        Value::Object(fields) => GValue::Object(props_view(fields@)),
    }
}

impl View for Value {
    type V = GValue;

    open spec fn view(&self) -> GValue {
        vview(*self)
    }
}

impl Value {
    /// True when the value is one of the two absence-of-value sentinels.
    pub fn is_null_or_undefined(&self) -> (r: bool)
        ensures
            r == (self@ is Undefined || self@ is Null),
    {
        match self {
            Value::Undefined => true,
            Value::Null => true,
            _ => false,
        }
    }
}

/// Copies a value, properties and all.
fn clone_value(v: &Value) -> (r: Value)
    ensures
        r@ == v@,
    decreases *v, 0nat,
{
    match v {
        Value::Undefined => Value::Undefined,
        Value::Null => Value::Null,
        Value::Bool(b) => Value::Bool(*b),
        Value::Str(s) => Value::Str(s.clone()),
        Value::Object(fields) => Value::Object(clone_props(fields)),
    }
}

/// Copies a property list pair by pair.
fn clone_props(fields: &Vec<(String, Value)>) -> (out: Vec<(String, Value)>)
    ensures
        props_view(out@) == props_view(fields@),
    decreases fields@, 1nat,
{
    let mut out: Vec<(String, Value)> = Vec::new();
    let mut i: usize = 0;
    while i < fields.len()
        invariant
            i <= fields@.len(),
            props_view(out@) == props_view(fields@.take(i as int)),
        decreases fields@.len() - i,
    {
        let name = fields[i].0.clone();
        let value = clone_value(&fields[i].1);
        let ghost out_before = out@;
        out.push((name, value));
        proof {
            assert(out@.drop_last() =~= out_before);
            assert(fields@.take(i + 1).drop_last() =~= fields@.take(i as int));
            assert(fields@.take(i + 1).last() == fields@[i as int]);
        }
        i = i + 1;
    }
    proof {
        assert(fields@.take(fields@.len() as int) =~= fields@);
    }
    out
}

/// The property-list image has one entry per property, in order.
pub proof fn lemma_props_view_elements(s: Seq<(String, Value)>)
    ensures
        props_view(s).len() == s.len(),
        forall|i: int| 0 <= i < s.len() ==> #[trigger] props_view(s)[i] == (s[i].0@, vview(s[i].1)),
    decreases s,
{
    if s.len() > 0 {
        lemma_props_view_elements(s.drop_last());
        assert forall|i: int| 0 <= i < s.len() implies #[trigger] props_view(s)[i] == (
            s[i].0@,
            vview(s[i].1),
        ) by {
            if i < s.len() - 1 {
                assert(s.drop_last()[i] == s[i]);
            }
        }
    }
}

impl Clone for Value {
    /// Copies the value, properties and all.
    fn clone(&self) -> (r: Value)
        ensures
            r@ == self@,
    {
        clone_value(self)
    }
}

} // verus!
