//! The store's dynamic value representation: a tagged union over null,
//! numbers, strings, ordered arrays, field mappings and typed record
//! identifiers, together with its mathematical model.

use vstd::prelude::*;

verus! {

broadcast use vstd::std_specs::vec::group_vec_axioms;

/// The shape of a dynamic value, used to report type mismatches.
#[derive(Clone, Copy, Debug, PartialEq, Eq, Structural)]
pub enum Kind {
    Null,
    Number,
    Strand,
    Array,
    Object,
    Thing,
}

/// Mathematical model of a dynamic value.
pub enum SpecValue {
    Null,
    Number(int),
    Strand(Seq<char>),
    Array(Seq<SpecValue>),
    Object(Seq<(Seq<char>, SpecValue)>),
    Thing(Seq<char>, Seq<char>),
}

/// A field mapping produced by the store for one returned row: ordered
/// pairs of field name and dynamic value.
#[derive(Debug)]
pub struct Object {
    pub fields: Vec<(String, Value)>,
}

/// A dynamic value as the store holds it: null, a number, a string, an
/// ordered array, a field mapping, or a typed identifier pairing a table
/// name with a record key.
#[derive(Debug)]
pub enum Value {
    Null,
    Number(i64),
    Strand(String),
    Array(Vec<Value>),
    Object(Object),
    Thing(String, String),
}

pub open spec fn spec_of_value(v: Value) -> SpecValue
    decreases v,
{
    match v {
        Value::Null => SpecValue::Null,
        Value::Number(n) => SpecValue::Number(n as int),
        Value::Strand(s) => SpecValue::Strand(s@),
        Value::Array(vs) => SpecValue::Array(spec_of_values(vs@)),
        Value::Object(o) => SpecValue::Object(spec_of_fields(o.fields@)),
        Value::Thing(tb, id) => SpecValue::Thing(tb@, id@),
    }
}

pub open spec fn spec_of_values(s: Seq<Value>) -> Seq<SpecValue>
    decreases s,
{
    if s.len() == 0 {
        Seq::empty()
    } else {
        seq![spec_of_value(s[0])] + spec_of_values(s.drop_first())
    }
}

pub open spec fn spec_of_fields(s: Seq<(String, Value)>) -> Seq<(Seq<char>, SpecValue)>
    decreases s,
{
    if s.len() == 0 {
        Seq::empty()
    } else {
        seq![(s[0].0@, spec_of_value(s[0].1))] + spec_of_fields(s.drop_first())
    }
}

impl View for Value {
    type V = SpecValue;

    open spec fn view(&self) -> SpecValue {
        spec_of_value(*self)
    }
}

impl View for Object {
    type V = Seq<(Seq<char>, SpecValue)>;

    open spec fn view(&self) -> Seq<(Seq<char>, SpecValue)> {
        spec_of_fields(self.fields@)
    }
}

/// The shape of a dynamic value.
pub open spec fn spec_kind(v: SpecValue) -> Kind {
    match v {
        SpecValue::Null => Kind::Null,
        SpecValue::Number(_) => Kind::Number,
        SpecValue::Strand(_) => Kind::Strand,
        SpecValue::Array(_) => Kind::Array,
        SpecValue::Object(_) => Kind::Object,
        SpecValue::Thing(_, _) => Kind::Thing,
    }
}

/// The model of a sequence of values is the sequence of their models.
pub proof fn lemma_values_model(s: Seq<Value>)
    ensures
        spec_of_values(s).len() == s.len(),
        forall|i: int|
            0 <= i < s.len() ==> #[trigger] spec_of_values(s)[i] == spec_of_value(s[i]),
    decreases s.len(),
{
    if s.len() > 0 {
        lemma_values_model(s.drop_first());
    }
}

/// The model of a sequence of fields pairs each name's view with the
/// model of its value.
pub proof fn lemma_fields_model(s: Seq<(String, Value)>)
    ensures
        spec_of_fields(s).len() == s.len(),
        forall|i: int|
            0 <= i < s.len() ==> #[trigger] spec_of_fields(s)[i] == (
                s[i].0@,
                spec_of_value(s[i].1),
            ),
    decreases s.len(),
{
    if s.len() > 0 {
        lemma_fields_model(s.drop_first());
    }
}

/// Appending a value extends the model pointwise.
pub proof fn lemma_values_push(s: Seq<Value>, v: Value)
    ensures
        spec_of_values(s.push(v)) == spec_of_values(s).push(spec_of_value(v)),
{
    lemma_values_model(s);
    lemma_values_model(s.push(v));
    assert(spec_of_values(s.push(v)) =~= spec_of_values(s).push(spec_of_value(v)));
}

/// Appending a field extends the model pointwise.
pub proof fn lemma_fields_push(s: Seq<(String, Value)>, k: String, v: Value)
    ensures
        spec_of_fields(s.push((k, v))) == spec_of_fields(s).push((k@, spec_of_value(v))),
{
    lemma_fields_model(s);
    lemma_fields_model(s.push((k, v)));
    assert(spec_of_fields(s.push((k, v))) =~= spec_of_fields(s).push((k@, spec_of_value(v))));
}

/// Value bound to the first field with the given name, if any.
pub open spec fn spec_obj_get(fs: Seq<(Seq<char>, SpecValue)>, key: Seq<char>) -> Option<
    SpecValue,
>
    decreases fs.len(),
{
    if fs.len() == 0 {
        None
    } else if fs[0].0 == key {
        Some(fs[0].1)
    } else {
        spec_obj_get(fs.drop_first(), key)
    }
}

impl Value {
    /// The shape of this value.
    pub fn kind(&self) -> (k: Kind)
        ensures
            k == spec_kind(self@),
    {
        match self {
            Value::Null => Kind::Null,
            Value::Number(_) => Kind::Number,
            Value::Strand(_) => Kind::Strand,
            Value::Array(_) => Kind::Array,
            Value::Object(_) => Kind::Object,
            Value::Thing(_, _) => Kind::Thing,
        }
    }
}

impl Object {
    /// An object with no fields.
    pub fn new() -> (o: Object)
        ensures
            o@ == Seq::<(Seq<char>, SpecValue)>::empty(),
    {
        Object { fields: Vec::new() }
    }

    /// Appends a field to the mapping.
    pub fn push_field(&mut self, name: String, v: Value)
        ensures
            final(self)@ == old(self)@.push((name@, spec_of_value(v))),
    {
        proof {
            lemma_fields_push(self.fields@, name, v);
        }
        self.fields.push((name, v));
    }

    /// Value of the first field with the given name, if any.
    pub fn get(&self, key: &String) -> (r: Option<&Value>)
        ensures
            match r {
                Some(v) => spec_obj_get(self@, key@) == Some(v@),
                None => spec_obj_get(self@, key@) is None,
            },
    {
        proof {
            lemma_fields_model(self.fields@);
            assert(self@.skip(0) =~= self@);
        }
        let n = self.fields.len();
        for i in 0..n
            invariant
                n == self.fields.len(),
                spec_obj_get(self@, key@) == spec_obj_get(self@.skip(i as int), key@),
                spec_of_fields(self.fields@).len() == self.fields@.len(),
                forall|j: int|
                    0 <= j < self.fields@.len() ==> #[trigger] spec_of_fields(self.fields@)[j]
                        == (self.fields@[j].0@, spec_of_value(self.fields@[j].1)),
        {
            proof {
                assert(self@.skip(i as int).len() > 0);
                assert(self@.skip(i as int)[0] == self@[i as int]);
                assert(self@.skip(i as int).drop_first() =~= self@.skip(i as int + 1));
            }
            if self.fields[i].0.eq(key) {
                assert(spec_obj_get(self@.skip(i as int), key@) == Some(self@[i as int].1));
                return Some(&self.fields[i].1);
            }
        }
        proof {
            assert(self@.skip(n as int) =~= Seq::<(Seq<char>, SpecValue)>::empty());
        }
        None
    }
}

} // verus!
