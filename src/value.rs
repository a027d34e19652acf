use vstd::prelude::*;

verus! {

broadcast use {
    vstd::std_specs::vec::group_vec_axioms,
    vstd::seq::group_seq_axioms,
};

/// A dynamically typed value as it crosses a channel.
///
/// A 64-bit float is carried as its IEEE-754 bit pattern, so that every value
/// can be compared and encoded exactly. A map keeps its entries in the order in
/// which they were written.
#[derive(Debug)]
pub enum Value {
    Null,
    Boolean(bool),
    I32(i32),
    I64(i64),
    F64(u64),
    String(String),
    U8List(Vec<u8>),
    I32List(Vec<i32>),
    I64List(Vec<i64>),
    F64List(Vec<u64>),
    List(Vec<Value>),
    Dict(Vec<(Value, Value)>),
}

/// The mathematical content of a `Value`.
pub enum ValueModel {
    Null,
    Boolean(bool),
    I32(i32),
    I64(i64),
    F64(u64),
    Str(Seq<char>),
    U8List(Seq<u8>),
    I32List(Seq<i32>),
    I64List(Seq<i64>),
    F64List(Seq<u64>),
    List(Seq<ValueModel>),
    Dict(Seq<(ValueModel, ValueModel)>),
}

pub open spec fn model_of(v: &Value) -> ValueModel
    decreases v,
{
    match v {
        Value::Null => ValueModel::Null,
        Value::Boolean(b) => ValueModel::Boolean(*b),
        Value::I32(x) => ValueModel::I32(*x),
        Value::I64(x) => ValueModel::I64(*x),
        Value::F64(x) => ValueModel::F64(*x),
        Value::String(s) => ValueModel::Str(s@),
        Value::U8List(l) => ValueModel::U8List(l@),
        Value::I32List(l) => ValueModel::I32List(l@),
        Value::I64List(l) => ValueModel::I64List(l@),
        Value::F64List(l) => ValueModel::F64List(l@),
        Value::List(l) => ValueModel::List(models_of(l@)),
        Value::Dict(m) => ValueModel::Dict(pair_models_of(m@)),
    }
}

pub open spec fn models_of(s: Seq<Value>) -> Seq<ValueModel>
    decreases s,
{
    if s.len() == 0 {
        Seq::empty()
    } else {
        seq![model_of(&s[0])] + models_of(s.subrange(1, s.len() as int))
    }
}

pub open spec fn pair_models_of(s: Seq<(Value, Value)>) -> Seq<(ValueModel, ValueModel)>
    decreases s,
{
    if s.len() == 0 {
        Seq::empty()
    } else {
        seq![(model_of(&s[0].0), model_of(&s[0].1))] + pair_models_of(
            s.subrange(1, s.len() as int),
        )
    }
}

impl View for Value {
    type V = ValueModel;

    open spec fn view(&self) -> ValueModel {
        model_of(self)
    }
}

} // verus!

verus! {

pub proof fn lemma_models_of(s: Seq<Value>)
    ensures
        models_of(s).len() == s.len(),
        forall|i: int| 0 <= i < s.len() ==> #[trigger] models_of(s)[i] == s[i]@,
    decreases s.len(),
{
    if s.len() > 0 {
        let rest = s.subrange(1, s.len() as int);
        lemma_models_of(rest);
        assert forall|i: int| 0 <= i < s.len() implies #[trigger] models_of(s)[i] == s[i]@ by {
            if i > 0 {
                assert(rest[i - 1] == s[i]);
            }
        }
    }
}

pub proof fn lemma_pair_models_of(s: Seq<(Value, Value)>)
    ensures
        pair_models_of(s).len() == s.len(),
        forall|i: int|
            0 <= i < s.len() ==> #[trigger] pair_models_of(s)[i] == (s[i].0@, s[i].1@),
    decreases s.len(),
{
    if s.len() > 0 {
        let rest = s.subrange(1, s.len() as int);
        lemma_pair_models_of(rest);
        assert forall|i: int| 0 <= i < s.len() implies #[trigger] pair_models_of(s)[i] == (
            s[i].0@,
            s[i].1@,
        ) by {
            if i > 0 {
                assert(rest[i - 1] == s[i]);
            }
        }
    }
}

} // verus!
