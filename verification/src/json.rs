//! The JSON value tree that carries the registry's wire shape, and its
//! mathematical model.

use vstd::prelude::*;

verus! {

broadcast use vstd::std_specs::vec::group_vec_axioms, vstd::seq::group_seq_axioms;

/// Mathematical model of a JSON value: strings are character sequences,
/// numbers are unbounded integers, object members keep their order.
#[verifier::ext_equal]
pub enum JsonV {
    Null,
    Bool(bool),
    Int(int),
    Str(Seq<char>),
    Arr(Seq<JsonV>),
    Obj(Seq<(Seq<char>, JsonV)>),
}

/// Executable JSON value. Object members are an ordered list of pairs,
/// as the wire format's validation rules are order-sensitive.
pub enum JsonValue {
    Null,
    Bool(bool),
    Int(i64),
    Str(String),
    Arr(Vec<JsonValue>),
    Obj(Vec<(String, JsonValue)>),
}

/// Model of a sequence of executable JSON values, elementwise.
pub open spec fn model_arr(vs: Seq<JsonValue>) -> Seq<JsonV>
    decreases vs,
{
    if vs.len() == 0 {
        Seq::empty()
    } else {
        model_arr(vs.drop_last()).push(vs.last().model())
    }
}

/// Model of an object's member list, elementwise.
pub open spec fn model_obj(ps: Seq<(String, JsonValue)>) -> Seq<(Seq<char>, JsonV)>
    decreases ps,
{
    if ps.len() == 0 {
        Seq::empty()
    } else {
        model_obj(ps.drop_last()).push((ps.last().0@, ps.last().1.model()))
    }
}

impl JsonValue {
    /// The model of this value.
    pub open spec fn model(self) -> JsonV
        decreases self,
    {
        match self {
            JsonValue::Null => JsonV::Null,
            JsonValue::Bool(b) => JsonV::Bool(b),
            JsonValue::Int(n) => JsonV::Int(n as int),
            JsonValue::Str(s) => JsonV::Str(s@),
            JsonValue::Arr(vs) => JsonV::Arr(model_arr(vs@)),
            JsonValue::Obj(ps) => JsonV::Obj(model_obj(ps@)),
        }
    }
}

/// `model_arr` is the elementwise model.
pub proof fn lemma_model_arr(vs: Seq<JsonValue>)
    ensures
        model_arr(vs).len() == vs.len(),
        forall|i: int| 0 <= i < vs.len() ==> #[trigger] model_arr(vs)[i] == vs[i].model(),
    decreases vs.len(),
{
    if vs.len() > 0 {
        lemma_model_arr(vs.drop_last());
        assert forall|i: int| 0 <= i < vs.len() implies #[trigger] model_arr(vs)[i] == vs[i].model() by {
            if i < vs.len() - 1 {
                assert(vs.drop_last()[i] == vs[i]);
            }
        }
    }
}

/// `model_obj` is the elementwise model.
pub proof fn lemma_model_obj(ps: Seq<(String, JsonValue)>)
    ensures
        model_obj(ps).len() == ps.len(),
        forall|i: int| 0 <= i < ps.len() ==> #[trigger] model_obj(ps)[i] == (ps[i].0@, ps[i].1.model()),
    decreases ps.len(),
{
    if ps.len() > 0 {
        lemma_model_obj(ps.drop_last());
        assert forall|i: int| 0 <= i < ps.len() implies #[trigger] model_obj(ps)[i] == (ps[i].0@, ps[i].1.model()) by {
            if i < ps.len() - 1 {
                assert(ps.drop_last()[i] == ps[i]);
            }
        }
    }
}

impl View for JsonValue {
    type V = JsonV;

    open spec fn view(&self) -> JsonV {
        self.model()
    }
}

} // verus!
