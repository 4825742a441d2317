//! Free-form instance metadata: an ordered string-to-string mapping. On
//! decode the vendor "@class" tag is stripped, a repeated key keeps its
//! first position with the latest value, and an absent map decodes to a
//! zero-length mapping. An empty map is omitted entirely on encode.

use vstd::prelude::*;
use vstd::string::StringExecFns;
use crate::json::{JsonV, JsonValue, model_obj, lemma_model_obj};
use crate::errors::{DecodeError, DecodeErrorV};
use crate::codec::{obj_fold, lemma_obj_fold_push, lemma_obj_fold_stops, str_of, json_str};
use crate::text::str_eq;

verus! {

broadcast use
    vstd::std_specs::vec::group_vec_axioms,
    vstd::seq::group_seq_axioms,
    vstd::string::group_string_axioms,
;

/// Model of the metadata mapping: ordered key/value character sequences.
pub type MetaV = Seq<(Seq<char>, Seq<char>)>;

/// Model of an executable metadata list, elementwise.
pub open spec fn meta_model(ps: Seq<(String, String)>) -> MetaV
    decreases ps,
{
    if ps.len() == 0 {
        Seq::empty()
    } else {
        meta_model(ps.drop_last()).push((ps.last().0@, ps.last().1@))
    }
}

/// `meta_model` is the elementwise model.
pub proof fn lemma_meta_model(ps: Seq<(String, String)>)
    ensures
        meta_model(ps).len() == ps.len(),
        forall|i: int| 0 <= i < ps.len() ==> #[trigger] meta_model(ps)[i] == (ps[i].0@, ps[i].1@),
    decreases ps.len(),
{
    if ps.len() > 0 {
        lemma_meta_model(ps.drop_last());
        assert forall|i: int| 0 <= i < ps.len() implies #[trigger] meta_model(ps)[i] == (
            ps[i].0@,
            ps[i].1@,
        ) by {
            if i < ps.len() - 1 {
                assert(ps.drop_last()[i] == ps[i]);
            }
        }
    }
}

/// Stores a key: a key already present keeps its position and takes the
/// new value; a new key is appended.
pub open spec fn meta_put(m: MetaV, k: Seq<char>, val: Seq<char>) -> MetaV
    decreases m.len(),
{
    if m.len() == 0 {
        seq![(k, val)]
    } else if m[0].0 == k {
        seq![(k, val)] + m.drop_first()
    } else {
        seq![m[0]] + meta_put(m.drop_first(), k, val)
    }
}

/// When `k` first occurs at position `j`, storing it updates that entry.
pub proof fn lemma_meta_put_update(m: MetaV, k: Seq<char>, val: Seq<char>, j: int)
    requires
        0 <= j < m.len(),
        m[j].0 == k,
        forall|i: int| 0 <= i < j ==> (#[trigger] m[i]).0 != k,
    ensures
        meta_put(m, k, val) == m.update(j, (k, val)),
    decreases m.len(),
{
    if j == 0 {
        assert(meta_put(m, k, val) =~= m.update(0, (k, val)));
    } else {
        assert(m[0].0 != k);
        lemma_meta_put_update(m.drop_first(), k, val, j - 1);
        assert(seq![m[0]] + m.drop_first().update(j - 1, (k, val)) =~= m.update(j, (k, val)));
    }
}

/// When `k` occurs nowhere, storing it appends.
pub proof fn lemma_meta_put_append(m: MetaV, k: Seq<char>, val: Seq<char>)
    requires
        forall|i: int| 0 <= i < m.len() ==> (#[trigger] m[i]).0 != k,
    ensures
        meta_put(m, k, val) == m.push((k, val)),
    decreases m.len(),
{
    if m.len() == 0 {
        assert(meta_put(m, k, val) =~= m.push((k, val)));
    } else {
        lemma_meta_put_append(m.drop_first(), k, val);
        assert(seq![m[0]] + m.drop_first().push((k, val)) =~= m.push((k, val)));
    }
}

/// Folds one member into the mapping: the vendor class tag is dropped
/// whatever its value, every other value must be a string.
pub open spec fn meta_step(m: MetaV, p: (Seq<char>, JsonV)) -> Result<MetaV, DecodeErrorV> {
    let (k, v) = p;
    if k == "@class"@ {
        Ok(m)
    } else {
        match str_of(v, k) {
            Ok(s) => Ok(meta_put(m, k, s)),
            Err(e) => Err(e),
        }
    }
}

/// The step function of the mapping, as a value for the fold.
pub open spec fn meta_step_f() -> spec_fn(MetaV, (Seq<char>, JsonV)) -> Result<
    MetaV,
    DecodeErrorV,
> {
    |m: MetaV, p: (Seq<char>, JsonV)| meta_step(m, p)
}

/// What a wire value decodes to as the metadata mapping.
pub open spec fn dec_meta(v: JsonV) -> Result<MetaV, DecodeErrorV> {
    match v {
        JsonV::Obj(ps) => obj_fold(meta_step_f(), Seq::empty(), ps),
        _ => Err(DecodeErrorV::TypeMismatch("metadata"@)),
    }
}

/// The wire members of the mapping: each value as a JSON string.
pub open spec fn enc_meta(m: MetaV) -> Seq<(Seq<char>, JsonV)> {
    Seq::new(m.len(), |i: int| (m[i].0, JsonV::Str(m[i].1)))
}

/// Stores a key in the executable mapping, as `meta_put` describes.
fn meta_put_exec(m: &mut Vec<(String, String)>, k: String, val: String)
    ensures
        meta_model(final(m)@) == meta_put(meta_model(old(m)@), k@, val@),
{
    let ghost kk = k@;
    let ghost vv = val@;
    proof {
        lemma_meta_model(m@);
    }
    let ghost m0 = m@;
    let mut j: usize = 0;
    while j < m.len()
        invariant
            j <= m@.len(),
            m@ == m0,
            m0 == old(m)@,
            kk == k@,
            vv == val@,
            forall|i: int| 0 <= i < j ==> (#[trigger] meta_model(m0)[i]).0 != kk,
        decreases m@.len() - j,
    {
        proof {
            lemma_meta_model(m0);
        }
        if m[j].0 == k {
            let _removed = m.remove(j);
            m.insert(j, (k, val));
            proof {
                lemma_meta_model(m0);
                lemma_meta_model(m@);
                lemma_meta_put_update(meta_model(m0), kk, vv, j as int);
                assert(meta_model(m@) =~= meta_model(m0).update(j as int, (kk, vv)));
                assert(meta_model(m@) == meta_put(meta_model(m0), kk, vv));
            }
            return ;
        }
        j = j + 1;
    }
    proof {
        lemma_meta_model(m0);
        lemma_meta_put_append(meta_model(m0), kk, vv);
    }
    m.push((k, val));
    proof {
        lemma_meta_model(m@);
        assert(meta_model(m@) =~= meta_model(m0).push((kk, vv)));
    }
}

/// Executable form of `meta_step`.
fn meta_apply(m: &mut Vec<(String, String)>, k: &String, v: &JsonValue) -> (r: Result<
    (),
    DecodeError,
>)
    ensures
        match r {
            Ok(_) => meta_step(meta_model(old(m)@), (k@, v@)) == Ok::<MetaV, DecodeErrorV>(
                meta_model(final(m)@),
            ),
            Err(e) => meta_step(meta_model(old(m)@), (k@, v@)) == Err::<MetaV, DecodeErrorV>(e@),
        },
{
    if str_eq(k.as_str(), "@class") {
        Ok(())
    } else {
        match json_str(v, k.as_str()) {
            Ok(s) => {
                meta_put_exec(m, k.clone(), s);
                Ok(())
            },
            Err(e) => Err(e),
        }
    }
}

/// Decodes a wire value as the metadata mapping, stripping the vendor
/// class tag.
pub fn meta_from_json(v: &JsonValue) -> (r: Result<Vec<(String, String)>, DecodeError>)
    ensures
        match r {
            Ok(m) => dec_meta(v@) == Ok::<MetaV, DecodeErrorV>(meta_model(m@)),
            Err(e) => dec_meta(v@) == Err::<MetaV, DecodeErrorV>(e@),
        },
{
    let ps = match v {
        JsonValue::Obj(ps) => ps,
        _ => {
            return Err(DecodeError::TypeMismatch(String::from_str("metadata")));
        },
    };
    let ghost psv = model_obj(ps@);
    proof {
        lemma_model_obj(ps@);
        assert(v@ == JsonV::Obj(psv));
    }
    let mut m: Vec<(String, String)> = Vec::new();
    proof {
        assert(meta_model(m@) =~= Seq::<(Seq<char>, Seq<char>)>::empty());
    }
    let mut i: usize = 0;
    while i < ps.len()
        invariant
            i <= ps.len(),
            psv == model_obj(ps@),
            v@ == JsonV::Obj(psv),
            psv.len() == ps@.len(),
            forall|j: int| 0 <= j < ps@.len() ==> #[trigger] psv[j] == (ps@[j].0@, ps@[j].1@),
            obj_fold(meta_step_f(), Seq::empty(), psv.take(i as int)) == Ok::<MetaV, DecodeErrorV>(
                meta_model(m@),
            ),
        decreases ps.len() - i,
    {
        let ghost m_pre = meta_model(m@);
        match meta_apply(&mut m, &ps[i].0, &ps[i].1) {
            Ok(_) => {
                proof {
                    lemma_obj_fold_push(meta_step_f(), Seq::empty(), psv.take(i as int), psv[i as int]);
                    assert(psv.take(i as int).push(psv[i as int]) =~= psv.take(i + 1));
                }
            },
            Err(e) => {
                proof {
                    lemma_obj_fold_stops(meta_step_f(), Seq::empty(), psv, i as int, m_pre, e@);
                }
                return Err(e);
            },
        }
        i = i + 1;
    }
    proof {
        assert(psv.take(ps@.len() as int) =~= psv);
    }
    Ok(m)
}

/// Encodes the metadata mapping as wire members, each value a string.
pub fn meta_to_members(m: &Vec<(String, String)>) -> (r: Vec<(String, JsonValue)>)
    ensures
        model_obj(r@) == enc_meta(meta_model(m@)),
{
    let mut r: Vec<(String, JsonValue)> = Vec::new();
    proof {
        lemma_meta_model(m@);
    }
    let mut i: usize = 0;
    while i < m.len()
        invariant
            i <= m@.len(),
            r@.len() == i,
            forall|j: int| 0 <= j < m@.len() ==> #[trigger] meta_model(m@)[j] == (m@[j].0@, m@[j].1@),
            meta_model(m@).len() == m@.len(),
            forall|j: int| 0 <= j < i ==> (#[trigger] r@[j].0@, r@[j].1@) == (m@[j].0@, JsonV::Str(m@[j].1@)),
        decreases m@.len() - i,
    {
        r.push((m[i].0.clone(), JsonValue::Str(m[i].1.clone())));
        i = i + 1;
    }
    proof {
        lemma_model_obj(r@);
        assert(model_obj(r@) =~= enc_meta(meta_model(m@)));
    }
    r
}

} // verus!
