//! The decode driver shared by every entity: an ordered walk over an
//! object's members, folding each (key, value) pair into a partially
//! populated builder, surfacing the first violation and stopping.

use vstd::prelude::*;
use vstd::string::StringExecFns;
use crate::json::{JsonV, JsonValue};
use crate::errors::{DecodeError, DecodeErrorV};

verus! {

broadcast use
    vstd::std_specs::vec::group_vec_axioms,
    vstd::seq::group_seq_axioms,
    vstd::string::group_string_axioms,
;

/// The view of an option's content.
pub open spec fn opt_view<T: View>(o: Option<T>) -> Option<T::V> {
    match o {
        Some(t) => Some(t.view()),
        None => None,
    }
}

/// The view of a result, elementwise.
pub open spec fn result_view<T: View, E: View>(r: Result<T, E>) -> Result<T::V, E::V> {
    match r {
        Ok(t) => Ok(t.view()),
        Err(e) => Err(e.view()),
    }
}

/// Folds an entity's step function over an object's members in order,
/// stopping at the first violation.
pub open spec fn obj_fold<B>(
    step: spec_fn(B, (Seq<char>, JsonV)) -> Result<B, DecodeErrorV>,
    b: B,
    ps: Seq<(Seq<char>, JsonV)>,
) -> Result<B, DecodeErrorV>
    decreases ps.len(),
{
    if ps.len() == 0 {
        Ok(b)
    } else {
        match step(b, ps[0]) {
            Ok(b2) => obj_fold(step, b2, ps.drop_first()),
            Err(e) => Err(e),
        }
    }
}

/// Folding one more member applies the step function to the fold so far.
pub proof fn lemma_obj_fold_push<B>(
    step: spec_fn(B, (Seq<char>, JsonV)) -> Result<B, DecodeErrorV>,
    b: B,
    ps: Seq<(Seq<char>, JsonV)>,
    p: (Seq<char>, JsonV),
)
    ensures
        obj_fold(step, b, ps.push(p)) == (match obj_fold(step, b, ps) {
            Ok(b2) => step(b2, p),
            Err(e) => Err::<B, DecodeErrorV>(e),
        }),
    decreases ps.len(),
{
    let q = ps.push(p);
    if ps.len() == 0 {
        assert(q[0] == p);
        assert(q.drop_first() =~= Seq::<(Seq<char>, JsonV)>::empty());
        match step(b, p) {
            Ok(b2) => {
                assert(obj_fold(step, b, q) == obj_fold(step, b2, q.drop_first()));
                assert(obj_fold(step, b2, q.drop_first()) == Ok::<B, DecodeErrorV>(b2));
            },
            Err(e) => {
                assert(obj_fold(step, b, q) == Err::<B, DecodeErrorV>(e));
            },
        }
    } else {
        assert(q[0] == ps[0]);
        assert(q.drop_first() =~= ps.drop_first().push(p));
        match step(b, ps[0]) {
            Ok(b2) => {
                lemma_obj_fold_push(step, b2, ps.drop_first(), p);
                assert(obj_fold(step, b, q) == obj_fold(step, b2, ps.drop_first().push(p)));
                assert(obj_fold(step, b, ps) == obj_fold(step, b2, ps.drop_first()));
            },
            Err(e) => {
                assert(obj_fold(step, b, q) == Err::<B, DecodeErrorV>(e));
                assert(obj_fold(step, b, ps) == Err::<B, DecodeErrorV>(e));
            },
        }
    }
}

/// Once a member fails the step function, the whole fold fails with that
/// same first violation.
pub proof fn lemma_obj_fold_stops<B>(
    step: spec_fn(B, (Seq<char>, JsonV)) -> Result<B, DecodeErrorV>,
    b0: B,
    ps: Seq<(Seq<char>, JsonV)>,
    i: int,
    b: B,
    e: DecodeErrorV,
)
    requires
        0 <= i < ps.len(),
        obj_fold(step, b0, ps.take(i)) == Ok::<B, DecodeErrorV>(b),
        step(b, ps[i]) == Err::<B, DecodeErrorV>(e),
    ensures
        obj_fold(step, b0, ps) == Err::<B, DecodeErrorV>(e),
    decreases ps.len(),
{
    if i == 0 {
        assert(ps.take(0) =~= Seq::<(Seq<char>, JsonV)>::empty());
        assert(b0 == b);
    } else {
        assert(ps.take(i)[0] == ps[0]);
        match step(b0, ps[0]) {
            Ok(b1) => {
                assert(ps.take(i).drop_first() =~= ps.drop_first().take(i - 1));
                assert(ps.drop_first()[i - 1] == ps[i]);
                lemma_obj_fold_stops(step, b1, ps.drop_first(), i - 1, b, e);
            },
            Err(_) => {
                assert(obj_fold(step, b0, ps.take(i)) is Err);
            },
        }
    }
}

/// Folding over two member lists in sequence folds the second from
/// where the first ended.
pub proof fn lemma_obj_fold_append<B>(
    step: spec_fn(B, (Seq<char>, JsonV)) -> Result<B, DecodeErrorV>,
    b: B,
    s1: Seq<(Seq<char>, JsonV)>,
    s2: Seq<(Seq<char>, JsonV)>,
)
    ensures
        obj_fold(step, b, s1 + s2) == (match obj_fold(step, b, s1) {
            Ok(b1) => obj_fold(step, b1, s2),
            Err(e) => Err::<B, DecodeErrorV>(e),
        }),
    decreases s1.len(),
{
    if s1.len() == 0 {
        assert(s1 + s2 =~= s2);
    } else {
        assert((s1 + s2)[0] == s1[0]);
        assert((s1 + s2).len() > 0);
        assert((s1 + s2).drop_first() =~= s1.drop_first() + s2);
        match step(b, s1[0]) {
            Ok(b1) => {
                lemma_obj_fold_append(step, b1, s1.drop_first(), s2);
            },
            Err(_) => {},
        }
    }
}

/// Extends a successful fold by one more accepted member.
pub proof fn lemma_obj_fold_snoc_ok<B>(
    step: spec_fn(B, (Seq<char>, JsonV)) -> Result<B, DecodeErrorV>,
    b0: B,
    s: Seq<(Seq<char>, JsonV)>,
    b: B,
    p: (Seq<char>, JsonV),
    b2: B,
)
    requires
        obj_fold(step, b0, s) == Ok::<B, DecodeErrorV>(b),
        step(b, p) == Ok::<B, DecodeErrorV>(b2),
    ensures
        obj_fold(step, b0, s.push(p)) == Ok::<B, DecodeErrorV>(b2),
{
    lemma_obj_fold_push(step, b0, s, p);
}

/// A violation in a prefix is the whole fold's violation.
pub proof fn lemma_obj_fold_prefix_err<B>(
    step: spec_fn(B, (Seq<char>, JsonV)) -> Result<B, DecodeErrorV>,
    b0: B,
    s: Seq<(Seq<char>, JsonV)>,
    j: int,
    e: DecodeErrorV,
)
    requires
        0 <= j <= s.len(),
        obj_fold(step, b0, s.take(j)) == Err::<B, DecodeErrorV>(e),
    ensures
        obj_fold(step, b0, s) == Err::<B, DecodeErrorV>(e),
    decreases s.len(),
{
    if j == 0 {
        assert(s.take(0) =~= Seq::<(Seq<char>, JsonV)>::empty());
    } else {
        assert(s.take(j)[0] == s[0]);
        match step(b0, s[0]) {
            Ok(b1) => {
                assert(s.take(j).drop_first() =~= s.drop_first().take(j - 1));
                lemma_obj_fold_prefix_err(step, b1, s.drop_first(), j - 1, e);
            },
            Err(_) => {},
        }
    }
}

/// A fold that succeeds has consumed every member.
pub proof fn lemma_obj_fold_take_all<B>(
    step: spec_fn(B, (Seq<char>, JsonV)) -> Result<B, DecodeErrorV>,
    b0: B,
    ps: Seq<(Seq<char>, JsonV)>,
)
    ensures
        obj_fold(step, b0, ps.take(ps.len() as int)) == obj_fold(step, b0, ps),
{
    assert(ps.take(ps.len() as int) =~= ps);
}

/// Reads an integer-valued member; anything else is a type mismatch named
/// after the wire key.
pub open spec fn int_of(v: JsonV, k: Seq<char>) -> Result<i64, DecodeErrorV> {
    match v {
        JsonV::Int(n) => if i64::MIN <= n <= i64::MAX {
            Ok(n as i64)
        } else {
            Err(DecodeErrorV::TypeMismatch(k))
        },
        _ => Err(DecodeErrorV::TypeMismatch(k)),
    }
}

/// Reads a string-valued member.
pub open spec fn str_of(v: JsonV, k: Seq<char>) -> Result<Seq<char>, DecodeErrorV> {
    match v {
        JsonV::Str(s) => Ok(s),
        _ => Err(DecodeErrorV::TypeMismatch(k)),
    }
}

/// Reads a boolean-valued member.
pub open spec fn bool_of(v: JsonV, k: Seq<char>) -> Result<bool, DecodeErrorV> {
    match v {
        JsonV::Bool(b) => Ok(b),
        _ => Err(DecodeErrorV::TypeMismatch(k)),
    }
}

/// Reads an unsigned 16-bit member (a country id, a port number).
pub open spec fn u16_of(v: JsonV, k: Seq<char>) -> Result<u16, DecodeErrorV> {
    match v {
        JsonV::Int(n) => if 0 <= n <= u16::MAX {
            Ok(n as u16)
        } else {
            Err(DecodeErrorV::TypeMismatch(k))
        },
        _ => Err(DecodeErrorV::TypeMismatch(k)),
    }
}

/// Reads a signed 16-bit member (a versions delta).
pub open spec fn i16_of(v: JsonV, k: Seq<char>) -> Result<i16, DecodeErrorV> {
    match v {
        JsonV::Int(n) => if i16::MIN <= n <= i16::MAX {
            Ok(n as i16)
        } else {
            Err(DecodeErrorV::TypeMismatch(k))
        },
        _ => Err(DecodeErrorV::TypeMismatch(k)),
    }
}

/// Executable form of `int_of`.
pub fn json_int(v: &JsonValue, k: &str) -> (r: Result<i64, DecodeError>)
    ensures
        result_view(r) == int_of(v@, k@),
{
    match v {
        JsonValue::Int(n) => Ok(*n),
        _ => Err(DecodeError::TypeMismatch(String::from_str(k))),
    }
}

/// Executable form of `str_of`.
pub fn json_str(v: &JsonValue, k: &str) -> (r: Result<String, DecodeError>)
    ensures
        result_view(r) == str_of(v@, k@),
{
    match v {
        JsonValue::Str(s) => Ok(s.clone()),
        _ => Err(DecodeError::TypeMismatch(String::from_str(k))),
    }
}

/// Executable form of `bool_of`.
pub fn json_bool(v: &JsonValue, k: &str) -> (r: Result<bool, DecodeError>)
    ensures
        result_view(r) == bool_of(v@, k@),
{
    match v {
        JsonValue::Bool(b) => Ok(*b),
        _ => Err(DecodeError::TypeMismatch(String::from_str(k))),
    }
}

/// Executable form of `u16_of`.
pub fn json_u16(v: &JsonValue, k: &str) -> (r: Result<u16, DecodeError>)
    ensures
        result_view(r) == u16_of(v@, k@),
{
    match v {
        JsonValue::Int(n) => if 0 <= *n && *n <= u16::MAX as i64 {
            Ok(*n as u16)
        } else {
            Err(DecodeError::TypeMismatch(String::from_str(k)))
        },
        _ => Err(DecodeError::TypeMismatch(String::from_str(k))),
    }
}

/// Executable form of `i16_of`.
pub fn json_i16(v: &JsonValue, k: &str) -> (r: Result<i16, DecodeError>)
    ensures
        result_view(r) == i16_of(v@, k@),
{
    match v {
        JsonValue::Int(n) => if i16::MIN as i64 <= *n && *n <= i16::MAX as i64 {
            Ok(*n as i16)
        } else {
            Err(DecodeError::TypeMismatch(String::from_str(k)))
        },
        _ => Err(DecodeError::TypeMismatch(String::from_str(k))),
    }
}

} // verus!
