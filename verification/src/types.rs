use vstd::prelude::*;

use crate::ast::ConstExp;
use crate::error::Error;
use crate::eval::eval;
use crate::eval::spec_eval;
use crate::scopes::Scopes;
use crate::symbol::SymInfo;

verus! {

/// A type of the generated program, as the generator models it.
///
/// Array lengths are always at least one; `to_type` enforces this when
/// it folds dimension expressions.
#[derive(Debug, PartialEq, Eq)]
pub enum Ty {
    /// The 32-bit integer scalar.
    I32,
    /// The type of no value: a void function's return type.
    Unit,
    /// An array of the given element type and length.
    Array(Box<Ty>, usize),
    /// A pointer to a value of the given type.
    Pointer(Box<Ty>),
    /// A function type: how many parameters it takes — every
    /// parameter is the integer scalar — and its return type.
    Function(usize, Box<Ty>),
}

impl Ty {
    /// A type whose values can live in a memory slot: the scalar, or a
    /// positively sized array of such types. An array length always
    /// fits in an `i32`, since it was folded from one.
    pub open spec fn is_value_type(self) -> bool
        decreases self,
    {
        match self {
            Ty::I32 => true,
            Ty::Array(elem, n) => 1 <= n && n < 0x8000_0000 && elem.is_value_type(),
            _ => false,
        }
    }

    /// An exact copy of a type whose values can live in memory.
    pub fn copy(&self) -> (r: Ty)
        requires
            self.is_value_type(),
        ensures
            r == *self,
        decreases *self,
    {
        match self {
            Ty::I32 => Ty::I32,
            Ty::Array(elem, n) => Ty::Array(Box::new(elem.copy()), *n),
            _ => {
                proof {
                    assert(false);
                }
                Ty::I32
            }
        }
    }
}

/// What folding the dimension list over the scalar base type yields:
/// the list is folded right to left, so the innermost dimension wraps
/// the scalar first and `[2, 3]` gives an array of two arrays of three
/// integers. A dimension that does not fold fails with `FailedToEval`;
/// one folding below one fails with `InvalidArrayLen`; the empty list
/// yields the scalar itself.
pub open spec fn spec_to_type(dims: Seq<ConstExp>, ss: Seq<Seq<(Seq<char>, SymInfo)>>) -> Result<Ty, Error>
    decreases dims.len(),
{
    if dims.len() == 0 {
        Ok(Ty::I32)
    } else {
        match spec_to_type(dims.drop_first(), ss) {
            Ok(inner) => match spec_eval(dims[0].0, ss) {
                Some(n) => if n >= 1 {
                    Ok(Ty::Array(Box::new(inner), n as usize))
                } else {
                    Err(Error::InvalidArrayLen)
                },
                None => Err(Error::FailedToEval),
            },
            Err(e) => Err(e),
        }
    }
}

/// Builds the type a declaration with the dimension expressions `dims`
/// denotes, evaluating each dimension under `scopes`.
pub fn to_type(dims: &Vec<ConstExp>, scopes: &Scopes) -> (r: Result<Ty, Error>)
    ensures
        r == spec_to_type(dims@, scopes@),
        r matches Ok(t) ==> t.is_value_type(),
{
    let r = to_type_from(dims, 0, scopes);
    proof {
        assert(dims@.skip(0) =~= dims@);
    }
    r
}

/// Folds the dimensions from position `pos` on, innermost first.
fn to_type_from(dims: &Vec<ConstExp>, pos: usize, scopes: &Scopes) -> (r: Result<Ty, Error>)
    requires
        pos <= dims@.len(),
    ensures
        r == spec_to_type(dims@.skip(pos as int), scopes@),
        r matches Ok(t) ==> t.is_value_type(),
    decreases dims@.len() - pos,
{
    if pos == dims.len() {
        proof {
            assert(dims@.skip(pos as int) =~= Seq::<ConstExp>::empty());
        }
        Ok(Ty::I32)
    } else {
        proof {
            assert(dims@.skip(pos as int)[0] == dims@[pos as int]);
            assert(dims@.skip(pos as int).drop_first() =~= dims@.skip(pos + 1));
        }
        match to_type_from(dims, pos + 1, scopes) {
            Ok(inner) => match eval(&dims[pos].0, scopes) {
                Some(len) => {
                    if len >= 1 {
                        Ok(Ty::Array(Box::new(inner), len as usize))
                    } else {
                        Err(Error::InvalidArrayLen)
                    }
                }
                None => Err(Error::FailedToEval),
            },
            Err(e) => Err(e),
        }
    }
}

/// Folding dimensions raises only evaluation and length errors,
/// never a duplicate definition.
pub proof fn lemma_to_type_not_dup(dims: Seq<ConstExp>, ss: Seq<Seq<(Seq<char>, SymInfo)>>)
    ensures
        spec_to_type(dims, ss) != Err::<Ty, Error>(Error::DuplicatedDef),
    decreases dims.len(),
{
    if dims.len() > 0 {
        lemma_to_type_not_dup(dims.drop_first(), ss);
    }
}

/// The empty dimension list yields the base scalar type unchanged,
/// whatever the scopes hold.
pub proof fn lemma_to_type_empty(ss: Seq<Seq<(Seq<char>, SymInfo)>>)
    ensures
        spec_to_type(Seq::<ConstExp>::empty(), ss) == Ok::<Ty, Error>(Ty::I32),
{
}

/// Dimensions wrap right to left: two dimensions folding to `n0` and
/// `n1` give an array of `n0` arrays of `n1` integers, not the other
/// way round.
pub proof fn lemma_to_type_right_to_left(
    d0: ConstExp,
    d1: ConstExp,
    ss: Seq<Seq<(Seq<char>, SymInfo)>>,
    n0: i32,
    n1: i32,
)
    requires
        spec_eval(d0.0, ss) == Some(n0),
        1 <= n0,
        spec_eval(d1.0, ss) == Some(n1),
        1 <= n1,
    ensures
        spec_to_type(seq![d0, d1], ss) == Ok::<Ty, Error>(
            Ty::Array(Box::new(Ty::Array(Box::new(Ty::I32), n1 as usize)), n0 as usize),
        ),
{
    let dims = seq![d0, d1];
    assert(dims.drop_first() =~= seq![d1]);
    assert(seq![d1].drop_first() =~= Seq::<ConstExp>::empty());
    assert(seq![d1][0] == d1);
    assert(dims[0] == d0);
    assert(spec_to_type(Seq::<ConstExp>::empty(), ss) == Ok::<Ty, Error>(Ty::I32));
    assert(spec_to_type(seq![d1], ss) == Ok::<Ty, Error>(Ty::Array(Box::new(Ty::I32), n1 as usize)));
}

/// An error met while folding the inner dimensions propagates outward
/// unchanged.
pub proof fn lemma_to_type_err_propagates(
    dims: Seq<ConstExp>,
    ss: Seq<Seq<(Seq<char>, SymInfo)>>,
    k: int,
    e: Error,
)
    requires
        0 <= k <= dims.len(),
        spec_to_type(dims.skip(k), ss) == Err::<Ty, Error>(e),
    ensures
        spec_to_type(dims, ss) == Err::<Ty, Error>(e),
    decreases k,
{
    if k == 0 {
        assert(dims.skip(0) =~= dims);
    } else {
        assert(dims.skip(k - 1).drop_first() =~= dims.skip(k));
        assert(spec_to_type(dims.skip(k - 1), ss) == Err::<Ty, Error>(e));
        lemma_to_type_err_propagates(dims, ss, k - 1, e);
    }
}

/// A suffix whose dimensions all fold to a length of at least one
/// folds to a type.
pub proof fn lemma_to_type_ok_suffix(dims: Seq<ConstExp>, ss: Seq<Seq<(Seq<char>, SymInfo)>>, k: int)
    requires
        0 <= k <= dims.len(),
        forall|j: int| k <= j < dims.len() ==> ((#[trigger] spec_eval(dims[j].0, ss)) matches Some(n)
            && n >= 1),
    ensures
        spec_to_type(dims.skip(k), ss) is Ok,
    decreases dims.len() - k,
{
    if k == dims.len() {
        assert(dims.skip(k) =~= Seq::<ConstExp>::empty());
    } else {
        lemma_to_type_ok_suffix(dims, ss, k + 1);
        assert(dims.skip(k)[0] == dims[k]);
        assert(dims.skip(k).drop_first() =~= dims.skip(k + 1));
    }
}

/// A dimension that does not fold makes the whole list fail with
/// `FailedToEval`, and one folding to zero or below with
/// `InvalidArrayLen`, provided the dimensions inside it are sound —
/// the fold walks right to left, so the inner dimensions are seen
/// first.
pub proof fn lemma_to_type_bad_dim(dims: Seq<ConstExp>, ss: Seq<Seq<(Seq<char>, SymInfo)>>, i: int)
    requires
        0 <= i < dims.len(),
        forall|j: int| i < j < dims.len() ==> ((#[trigger] spec_eval(dims[j].0, ss)) matches Some(n)
            && n >= 1),
    ensures
        spec_eval(dims[i].0, ss) is None ==> spec_to_type(dims, ss) == Err::<Ty, Error>(
            Error::FailedToEval,
        ),
        (spec_eval(dims[i].0, ss) matches Some(n) && n < 1) ==> spec_to_type(dims, ss) == Err::<
            Ty,
            Error,
        >(Error::InvalidArrayLen),
{
    lemma_to_type_ok_suffix(dims, ss, i + 1);
    assert(dims.skip(i)[0] == dims[i]);
    assert(dims.skip(i).drop_first() =~= dims.skip(i + 1));
    if spec_eval(dims[i].0, ss) is None {
        lemma_to_type_err_propagates(dims, ss, i, Error::FailedToEval);
    } else if spec_eval(dims[i].0, ss) matches Some(n) && n < 1 {
        lemma_to_type_err_propagates(dims, ss, i, Error::InvalidArrayLen);
    }
}

} // verus!
