use vstd::prelude::*;

use crate::ast::InitVal;
use crate::error::Error;
use crate::eval::eval;
use crate::eval::spec_eval;
use crate::ir::kp_get_elem_ptr;
use crate::ir::kp_global_aggregate;
use crate::ir::kp_global_integer;
use crate::ir::kp_integer;
use crate::ir::kp_push_inst;
use crate::ir::kp_store;
use crate::scopes::Scopes;
use crate::symbol::cv_list_view;
use crate::symbol::cv_view;
use crate::symbol::lemma_cv_list_view;
use crate::symbol::ConstModel;
use crate::symbol::ConstVal;
use crate::symbol::SymInfo;
use crate::types::Ty;

verus! {

/// A folded constant that fits the machine: each array layer holds at
/// least one and fewer than two to the thirty-first elements, so an
/// element index always fits in an `i32`.
pub open spec fn cv_fits(cv: ConstVal) -> bool
    decreases cv,
{
    match cv {
        ConstVal::Int(_) => true,
        ConstVal::List(elems) => 1 <= elems@.len() && elems@.len() < 0x8000_0000 && (forall|i: int|
            0 <= i < elems@.len() ==> cv_fits(#[trigger] elems@[i])),
    }
}

/// A run of `n` zero constants of the element type.
pub open spec fn zero_elems(elem: Ty, n: nat) -> Seq<ConstModel>
    decreases elem, 1nat,
{
    Seq::new(n, |i: int| spec_zero_const(elem))
}

/// The all-zero constant of a type: zero for the scalar, an array of
/// zero elements for an array.
pub open spec fn spec_zero_const(t: Ty) -> ConstModel
    decreases t, 0nat,
{
    match t {
        Ty::Array(elem, n) => ConstModel::List(zero_elems(*elem, n as nat)),
        _ => ConstModel::Int(0),
    }
}

/// What folding an initializer against a declared type yields: a
/// scalar takes a single expression that must fold; an array of `n`
/// takes a list of at most `n` initializers, one per leading element,
/// the missing elements zero-filled; any other shape is
/// `InvalidInit`, and a leaf that does not fold is `FailedToEval`.
pub open spec fn spec_fold_init(t: Ty, init: InitVal, ss: Seq<Seq<(Seq<char>, SymInfo)>>) -> Result<
    ConstModel,
    Error,
>
    decreases init, 0nat,
{
    match init {
        InitVal::Single(e) => match t {
            Ty::I32 => match spec_eval(e, ss) {
                Some(n) => Ok(ConstModel::Int(n)),
                None => Err(Error::FailedToEval),
            },
            _ => Err(Error::InvalidInit),
        },
        InitVal::List(items) => match t {
            Ty::Array(elem, n) => if items@.len() > n {
                Err(Error::InvalidInit)
            } else {
                match spec_fold_items(*elem, items@, ss) {
                    Err(e) => Err(e),
                    Ok(folded) => Ok(ConstModel::List(
                        folded + zero_elems(*elem, (n - items@.len()) as nat),
                    )),
                }
            },
            _ => Err(Error::InvalidInit),
        },
    }
}

/// Folds each item of a list against the element type, in order.
pub open spec fn spec_fold_items(elem: Ty, items: Seq<InitVal>, ss: Seq<Seq<(Seq<char>, SymInfo)>>) -> Result<
    Seq<ConstModel>,
    Error,
>
    decreases items, items.len(),
{
    if items.len() == 0 {
        Ok(Seq::empty())
    } else {
        match spec_fold_init(elem, items[0], ss) {
            Err(e) => Err(e),
            Ok(cm) => match spec_fold_items(elem, items.drop_first(), ss) {
                Err(e) => Err(e),
                Ok(rest) => Ok(seq![cm] + rest),
            },
        }
    }
}

/// Folding an initializer raises only evaluation and shape errors,
/// never a duplicate definition.
pub proof fn lemma_fold_init_not_dup(t: Ty, init: InitVal, ss: Seq<Seq<(Seq<char>, SymInfo)>>)
    ensures
        spec_fold_init(t, init, ss) != Err::<ConstModel, Error>(Error::DuplicatedDef),
    decreases init, 0nat,
{
    match init {
        InitVal::List(items) => match t {
            Ty::Array(elem, _) => {
                lemma_fold_items_not_dup(*elem, items@, ss);
            }
            _ => {}
        },
        _ => {}
    }
}

/// Nor does folding the items of a list.
pub proof fn lemma_fold_items_not_dup(elem: Ty, items: Seq<InitVal>, ss: Seq<Seq<(Seq<char>, SymInfo)>>)
    ensures
        spec_fold_items(elem, items, ss) != Err::<Seq<ConstModel>, Error>(Error::DuplicatedDef),
    decreases items, items.len(),
{
    if items.len() > 0 {
        lemma_fold_init_not_dup(elem, items[0], ss);
        lemma_fold_items_not_dup(elem, items.drop_first(), ss);
    }
}

/// Builds the all-zero constant of a memory type.
fn zero_const(t: &Ty) -> (r: ConstVal)
    requires
        t.is_value_type(),
    ensures
        cv_view(r) == spec_zero_const(*t),
        cv_fits(r),
    decreases *t,
{
    match t {
        Ty::Array(elem, n) => {
            let mut elems: Vec<ConstVal> = Vec::new();
            let mut i: usize = 0;
            while i < *n
                invariant
                    i <= *n,
                    t.is_value_type(),
                    *t == Ty::Array(*elem, *n),
                    elems@.len() == i as int,
                    forall|j: int| 0 <= j < i as int ==> cv_view(#[trigger] elems@[j])
                        == spec_zero_const(**elem) && cv_fits(elems@[j]),
                decreases *n - i,
            {
                elems.push(zero_const(elem));
                i = i + 1;
            }
            proof {
                lemma_cv_list_view(elems@);
                assert(cv_list_view(elems@) =~= zero_elems(**elem, *n as nat));
            }
            ConstVal::List(elems)
        }
        _ => ConstVal::Int(0),
    }
}

/// Folds an initializer against a declared memory type.
pub fn fold_init(t: &Ty, init: &InitVal, scopes: &Scopes) -> (r: Result<ConstVal, Error>)
    requires
        t.is_value_type(),
    ensures
        match r {
            Ok(cv) => spec_fold_init(*t, *init, scopes@) == Ok::<ConstModel, Error>(cv_view(cv))
                && cv_fits(cv),
            Err(er) => spec_fold_init(*t, *init, scopes@) == Err::<ConstModel, Error>(er),
        },
    decreases *init, 0nat,
{
    match init {
        InitVal::Single(e) => match t {
            Ty::I32 => match eval(e, scopes) {
                Some(n) => Ok(ConstVal::Int(n)),
                None => Err(Error::FailedToEval),
            },
            _ => Err(Error::InvalidInit),
        },
        InitVal::List(items) => match t {
            Ty::Array(elem, n) => {
                if items.len() > *n {
                    return Err(Error::InvalidInit);
                }
                proof {
                    assert(items@.skip(0) =~= items@);
                }
                match fold_items_from(elem, items, 0, scopes) {
                    Err(e) => Err(e),
                    Ok(folded) => {
                        let ghost fview = cv_list_view(folded@);
                        let mut out = folded;
                        let mut i: usize = out.len();
                        proof {
                            lemma_cv_list_view(out@);
                        }
                        while i < *n
                            invariant
                                items@.len() <= i <= *n,
                                t.is_value_type(),
                                *t == Ty::Array(*elem, *n),
                                out@.len() == i as int,
                                items@.len() == fview.len(),
                                cv_list_view(out@) =~= fview + zero_elems(
                                    **elem,
                                    (i - items@.len()) as nat,
                                ),
                                forall|j: int| 0 <= j < i as int ==> cv_fits(#[trigger] out@[j]),
                            decreases *n - i,
                        {
                            let ghost pre = out@;
                            let z = zero_const(elem);
                            out.push(z);
                            proof {
                                lemma_cv_list_view(out@);
                                lemma_cv_list_view(pre);
                                let target = fview + zero_elems(**elem, (i + 1 - items@.len()) as nat);
                                assert forall|j: int| 0 <= j < out@.len() implies #[trigger] cv_list_view(
                                    out@,
                                )[j] == target[j] by {
                                    if j < i as int {
                                        assert(out@[j] == pre[j]);
                                        assert(cv_list_view(pre)[j] == cv_view(pre[j]));
                                    }
                                }
                                assert(cv_list_view(out@) =~= target);
                            }
                            i = i + 1;
                        }
                        proof {
                            assert(cv_list_view(out@) =~= fview + zero_elems(
                                **elem,
                                (*n - items@.len()) as nat,
                            ));
                        }
                        Ok(ConstVal::List(out))
                    }
                }
            }
            _ => Err(Error::InvalidInit),
        },
    }
}

/// Folds the items of a list initializer from `pos` on against the
/// element type, keeping `cv_fits` and the order of the items.
fn fold_items_from(elem: &Ty, items: &Vec<InitVal>, pos: usize, scopes: &Scopes) -> (r: Result<
    Vec<ConstVal>,
    Error,
>)
    requires
        pos <= items@.len(),
        elem.is_value_type(),
    ensures
        match r {
            Ok(cvs) => spec_fold_items(*elem, items@.skip(pos as int), scopes@) == Ok::<
                Seq<ConstModel>,
                Error,
            >(cv_list_view(cvs@)) && cvs@.len() == items@.len() - pos && (forall|j: int|
                0 <= j < cvs@.len() ==> cv_fits(#[trigger] cvs@[j])),
            Err(er) => spec_fold_items(*elem, items@.skip(pos as int), scopes@) == Err::<
                Seq<ConstModel>,
                Error,
            >(er),
        },
    decreases items@, items@.len() - pos,
{
    if pos == items.len() {
        let r: Vec<ConstVal> = Vec::new();
        proof {
            assert(items@.skip(pos as int) =~= Seq::<InitVal>::empty());
            assert(cv_list_view(r@) =~= Seq::<ConstModel>::empty());
        }
        Ok(r)
    } else {
        proof {
            assert(items@.skip(pos as int)[0] == items@[pos as int]);
            assert(items@.skip(pos as int).drop_first() =~= items@.skip(pos + 1));
        }
        match fold_init(elem, &items[pos], scopes) {
            Err(e) => Err(e),
            Ok(cv) => match fold_items_from(elem, items, pos + 1, scopes) {
                Err(e) => Err(e),
                Ok(rest) => {
                    let ghost rpre = rest@;
                    let ghost rview = cv_list_view(rest@);
                    let mut out = rest;
                    out.insert(0, cv);
                    proof {
                        assert(out@ =~= seq![cv] + rpre);
                        lemma_cv_list_view(out@);
                        lemma_cv_list_view(rpre);
                        assert(cv_list_view(out@) =~= seq![cv_view(cv)] + rview);
                    }
                    Ok(out)
                }
            },
        }
    }
}

/// Emits stores writing a folded constant into the slot `dest`, one
/// store per scalar element, inside the current function.
pub(crate) fn store_const(
    cv: &ConstVal,
    dest: koopa::ir::Value,
    program: &mut koopa::ir::Program,
    scopes: &Scopes,
)
    requires
        scopes.spec_cur() is Some,
        cv_fits(*cv),
    decreases *cv,
{
    let c = scopes.cur_func().unwrap();
    match cv {
        ConstVal::Int(n) => {
            let v = kp_integer(program, c.func, *n);
            let st = kp_store(program, c.func, v, dest);
            kp_push_inst(program, c.func, c.cur_bb, st);
        }
        ConstVal::List(elems) => {
            let mut i: usize = 0;
            while i < elems.len()
                invariant
                    i <= elems@.len(),
                    cv_fits(*cv),
                    *cv == ConstVal::List(*elems),
                    scopes.spec_cur() is Some,
                decreases elems@.len() - i,
            {
                let c2 = scopes.cur_func().unwrap();
                let iv = kp_integer(program, c2.func, i as i32);
                let ep = kp_get_elem_ptr(program, c2.func, dest, iv);
                kp_push_inst(program, c2.func, c2.cur_bb, ep);
                store_const(&elems[i], ep, program, scopes);
                i = i + 1;
            }
        }
    }
}

/// Builds the program-level constant value a folded constant denotes:
/// an integer, or an aggregate of the elements.
pub(crate) fn global_const_value(
    cv: &ConstVal,
    program: &mut koopa::ir::Program,
) -> koopa::ir::Value
    requires
        cv_fits(*cv),
    decreases *cv,
{
    match cv {
        ConstVal::Int(n) => kp_global_integer(program, *n),
        ConstVal::List(elems) => {
            let mut vals: Vec<koopa::ir::Value> = Vec::new();
            let mut i: usize = 0;
            while i < elems.len()
                invariant
                    i <= elems@.len(),
                    cv_fits(*cv),
                    *cv == ConstVal::List(*elems),
                    vals@.len() == i as int,
                decreases elems@.len() - i,
            {
                let v = global_const_value(&elems[i], program);
                vals.push(v);
                i = i + 1;
            }
            kp_global_aggregate(program, vals)
        }
    }
}

} // verus!
