use vstd::prelude::*;

use crate::ast::BinaryOp;
use crate::ast::Exp;
use crate::ast::UnaryOp;
use crate::scopes::lemma_lookup_shadows;
use crate::scopes::scope_find;
use crate::scopes::scopes_find;
use crate::scopes::Scopes;
use crate::symbol::cv_view;
use crate::symbol::lemma_cv_list_view;
use crate::symbol::ConstModel;
use crate::symbol::ConstVal;
use crate::symbol::SymInfo;
use crate::symbol::Symbol;

verus! {

/// What a unary operator yields on a folded operand, with 32-bit
/// wraparound semantics.
pub open spec fn spec_unary(op: UnaryOp, v: i32) -> i32 {
    match op {
        UnaryOp::Neg => (0i32).wrapping_sub(v),
        UnaryOp::Not => if v == 0 { 1 } else { 0 },
    }
}

/// What a binary operator yields on folded operands: 32-bit wraparound
/// arithmetic; a division or remainder without a representable result
/// does not fold; comparisons and logical operators yield zero or one.
pub open spec fn spec_binary(op: BinaryOp, a: i32, b: i32) -> Option<i32> {
    match op {
        BinaryOp::Add => Some(a.wrapping_add(b)),
        BinaryOp::Sub => Some(a.wrapping_sub(b)),
        BinaryOp::Mul => Some(a.wrapping_mul(b)),
        BinaryOp::Div => a.checked_div(b),
        BinaryOp::Mod => a.checked_rem(b),
        BinaryOp::Lt => Some(if a < b { 1 } else { 0 }),
        BinaryOp::Gt => Some(if a > b { 1 } else { 0 }),
        BinaryOp::Le => Some(if a <= b { 1 } else { 0 }),
        BinaryOp::Ge => Some(if a >= b { 1 } else { 0 }),
        BinaryOp::Eq => Some(if a == b { 1 } else { 0 }),
        BinaryOp::Ne => Some(if a != b { 1 } else { 0 }),
        BinaryOp::And => Some(if a != 0 && b != 0 { 1 } else { 0 }),
        BinaryOp::Or => Some(if a != 0 || b != 0 { 1 } else { 0 }),
    }
}

/// Indexing a folded constant: each index must step into an array layer
/// and be in range, and the walk must end at an integer; anything else
/// does not fold.
pub open spec fn spec_index_const(cm: ConstModel, idxs: Seq<i32>) -> Option<i32>
    decreases cm,
{
    if idxs.len() == 0 {
        match cm {
            ConstModel::Int(n) => Some(n),
            ConstModel::List(_) => None,
        }
    } else {
        match cm {
            ConstModel::Int(_) => None,
            ConstModel::List(elems) => {
                if 0 <= idxs[0] && (idxs[0] as int) < elems.len() {
                    spec_index_const(elems[idxs[0] as int], idxs.drop_first())
                } else {
                    None
                }
            }
        }
    }
}

/// What constant folding yields on an expression under the given
/// scopes: literals fold; an identifier folds only if bound to a
/// constant; arithmetic folds if every operand folds; a call never
/// folds. `None` is an absence, not an error.
pub open spec fn spec_eval(e: Exp, ss: Seq<Seq<(Seq<char>, SymInfo)>>) -> Option<i32>
    decreases e, 0nat,
{
    match e {
        Exp::Num(n) => Some(n),
        Exp::LVal(id, idxs) => match scopes_find(ss, id@) {
            Some(SymInfo::Const(cm)) => match spec_eval_list(idxs@, ss) {
                Some(ivs) => spec_index_const(cm, ivs),
                None => None,
            },
            _ => None,
        },
        Exp::Unary(op, e1) => match spec_eval(*e1, ss) {
            Some(v) => Some(spec_unary(op, v)),
            None => None,
        },
        Exp::Binary(op, l, r) => match (spec_eval(*l, ss), spec_eval(*r, ss)) {
            (Some(a), Some(b)) => spec_binary(op, a, b),
            _ => None,
        },
        Exp::Call(_, _) => None,
    }
}

/// Folding a list of expressions: all of them fold, in order, or the
/// list does not fold.
pub open spec fn spec_eval_list(es: Seq<Exp>, ss: Seq<Seq<(Seq<char>, SymInfo)>>) -> Option<Seq<i32>>
    decreases es, es.len(),
{
    if es.len() == 0 {
        Some(Seq::empty())
    } else {
        match (spec_eval(es[0], ss), spec_eval_list(es.drop_first(), ss)) {
            (Some(v), Some(rest)) => Some(seq![v] + rest),
            _ => None,
        }
    }
}

/// A use of a name resolves to the innermost binding: when the
/// innermost scope binds the name to an integer constant, an
/// unindexed use of the name folds to that constant, whatever any
/// enclosing scope — shadowed or not — binds it to.
pub proof fn lemma_shadowed_const_use(
    e: Exp,
    ss: Seq<Seq<(Seq<char>, SymInfo)>>,
    inner: Seq<(Seq<char>, SymInfo)>,
    n: i32,
)
    requires
        e matches Exp::LVal(id, idxs) && idxs@.len() == 0 && scope_find(inner, id@) == Some(
            SymInfo::Const(ConstModel::Int(n)),
        ),
    ensures
        spec_eval(e, ss.push(inner)) == Some(n),
{
    match e {
        Exp::LVal(id, idxs) => {
            lemma_lookup_shadows(ss, inner, id@, SymInfo::Const(ConstModel::Int(n)));
            assert(spec_eval_list(idxs@, ss.push(inner)) == Some(Seq::<i32>::empty()));
            assert(spec_index_const(ConstModel::Int(n), Seq::<i32>::empty()) == Some(n));
        }
        _ => {}
    }
}

/// Attempts compile-time folding of `e`: returns the folded integer, or
/// nothing for any expression that touches a runtime value. The caller
/// decides whether the absence is acceptable.
pub fn eval(e: &Exp, scopes: &Scopes) -> (r: Option<i32>)
    ensures
        r == spec_eval(*e, scopes@),
    decreases *e, 0nat,
{
    match e {
        Exp::Num(n) => Some(*n),
        Exp::LVal(id, idxs) => match scopes.lookup(id) {
            Ok(sym) => match sym {
                Symbol::Const(cv) => match eval_list_from(idxs, 0, scopes) {
                    Some(ivs) => {
                        proof {
                            assert(idxs@.skip(0) =~= idxs@);
                        }
                        let r = index_const(cv, &ivs, 0);
                        proof {
                            assert(ivs@.skip(0) =~= ivs@);
                        }
                        r
                    }
                    None => {
                        proof {
                            assert(idxs@.skip(0) =~= idxs@);
                        }
                        None
                    }
                },
                _ => None,
            },
            Err(_) => None,
        },
        Exp::Unary(op, e1) => match eval(e1, scopes) {
            Some(v) => Some(unary_fold(*op, v)),
            None => None,
        },
        Exp::Binary(op, l, r) => match eval(l, scopes) {
            Some(a) => match eval(r, scopes) {
                Some(b) => binary_fold(*op, a, b),
                None => None,
            },
            None => None,
        },
        Exp::Call(_, _) => None,
    }
}

/// Folds the expressions of `es` from position `pos` on, all or nothing.
pub(crate) fn eval_list_from(es: &Vec<Exp>, pos: usize, scopes: &Scopes) -> (r: Option<Vec<i32>>)
    requires
        pos <= es@.len(),
    ensures
        match r {
            Some(ivs) => spec_eval_list(es@.skip(pos as int), scopes@) == Some(ivs@),
            None => spec_eval_list(es@.skip(pos as int), scopes@) is None,
        },
    decreases es@, es@.len() - pos,
{
    if pos == es.len() {
        let r: Vec<i32> = Vec::new();
        proof {
            assert(es@.skip(pos as int) =~= Seq::<Exp>::empty());
            assert(r@ =~= Seq::<i32>::empty());
        }
        Some(r)
    } else {
        proof {
            assert(es@.skip(pos as int)[0] == es@[pos as int]);
            assert(es@.skip(pos as int).drop_first() =~= es@.skip(pos + 1));
        }
        match eval(&es[pos], scopes) {
            Some(v) => match eval_list_from(es, pos + 1, scopes) {
                Some(rest) => {
                    let ghost pre = rest@;
                    let mut out = rest;
                    out.insert(0, v);
                    proof {
                        assert(out@ =~= seq![v] + pre);
                    }
                    Some(out)
                }
                None => None,
            },
            None => None,
        }
    }
}

/// Walks a folded constant along the indices of `idxs` from `pos` on.
pub(crate) fn index_const(cv: &ConstVal, idxs: &Vec<i32>, pos: usize) -> (r: Option<i32>)
    requires
        pos <= idxs@.len(),
    ensures
        r == spec_index_const(cv_view(*cv), idxs@.skip(pos as int)),
    decreases *cv,
{
    if pos == idxs.len() {
        proof {
            assert(idxs@.skip(pos as int) =~= Seq::<i32>::empty());
        }
        match cv {
            ConstVal::Int(n) => Some(*n),
            ConstVal::List(_) => None,
        }
    } else {
        proof {
            assert(idxs@.skip(pos as int)[0] == idxs@[pos as int]);
            assert(idxs@.skip(pos as int).drop_first() =~= idxs@.skip(pos + 1));
        }
        match cv {
            ConstVal::Int(_) => None,
            ConstVal::List(elems) => {
                proof {
                    lemma_cv_list_view(elems@);
                }
                let k = idxs[pos];
                if 0 <= k && (k as usize) < elems.len() {
                    index_const(&elems[k as usize], idxs, pos + 1)
                } else {
                    None
                }
            }
        }
    }
}

/// Applies a unary operator to a folded operand.
fn unary_fold(op: UnaryOp, v: i32) -> (r: i32)
    ensures
        r == spec_unary(op, v),
{
    match op {
        UnaryOp::Neg => (0i32).wrapping_sub(v),
        UnaryOp::Not => if v == 0 { 1 } else { 0 },
    }
}

/// Applies a binary operator to folded operands.
fn binary_fold(op: BinaryOp, a: i32, b: i32) -> (r: Option<i32>)
    ensures
        r == spec_binary(op, a, b),
{
    match op {
        BinaryOp::Add => Some(a.wrapping_add(b)),
        BinaryOp::Sub => Some(a.wrapping_sub(b)),
        BinaryOp::Mul => Some(a.wrapping_mul(b)),
        BinaryOp::Div => a.checked_div(b),
        BinaryOp::Mod => a.checked_rem(b),
        BinaryOp::Lt => Some(if a < b { 1 } else { 0 }),
        BinaryOp::Gt => Some(if a > b { 1 } else { 0 }),
        BinaryOp::Le => Some(if a <= b { 1 } else { 0 }),
        BinaryOp::Ge => Some(if a >= b { 1 } else { 0 }),
        BinaryOp::Eq => Some(if a == b { 1 } else { 0 }),
        BinaryOp::Ne => Some(if a != b { 1 } else { 0 }),
        BinaryOp::And => Some(if a != 0 && b != 0 { 1 } else { 0 }),
        BinaryOp::Or => Some(if a != 0 || b != 0 { 1 } else { 0 }),
    }
}

} // verus!
