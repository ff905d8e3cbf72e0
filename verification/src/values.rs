use vstd::prelude::*;

use crate::ast::Exp;
use crate::ast::UnaryOp;
use crate::ast::BinaryOp;
use crate::error::Error;
use crate::eval::eval_list_from;
use crate::eval::index_const;
use crate::eval::spec_eval_list;
use crate::eval::spec_index_const;
use crate::ir::kp_binary;
use crate::ir::kp_call;
use crate::ir::kp_get_elem_ptr;
use crate::ir::kp_integer;
use crate::ir::kp_load;
use crate::ir::kp_make_bb;
use crate::ir::kp_place_bb;
use crate::ir::kp_push_inst;
use crate::scopes::lemma_scopes_find_wf;
use crate::scopes::scopes_find;
use crate::scopes::scopes_wf;
use crate::scopes::Scopes;
use crate::symbol::SymInfo;
use crate::symbol::Symbol;
use crate::types::Ty;

verus! {

/// What lowering an expression hands back: nothing for a void call, an
/// integer value, or a pointer to a slot together with the slot's type.
pub enum ExpVal {
    /// The absent result of a void call.
    Void,
    /// An integer rvalue.
    Int(koopa::ir::Value),
    /// A pointer to storage of the given type.
    Ptr(koopa::ir::Value, Ty),
}

impl ExpVal {
    /// The type this value has to the checker.
    pub open spec fn ty(self) -> Ty {
        match self {
            ExpVal::Void => Ty::Unit,
            ExpVal::Int(_) => Ty::I32,
            ExpVal::Ptr(_, t) => Ty::Pointer(Box::new(t)),
        }
    }
}

/// The verdict on using a value of type `t` where an integer is
/// needed: a void result may not be used at all, and an aggregate may
/// not enter arithmetic.
pub open spec fn int_use_err(t: Ty) -> Option<Error> {
    match t {
        Ty::I32 => None,
        Ty::Pointer(b) => match *b {
            Ty::I32 => None,
            _ => Some(Error::NonIntCalc),
        },
        Ty::Unit => Some(Error::UseVoidValue),
        _ => Some(Error::NonIntCalc),
    }
}

/// The verdict on passing a value of type `t` as a call argument:
/// parameters are integers, so an aggregate argument is an argument
/// mismatch, and a void result may not be used at all.
pub open spec fn arg_use_err(t: Ty) -> Option<Error> {
    match t {
        Ty::I32 => None,
        Ty::Pointer(b) => match *b {
            Ty::I32 => None,
            _ => Some(Error::ArgMismatch),
        },
        Ty::Unit => Some(Error::UseVoidValue),
        _ => Some(Error::ArgMismatch),
    }
}

/// The checker's walk along index expressions, down a variable of type
/// `t`: each index must be a sound integer expression and step into an
/// array layer; indexing into the plain integer is `DerefInt`. What
/// remains is addressed by pointer.
pub open spec fn spec_check_indices(idxs: Seq<Exp>, t: Ty, ss: Seq<Seq<(Seq<char>, SymInfo)>>) -> Result<Ty, Error>
    decreases idxs, idxs.len(),
{
    if idxs.len() == 0 {
        Ok(Ty::Pointer(Box::new(t)))
    } else {
        match spec_check_exp(idxs[0], ss) {
            Err(er) => Err(er),
            Ok(it) => match int_use_err(it) {
                Some(er) => Err(er),
                None => match t {
                    Ty::Array(elem, _) => spec_check_indices(idxs.drop_first(), *elem, ss),
                    _ => Err(Error::DerefInt),
                },
            },
        }
    }
}

/// The checker's walk over call arguments: each must be usable as an
/// integer argument; the first offending argument decides the error.
pub open spec fn spec_check_args(args: Seq<Exp>, ss: Seq<Seq<(Seq<char>, SymInfo)>>) -> Option<Error>
    decreases args, args.len(),
{
    if args.len() == 0 {
        None
    } else {
        match spec_check_exp(args[0], ss) {
            Err(er) => Some(er),
            Ok(t) => match arg_use_err(t) {
                Some(er) => Some(er),
                None => spec_check_args(args.drop_first(), ss),
            },
        }
    }
}

/// What checking an expression under the given scopes yields: the type
/// its lowered value has, or the first semantic error in it. A name
/// bound to a constant folds on the spot and must fold; a name bound
/// to a variable is addressed through its indices; a call must name a
/// function and match its parameter count, and only a function name
/// may be called.
pub open spec fn spec_check_exp(e: Exp, ss: Seq<Seq<(Seq<char>, SymInfo)>>) -> Result<Ty, Error>
    decreases e, 0nat,
{
    match e {
        Exp::Num(_) => Ok(Ty::I32),
        Exp::LVal(id, idxs) => match scopes_find(ss, id@) {
            None => Err(Error::SymbolNotFound),
            Some(SymInfo::Const(cm)) => match spec_eval_list(idxs@, ss) {
                Some(ivs) => match spec_index_const(cm, ivs) {
                    Some(_) => Ok(Ty::I32),
                    None => Err(Error::FailedToEval),
                },
                None => Err(Error::FailedToEval),
            },
            Some(SymInfo::Var(t)) => spec_check_indices(idxs@, t, ss),
            Some(SymInfo::Func(_)) => Err(Error::SymbolNotFound),
        },
        Exp::Unary(_, e1) => match spec_check_exp(*e1, ss) {
            Err(er) => Err(er),
            Ok(t) => match int_use_err(t) {
                Some(er) => Err(er),
                None => Ok(Ty::I32),
            },
        },
        Exp::Binary(_, l, r) => match spec_check_exp(*l, ss) {
            Err(er) => Err(er),
            Ok(tl) => match int_use_err(tl) {
                Some(er) => Err(er),
                None => match spec_check_exp(*r, ss) {
                    Err(er) => Err(er),
                    Ok(tr) => match int_use_err(tr) {
                        Some(er) => Err(er),
                        None => Ok(Ty::I32),
                    },
                },
            },
        },
        Exp::Call(id, args) => match scopes_find(ss, id@) {
            None => Err(Error::SymbolNotFound),
            Some(SymInfo::Func(ft)) => match ft {
                Ty::Function(nparams, ret) => if args@.len() != nparams {
                    Err(Error::ArgMismatch)
                } else {
                    match spec_check_args(args@, ss) {
                        Some(er) => Err(er),
                        None => Ok(if *ret == Ty::Unit {
                            Ty::Unit
                        } else {
                            Ty::I32
                        }),
                    }
                },
                _ => Err(Error::SymbolNotFound),
            },
            Some(_) => Err(Error::SymbolNotFound),
        },
    }
}

/// Checking an expression raises only resolution, evaluation and use
/// errors, never a duplicate definition.
pub proof fn lemma_check_exp_not_dup(e: Exp, ss: Seq<Seq<(Seq<char>, SymInfo)>>)
    ensures
        spec_check_exp(e, ss) != Err::<Ty, Error>(Error::DuplicatedDef),
    decreases e, 0nat,
{
    match e {
        Exp::LVal(id, idxs) => {
            lemma_check_indices_not_dup_all(idxs@, ss);
            match scopes_find(ss, id@) {
                Some(SymInfo::Var(t)) => {
                    assert(spec_check_indices(idxs@, t, ss) != Err::<Ty, Error>(
                        Error::DuplicatedDef,
                    ));
                }
                _ => {}
            }
        }
        Exp::Unary(_, e1) => {
            lemma_check_exp_not_dup(*e1, ss);
        }
        Exp::Binary(_, l, r) => {
            lemma_check_exp_not_dup(*l, ss);
            lemma_check_exp_not_dup(*r, ss);
        }
        Exp::Call(_, args) => {
            lemma_check_args_not_dup(args@, ss);
        }
        _ => {}
    }
}

/// The index walk raises no duplicate definition either, whatever the
/// walked type.
pub proof fn lemma_check_indices_not_dup_all(idxs: Seq<Exp>, ss: Seq<Seq<(Seq<char>, SymInfo)>>)
    ensures
        forall|t: Ty| #[trigger] spec_check_indices(idxs, t, ss) != Err::<Ty, Error>(
            Error::DuplicatedDef,
        ),
    decreases idxs, idxs.len(),
{
    if idxs.len() > 0 {
        lemma_check_exp_not_dup(idxs[0], ss);
        lemma_check_indices_not_dup_all(idxs.drop_first(), ss);
        assert forall|t: Ty| #[trigger] spec_check_indices(idxs, t, ss) != Err::<Ty, Error>(
            Error::DuplicatedDef,
        ) by {
            match t {
                Ty::Array(elem, _) => {
                    assert(spec_check_indices(idxs.drop_first(), *elem, ss) != Err::<Ty, Error>(
                        Error::DuplicatedDef,
                    ));
                }
                _ => {}
            }
        }
    }
}

/// Nor does the argument walk.
pub proof fn lemma_check_args_not_dup(args: Seq<Exp>, ss: Seq<Seq<(Seq<char>, SymInfo)>>)
    ensures
        spec_check_args(args, ss) != Some(Error::DuplicatedDef),
    decreases args, args.len(),
{
    if args.len() > 0 {
        lemma_check_exp_not_dup(args[0], ss);
        lemma_check_args_not_dup(args.drop_first(), ss);
    }
}

/// Appends an already created instruction value to the block under
/// construction.
fn push_cur(program: &mut koopa::ir::Program, scopes: &Scopes, inst: koopa::ir::Value)
    requires
        scopes.spec_cur() is Some,
{
    let c = scopes.cur_func().unwrap();
    kp_push_inst(program, c.func, c.cur_bb, inst);
}

/// Turns a lowered value into a plain integer value, loading it from
/// its slot if need be: the integer context of arithmetic, conditions,
/// indices and return values.
pub(crate) fn into_int(ev: ExpVal, program: &mut koopa::ir::Program, scopes: &Scopes) -> (r: Result<
    koopa::ir::Value,
    Error,
>)
    requires
        scopes.spec_cur() is Some,
    ensures
        match r {
            Ok(_) => int_use_err(ev.ty()) is None,
            Err(er) => int_use_err(ev.ty()) == Some(er),
        },
{
    match ev {
        ExpVal::Void => Err(Error::UseVoidValue),
        ExpVal::Int(v) => Ok(v),
        ExpVal::Ptr(p, t) => match t {
            Ty::I32 => {
                let c = scopes.cur_func().unwrap();
                let v = kp_load(program, c.func, p);
                push_cur(program, scopes, v);
                Ok(v)
            }
            _ => Err(Error::NonIntCalc),
        },
    }
}

/// Turns a lowered value into an integer argument value, loading it
/// from its slot if need be.
fn into_arg(ev: ExpVal, program: &mut koopa::ir::Program, scopes: &Scopes) -> (r: Result<
    koopa::ir::Value,
    Error,
>)
    requires
        scopes.spec_cur() is Some,
    ensures
        match r {
            Ok(_) => arg_use_err(ev.ty()) is None,
            Err(er) => arg_use_err(ev.ty()) == Some(er),
        },
{
    match ev {
        ExpVal::Void => Err(Error::UseVoidValue),
        ExpVal::Int(v) => Ok(v),
        ExpVal::Ptr(p, t) => match t {
            Ty::I32 => {
                let c = scopes.cur_func().unwrap();
                let v = kp_load(program, c.func, p);
                push_cur(program, scopes, v);
                Ok(v)
            }
            _ => Err(Error::ArgMismatch),
        },
    }
}

/// Lowers `e` inside the current function: emits the instructions it
/// needs into the block under construction and hands back its value,
/// or the first semantic error in it, exactly as the checker says.
pub(crate) fn generate_exp(e: &Exp, program: &mut koopa::ir::Program, scopes: &Scopes) -> (r: Result<
    ExpVal,
    Error,
>)
    requires
        scopes.spec_cur() is Some,
        scopes_wf(scopes@),
    ensures
        match r {
            Ok(ev) => spec_check_exp(*e, scopes@) == Ok::<Ty, Error>(ev.ty()),
            Err(er) => spec_check_exp(*e, scopes@) == Err::<Ty, Error>(er),
        },
        r matches Ok(ExpVal::Ptr(_, t)) ==> t.is_value_type(),
    decreases *e, 0nat,
{
    match e {
        Exp::Num(n) => {
            let c = scopes.cur_func().unwrap();
            Ok(ExpVal::Int(kp_integer(program, c.func, *n)))
        }
        Exp::LVal(id, idxs) => match scopes.lookup(id) {
            Err(_) => Err(Error::SymbolNotFound),
            Ok(sym) => match sym {
                Symbol::Const(cv) => {
                    proof {
                        assert(idxs@.skip(0) =~= idxs@);
                    }
                    match eval_list_from(idxs, 0, scopes) {
                        None => Err(Error::FailedToEval),
                        Some(ivs) => {
                            proof {
                                assert(ivs@.skip(0) =~= ivs@);
                            }
                            match index_const(cv, &ivs, 0) {
                                None => Err(Error::FailedToEval),
                                Some(n) => {
                                    let c = scopes.cur_func().unwrap();
                                    Ok(ExpVal::Int(kp_integer(program, c.func, n)))
                                }
                            }
                        }
                    }
                }
                Symbol::Var(base, ty) => {
                    proof {
                        lemma_scopes_find_wf(scopes@, id@);
                        assert(idxs@.skip(0) =~= idxs@);
                    }
                    let t = ty.copy();
                    let b = base.v;
                    lower_indices(idxs, 0, b, t, program, scopes)
                }
                Symbol::Func(_, _) => Err(Error::SymbolNotFound),
            },
        },
        Exp::Unary(op, e1) => match generate_exp(e1, program, scopes) {
            Err(er) => Err(er),
            Ok(ev) => match into_int(ev, program, scopes) {
                Err(er) => Err(er),
                Ok(v) => {
                    let c = scopes.cur_func().unwrap();
                    let zero = kp_integer(program, c.func, 0);
                    let inst = match op {
                        UnaryOp::Neg => kp_binary(program, c.func, BinaryOp::Sub, zero, v),
                        UnaryOp::Not => kp_binary(program, c.func, BinaryOp::Eq, v, zero),
                    };
                    push_cur(program, scopes, inst);
                    Ok(ExpVal::Int(inst))
                }
            },
        },
        Exp::Binary(op, l, r) => match generate_exp(l, program, scopes) {
            Err(er) => Err(er),
            Ok(lv) => match into_int(lv, program, scopes) {
                Err(er) => Err(er),
                Ok(a) => match generate_exp(r, program, scopes) {
                    Err(er) => Err(er),
                    Ok(rv) => match into_int(rv, program, scopes) {
                        Err(er) => Err(er),
                        Ok(b) => {
                            let c = scopes.cur_func().unwrap();
                            let inst = match op {
                                BinaryOp::And | BinaryOp::Or => {
                                    let zero = kp_integer(program, c.func, 0);
                                    let an = kp_binary(program, c.func, BinaryOp::Ne, a, zero);
                                    push_cur(program, scopes, an);
                                    let bn = kp_binary(program, c.func, BinaryOp::Ne, b, zero);
                                    push_cur(program, scopes, bn);
                                    kp_binary(program, c.func, *op, an, bn)
                                }
                                _ => kp_binary(program, c.func, *op, a, b),
                            };
                            push_cur(program, scopes, inst);
                            Ok(ExpVal::Int(inst))
                        }
                    },
                },
            },
        },
        Exp::Call(id, args) => match scopes.lookup(id) {
            Err(_) => Err(Error::SymbolNotFound),
            Ok(sym) => match sym {
                Symbol::Func(f, ft) => match ft {
                    Ty::Function(nparams, ret) => {
                        if args.len() != *nparams {
                            return Err(Error::ArgMismatch);
                        }
                        let callee = f.f;
                        let ret_unit = match &**ret {
                            Ty::Unit => true,
                            _ => false,
                        };
                        proof {
                            assert(args@.skip(0) =~= args@);
                        }
                        match lower_args(args, 0, program, scopes) {
                            Err(er) => Err(er),
                            Ok(vals) => {
                                let c = scopes.cur_func().unwrap();
                                let inst = kp_call(program, c.func, callee, vals);
                                push_cur(program, scopes, inst);
                                if ret_unit {
                                    Ok(ExpVal::Void)
                                } else {
                                    Ok(ExpVal::Int(inst))
                                }
                            }
                        }
                    }
                    _ => Err(Error::SymbolNotFound),
                },
                _ => Err(Error::SymbolNotFound),
            },
        },
    }
}

/// Addresses a variable of type `t` through the index expressions of
/// `idxs` from `pos` on, one `get_elem_ptr` per index.
pub(crate) fn lower_indices(
    idxs: &Vec<Exp>,
    pos: usize,
    base: koopa::ir::Value,
    t: Ty,
    program: &mut koopa::ir::Program,
    scopes: &Scopes,
) -> (r: Result<ExpVal, Error>)
    requires
        pos <= idxs@.len(),
        t.is_value_type(),
        scopes.spec_cur() is Some,
        scopes_wf(scopes@),
    ensures
        match r {
            Ok(ev) => spec_check_indices(idxs@.skip(pos as int), t, scopes@) == Ok::<Ty, Error>(
                ev.ty(),
            ),
            Err(er) => spec_check_indices(idxs@.skip(pos as int), t, scopes@) == Err::<Ty, Error>(
                er,
            ),
        },
        r matches Ok(ExpVal::Ptr(_, pt)) ==> pt.is_value_type(),
    decreases idxs@, idxs@.len() - pos,
{
    if pos == idxs.len() {
        proof {
            assert(idxs@.skip(pos as int) =~= Seq::<Exp>::empty());
        }
        Ok(ExpVal::Ptr(base, t))
    } else {
        proof {
            assert(idxs@.skip(pos as int)[0] == idxs@[pos as int]);
            assert(idxs@.skip(pos as int).drop_first() =~= idxs@.skip(pos + 1));
        }
        match generate_exp(&idxs[pos], program, scopes) {
            Err(er) => Err(er),
            Ok(ev) => match into_int(ev, program, scopes) {
                Err(er) => Err(er),
                Ok(iv) => match t {
                    Ty::Array(elem, _) => {
                        let c = scopes.cur_func().unwrap();
                        let ep = kp_get_elem_ptr(program, c.func, base, iv);
                        push_cur(program, scopes, ep);
                        lower_indices(idxs, pos + 1, ep, *elem, program, scopes)
                    }
                    _ => Err(Error::DerefInt),
                },
            },
        }
    }
}

/// Lowers the call arguments of `args` from `pos` on into integer
/// values, in order.
fn lower_args(
    args: &Vec<Exp>,
    pos: usize,
    program: &mut koopa::ir::Program,
    scopes: &Scopes,
) -> (r: Result<Vec<koopa::ir::Value>, Error>)
    requires
        pos <= args@.len(),
        scopes.spec_cur() is Some,
        scopes_wf(scopes@),
    ensures
        match r {
            Ok(_) => spec_check_args(args@.skip(pos as int), scopes@) is None,
            Err(er) => spec_check_args(args@.skip(pos as int), scopes@) == Some(er),
        },
    decreases args@, args@.len() - pos,
{
    if pos == args.len() {
        proof {
            assert(args@.skip(pos as int) =~= Seq::<Exp>::empty());
        }
        Ok(Vec::new())
    } else {
        proof {
            assert(args@.skip(pos as int)[0] == args@[pos as int]);
            assert(args@.skip(pos as int).drop_first() =~= args@.skip(pos + 1));
        }
        match generate_exp(&args[pos], program, scopes) {
            Err(er) => Err(er),
            Ok(ev) => match into_arg(ev, program, scopes) {
                Err(er) => Err(er),
                Ok(v) => match lower_args(args, pos + 1, program, scopes) {
                    Err(er) => Err(er),
                    Ok(rest) => {
                        let mut out = rest;
                        out.insert(0, v);
                        Ok(out)
                    }
                },
            },
        }
    }
}

/// Creates a fresh basic block in the given function and places it at
/// the end of the function's layout.
pub(crate) fn fresh_bb(program: &mut koopa::ir::Program, f: koopa::ir::Function) -> koopa::ir::BasicBlock {
    let bb = kp_make_bb(program, f);
    kp_place_bb(program, f, bb);
    bb
}

} // verus!
