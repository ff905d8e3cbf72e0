use vstd::prelude::*;

use crate::ast::Block;
use crate::ast::BlockItem;
use crate::ast::Decl;
use crate::ast::Exp;
use crate::ast::InitVal;
use crate::ast::Stmt;
use crate::error::Error;
use crate::init::fold_init;
use crate::init::spec_fold_init;
use crate::init::store_const;
use crate::ir::kp_branch;
use crate::ir::kp_integer;
use crate::ir::kp_jump;
use crate::ir::kp_push_inst;
use crate::ir::kp_ret;
use crate::ir::kp_store;
use crate::scopes::lemma_define_keeps_wf;
use crate::scopes::lemma_enter_keeps_wf;
use crate::scopes::lemma_scope_has_names;
use crate::scopes::lemma_scopes_find_wf;
use crate::scopes::scope_has;
use crate::scopes::scope_names;
use crate::scopes::scopes_find;
use crate::scopes::scopes_wf;
use crate::scopes::LoopCtx;
use crate::scopes::Scopes;
use crate::symbol::SymInfo;
use crate::symbol::Symbol;
use crate::types::spec_to_type;
use crate::types::to_type;
use crate::types::Ty;
use crate::values::fresh_bb;
use crate::values::generate_exp;
use crate::values::int_use_err;
use crate::values::into_int;
use crate::values::lower_indices;
use crate::values::spec_check_exp;
use crate::values::spec_check_indices;
use crate::values::ExpVal;

verus! {

/// The name a declaration binds.
pub open spec fn decl_name(d: Decl) -> Seq<char> {
    match d {
        Decl::Const(cd) => cd.id@,
        Decl::Var(vd) => vd.id@,
    }
}

/// No name occurs twice in the sequence.
pub open spec fn distinct_names(names: Seq<Seq<char>>) -> bool {
    forall|i: int, j: int| 0 <= i < j < names.len() ==> names[i] != names[j]
}

/// The names the declarations among a block's items bind, in order.
pub open spec fn items_decl_names(items: Seq<BlockItem>) -> Seq<Seq<char>>
    decreases items,
{
    if items.len() == 0 {
        Seq::empty()
    } else {
        (match items[0] {
            BlockItem::Decl(d) => seq![decl_name(d)],
            BlockItem::Stmt(_) => Seq::empty(),
        }) + items_decl_names(items.drop_first())
    }
}

/// Within every single scope of the statement, no identifier is
/// declared twice.
pub open spec fn stmt_dup_free(s: Stmt) -> bool
    decreases s,
{
    match s {
        Stmt::Block(b) => block_dup_free(b),
        Stmt::If(_, t, e) => stmt_dup_free(*t) && (match e {
            Some(es) => stmt_dup_free(*es),
            None => true,
        }),
        Stmt::While(_, b) => stmt_dup_free(*b),
        _ => true,
    }
}

/// Within every single scope of the block, no identifier is declared
/// twice: its own declarations are pairwise distinct, and so are the
/// scopes of the statements inside it.
pub open spec fn block_dup_free(b: Block) -> bool
    decreases b,
{
    distinct_names(items_decl_names(b.items@)) && items_stmts_dup_free(b.items@)
}

/// Every statement among the items keeps its scopes duplicate-free.
pub open spec fn items_stmts_dup_free(items: Seq<BlockItem>) -> bool
    decreases items,
{
    if items.len() == 0 {
        true
    } else {
        (match items[0] {
            BlockItem::Stmt(s) => stmt_dup_free(s),
            BlockItem::Decl(_) => true,
        }) && items_stmts_dup_free(items.drop_first())
    }
}

/// Checking a declaration raises only type, evaluation, shape and use
/// errors, never a duplicate definition.
pub proof fn lemma_local_decl_not_dup(d: Decl, ss: Seq<Seq<(Seq<char>, SymInfo)>>)
    ensures
        spec_local_decl(d, ss) != Err::<SymInfo, Error>(Error::DuplicatedDef),
{
    match d {
        Decl::Const(cd) => {
            crate::types::lemma_to_type_not_dup(cd.dims@, ss);
            match spec_to_type(cd.dims@, ss) {
                Ok(t) => {
                    crate::init::lemma_fold_init_not_dup(t, cd.init, ss);
                }
                _ => {}
            }
        }
        Decl::Var(vd) => {
            crate::types::lemma_to_type_not_dup(vd.dims@, ss);
            match spec_to_type(vd.dims@, ss) {
                Ok(t) => match vd.init {
                    Some(InitVal::Single(e)) => {
                        crate::values::lemma_check_exp_not_dup(e, ss);
                    }
                    Some(iv) => {
                        crate::init::lemma_fold_init_not_dup(t, iv, ss);
                    }
                    None => {}
                },
                _ => {}
            }
        }
    }
}

/// What checking a declaration in a function body yields, duplicates
/// aside: the symbol it binds, or its first error. A constant folds
/// its whole initializer; a scalar variable may take any sound integer
/// expression; an array variable folds its initializer list.
pub open spec fn spec_local_decl(d: Decl, ss: Seq<Seq<(Seq<char>, SymInfo)>>) -> Result<SymInfo, Error> {
    match d {
        Decl::Const(cd) => match spec_to_type(cd.dims@, ss) {
            Err(e) => Err(e),
            Ok(t) => match spec_fold_init(t, cd.init, ss) {
                Err(e) => Err(e),
                Ok(cm) => Ok(SymInfo::Const(cm)),
            },
        },
        Decl::Var(vd) => match spec_to_type(vd.dims@, ss) {
            Err(e) => Err(e),
            Ok(t) => match vd.init {
                None => Ok(SymInfo::Var(t)),
                Some(iv) => match iv {
                    InitVal::Single(e) => match t {
                        Ty::I32 => match spec_check_exp(e, ss) {
                            Err(er) => Err(er),
                            Ok(et) => match int_use_err(et) {
                                Some(er) => Err(er),
                                None => Ok(SymInfo::Var(t)),
                            },
                        },
                        _ => Err(Error::InvalidInit),
                    },
                    InitVal::List(_) => match t {
                        Ty::I32 => Err(Error::InvalidInit),
                        _ => match spec_fold_init(t, iv, ss) {
                            Err(er) => Err(er),
                            Ok(_) => Ok(SymInfo::Var(t)),
                        },
                    },
                },
            },
        },
    }
}

/// What checking an assignment yields: the target must resolve to a
/// variable, its indices must address a plain integer slot — a whole
/// array is no assignment target — and the assigned expression must be
/// a sound integer.
pub open spec fn spec_assign_err(
    id: Seq<char>,
    idxs: Seq<Exp>,
    rhs: Exp,
    ss: Seq<Seq<(Seq<char>, SymInfo)>>,
) -> Option<Error> {
    match scopes_find(ss, id) {
        None => Some(Error::SymbolNotFound),
        Some(SymInfo::Var(t)) => match spec_check_indices(idxs, t, ss) {
            Err(er) => Some(er),
            Ok(pt) => match pt {
                Ty::Pointer(b) => match *b {
                    Ty::I32 => match spec_check_exp(rhs, ss) {
                        Err(er) => Some(er),
                        Ok(rt) => int_use_err(rt),
                    },
                    _ => Some(Error::ArrayAssign),
                },
                _ => Some(Error::ArrayAssign),
            },
        },
        Some(_) => Some(Error::SymbolNotFound),
    }
}

/// What lowering a leaf statement returns: `break` and `continue`
/// demand a surrounding loop; a valued `return` demands a non-void
/// function and a sound integer; an assignment and an expression
/// statement follow their checks. Composite statements carry no single
/// verdict here.
pub open spec fn spec_stmt_result(
    stmt: Stmt,
    ss: Seq<Seq<(Seq<char>, SymInfo)>>,
    loops_empty: bool,
    ret_void: bool,
) -> Option<Result<(), Error>> {
    match stmt {
        Stmt::Break => Some(if loops_empty {
            Err(Error::NotInLoop)
        } else {
            Ok(())
        }),
        Stmt::Continue => Some(if loops_empty {
            Err(Error::NotInLoop)
        } else {
            Ok(())
        }),
        Stmt::Return(oe) => match oe {
            None => Some(Ok(())),
            Some(e) => Some(if ret_void {
                Err(Error::RetValInVoidFunc)
            } else {
                match spec_check_exp(e, ss) {
                    Err(er) => Err(er),
                    Ok(t) => match int_use_err(t) {
                        Some(er) => Err(er),
                        None => Ok(()),
                    },
                }
            }),
        },
        Stmt::Assign(id, idxs, rhs) => Some(match spec_assign_err(id@, idxs@, rhs, ss) {
            Some(er) => Err(er),
            None => Ok(()),
        }),
        Stmt::Exp(oe) => match oe {
            None => Some(Ok(())),
            Some(e) => Some(match spec_check_exp(e, ss) {
                Err(er) => Err(er),
                Ok(_) => Ok(()),
            }),
        },
        _ => None,
    }
}

/// The verdict on an expression required to be a sound integer: its
/// own first error, or the verdict on using its type as an integer.
pub open spec fn int_exp_err(e: Exp, ss: Seq<Seq<(Seq<char>, SymInfo)>>) -> Option<Error> {
    match spec_check_exp(e, ss) {
        Err(er) => Some(er),
        Ok(t) => int_use_err(t),
    }
}

/// What lowering a statement raises, walked exactly as the generator
/// walks it: the condition of an `if` or `while` first, then every
/// branch or the body; a block runs its items in a fresh scope; the
/// leaf statements answer as `spec_stmt_result` says. `in_loop` tells
/// whether any loop surrounds the statement.
pub open spec fn spec_run_stmt(s: Stmt, ss: Seq<Seq<(Seq<char>, SymInfo)>>, in_loop: bool, ret_void: bool) -> Option<
    Error,
>
    decreases s, 0nat,
{
    match s {
        Stmt::Block(b) => match spec_run_items(
            b.items@,
            ss.push(Seq::<(Seq<char>, SymInfo)>::empty()),
            in_loop,
            ret_void,
        ) {
            Ok(_) => None,
            Err(e) => Some(e),
        },
        Stmt::If(c, t, e) => match int_exp_err(c, ss) {
            Some(er) => Some(er),
            None => match spec_run_stmt(*t, ss, in_loop, ret_void) {
                Some(er) => Some(er),
                None => match e {
                    Some(es) => spec_run_stmt(*es, ss, in_loop, ret_void),
                    None => None,
                },
            },
        },
        Stmt::While(c, b) => match int_exp_err(c, ss) {
            Some(er) => Some(er),
            None => spec_run_stmt(*b, ss, true, ret_void),
        },
        _ => match spec_stmt_result(s, ss, !in_loop, ret_void) {
            Some(Err(e)) => Some(e),
            _ => None,
        },
    }
}

/// What lowering a block's items yields, in order: a declaration must
/// not duplicate a name of the innermost scope and then extends it
/// with its symbol; a statement leaves the scopes as they were. The
/// scopes after the whole run come back with the first error, if any.
pub open spec fn spec_run_items(
    items: Seq<BlockItem>,
    ss: Seq<Seq<(Seq<char>, SymInfo)>>,
    in_loop: bool,
    ret_void: bool,
) -> Result<Seq<Seq<(Seq<char>, SymInfo)>>, Error>
    decreases items, items.len(),
{
    if items.len() == 0 {
        Ok(ss)
    } else {
        match items[0] {
            BlockItem::Decl(d) => if scope_has(ss.last(), decl_name(d)) {
                Err(Error::DuplicatedDef)
            } else {
                match spec_local_decl(d, ss) {
                    Err(e) => Err(e),
                    Ok(si) => spec_run_items(
                        items.drop_first(),
                        ss.update(ss.len() - 1, ss.last().push((decl_name(d), si))),
                        in_loop,
                        ret_void,
                    ),
                }
            },
            BlockItem::Stmt(s) => match spec_run_stmt(s, ss, in_loop, ret_void) {
                Some(e) => Err(e),
                None => spec_run_items(items.drop_first(), ss, in_loop, ret_void),
            },
        }
    }
}

/// With the loop-context stack empty, `break` and `continue` always
/// fail with `NotInLoop`; under any surrounding loop they always
/// succeed — and by the contract of `current_loop` they take the
/// innermost loop's blocks.
pub proof fn lemma_break_continue_law(ss: Seq<Seq<(Seq<char>, SymInfo)>>, ret_void: bool)
    ensures
        spec_stmt_result(Stmt::Break, ss, true, ret_void) == Some(Err::<(), Error>(Error::NotInLoop)),
        spec_stmt_result(Stmt::Continue, ss, true, ret_void) == Some(Err::<(), Error>(Error::NotInLoop)),
        spec_stmt_result(Stmt::Break, ss, false, ret_void) == Some(Ok::<(), Error>(())),
        spec_stmt_result(Stmt::Continue, ss, false, ret_void) == Some(Ok::<(), Error>(())),
{
}

/// Returning a value from a function declared void always fails with
/// `RetValInVoidFunc`; returning no value from such a function always
/// succeeds.
pub proof fn lemma_return_in_void_law(e: Exp, ss: Seq<Seq<(Seq<char>, SymInfo)>>, loops_empty: bool)
    ensures
        spec_stmt_result(Stmt::Return(Some(e)), ss, loops_empty, true) == Some(Err::<(), Error>(
            Error::RetValInVoidFunc,
        )),
        spec_stmt_result(Stmt::Return(None), ss, loops_empty, true) == Some(Ok::<(), Error>(())),
{
}

/// A duplicate-free statement never runs into `DuplicatedDef`: every
/// block it opens starts a fresh scope, whose declarations are
/// pairwise distinct.
pub proof fn lemma_run_stmt_no_dup(s: Stmt, ss: Seq<Seq<(Seq<char>, SymInfo)>>, in_loop: bool, ret_void: bool)
    requires
        stmt_dup_free(s),
    ensures
        spec_run_stmt(s, ss, in_loop, ret_void) != Some(Error::DuplicatedDef),
    decreases s, 0nat,
{
    match &s {
        Stmt::Block(b) => {
            let inner = ss.push(Seq::<(Seq<char>, SymInfo)>::empty());
            assert(block_dup_free(*b));
            assert(distinct_names(items_decl_names(b.items@)));
            assert(items_stmts_dup_free(b.items@));
            assert(scope_names(inner.last()) =~= Seq::<Seq<char>>::empty());
            assert(scope_names(inner.last()) + items_decl_names(b.items@) =~= items_decl_names(
                b.items@,
            ));
            lemma_run_items_no_dup(b.items@, inner, in_loop, ret_void);
        }
        Stmt::If(c, t, e) => {
            crate::values::lemma_check_exp_not_dup(*c, ss);
            lemma_run_stmt_no_dup(**t, ss, in_loop, ret_void);
            match e {
                Some(es) => {
                    lemma_run_stmt_no_dup(**es, ss, in_loop, ret_void);
                }
                None => {}
            }
        }
        Stmt::While(c, b) => {
            crate::values::lemma_check_exp_not_dup(*c, ss);
            lemma_run_stmt_no_dup(**b, ss, true, ret_void);
        }
        Stmt::Assign(id, idxs, rhs) => {
            crate::values::lemma_check_indices_not_dup_all(idxs@, ss);
            crate::values::lemma_check_exp_not_dup(*rhs, ss);
        }
        Stmt::Return(oe) => match oe {
            Some(e) => {
                crate::values::lemma_check_exp_not_dup(*e, ss);
            }
            None => {}
        },
        Stmt::Exp(oe) => match oe {
            Some(e) => {
                crate::values::lemma_check_exp_not_dup(*e, ss);
            }
            None => {}
        },
        _ => {}
    }
}

/// Running duplicate-free items over a scope stack whose innermost
/// names stay clear of the items' declarations never raises
/// `DuplicatedDef`.
pub proof fn lemma_run_items_no_dup(
    items: Seq<BlockItem>,
    ss: Seq<Seq<(Seq<char>, SymInfo)>>,
    in_loop: bool,
    ret_void: bool,
)
    requires
        distinct_names(scope_names(ss.last()) + items_decl_names(items)),
        items_stmts_dup_free(items),
        ss.len() >= 1,
    ensures
        spec_run_items(items, ss, in_loop, ret_void) != Err::<
            Seq<Seq<(Seq<char>, SymInfo)>>,
            Error,
        >(Error::DuplicatedDef),
    decreases items, items.len(),
{
    if items.len() > 0 {
        let names0 = scope_names(ss.last());
        let decls = items_decl_names(items);
        match items[0] {
            BlockItem::Decl(d) => {
                lemma_scope_has_names(ss.last(), decl_name(d));
                if scope_has(ss.last(), decl_name(d)) {
                    let k = choose|k: int| 0 <= k < names0.len() && names0[k] == decl_name(d);
                    assert((names0 + decls)[k] == decl_name(d));
                    assert(decls[0] == decl_name(d));
                    assert((names0 + decls)[names0.len() as int] == decl_name(d));
                    assert(!distinct_names(names0 + decls));
                } else {
                    lemma_local_decl_not_dup(d, ss);
                    match spec_local_decl(d, ss) {
                        Ok(si) => {
                            let ss1 = ss.update(ss.len() - 1, ss.last().push((decl_name(d), si)));
                            assert(scope_names(ss1.last()) =~= names0.push(decl_name(d)));
                            assert(names0.push(decl_name(d)) + items_decl_names(items.drop_first())
                                =~= names0 + decls);
                            lemma_run_items_no_dup(items.drop_first(), ss1, in_loop, ret_void);
                        }
                        _ => {}
                    }
                }
            }
            BlockItem::Stmt(st) => {
                lemma_run_stmt_no_dup(st, ss, in_loop, ret_void);
                assert(decls =~= items_decl_names(items.drop_first()));
                lemma_run_items_no_dup(items.drop_first(), ss, in_loop, ret_void);
            }
        }
    }
}

/// The function under lowering stays the same function, though the
/// block under construction may move.
pub(crate) open spec fn same_func(a: Scopes, b: Scopes) -> bool {
    match (a.spec_cur(), b.spec_cur()) {
        (Some(x), Some(y)) => x.func == y.func && x.ret_void == y.ret_void,
        _ => false,
    }
}

/// Binds a variable symbol in the innermost scope; the caller has
/// ruled a duplicate out.
pub(crate) fn bind_var(scopes: &mut Scopes, id: &String, slot: koopa::ir::Value, t: Ty)
    requires
        old(scopes)@.len() >= 1,
        !scope_has(old(scopes)@.last(), id@),
        t.is_value_type(),
        scopes_wf(old(scopes)@),
    ensures
        final(scopes)@ == old(scopes)@.update(
            old(scopes)@.len() - 1,
            old(scopes)@.last().push((id@, SymInfo::Var(t))),
        ),
        scopes_wf(final(scopes)@),
        final(scopes).spec_loops() == old(scopes).spec_loops(),
        final(scopes).spec_cur() == old(scopes).spec_cur(),
{
    proof {
        lemma_define_keeps_wf(scopes@, (id@, SymInfo::Var(t)));
    }
    match scopes.define(id.clone(), Symbol::Var(crate::symbol::ValueHandle { v: slot }, t)) {
        Ok(()) => {}
        Err(_) => {
            proof {
                assert(false);
            }
        }
    }
}

/// Binds a constant symbol in the innermost scope; the caller has
/// ruled a duplicate out.
pub(crate) fn bind_const(scopes: &mut Scopes, id: &String, cv: crate::symbol::ConstVal)
    requires
        old(scopes)@.len() >= 1,
        !scope_has(old(scopes)@.last(), id@),
        scopes_wf(old(scopes)@),
    ensures
        final(scopes)@ == old(scopes)@.update(
            old(scopes)@.len() - 1,
            old(scopes)@.last().push((id@, SymInfo::Const(crate::symbol::cv_view(cv)))),
        ),
        scopes_wf(final(scopes)@),
        final(scopes).spec_loops() == old(scopes).spec_loops(),
        final(scopes).spec_cur() == old(scopes).spec_cur(),
{
    proof {
        lemma_define_keeps_wf(scopes@, (id@, Symbol::Const(cv).info()));
    }
    match scopes.define(id.clone(), Symbol::Const(cv)) {
        Ok(()) => {}
        Err(_) => {
            proof {
                assert(false);
            }
        }
    }
}

/// Lowers one declaration inside a function body: rejects a duplicate
/// name in the innermost scope first, then builds the type, folds or
/// lowers the initializer, and binds the symbol. A variable gets a
/// slot in the current function, its initializer stored into it.
pub(crate) fn lower_local_decl(d: &Decl, program: &mut koopa::ir::Program, scopes: &mut Scopes) -> (r: Result<
    (),
    Error,
>)
    requires
        old(scopes)@.len() >= 1,
        old(scopes).spec_cur() is Some,
        scopes_wf(old(scopes)@),
    ensures
        final(scopes)@.len() == old(scopes)@.len(),
        forall|k: int| 0 <= k < old(scopes)@.len() - 1 ==> final(scopes)@[k] == old(scopes)@[k],
        final(scopes).spec_loops() == old(scopes).spec_loops(),
        final(scopes).spec_cur() == old(scopes).spec_cur(),
        scopes_wf(final(scopes)@),
        match r {
            Ok(()) => !scope_has(old(scopes)@.last(), decl_name(*d)) && (spec_local_decl(
                *d,
                old(scopes)@,
            ) matches Ok(si) && final(scopes)@ == old(scopes)@.update(
                old(scopes)@.len() - 1,
                old(scopes)@.last().push((decl_name(*d), si)),
            )),
            Err(er) => final(scopes)@ == old(scopes)@ && (if scope_has(
                old(scopes)@.last(),
                decl_name(*d),
            ) {
                er == Error::DuplicatedDef
            } else {
                spec_local_decl(*d, old(scopes)@) == Err::<SymInfo, Error>(er)
            }),
        },
{
    match d {
        Decl::Const(cd) => {
            if scopes.defined_in_current(&cd.id) {
                return Err(Error::DuplicatedDef);
            }
            match to_type(&cd.dims, scopes) {
                Err(e) => Err(e),
                Ok(t) => match fold_init(&t, &cd.init, scopes) {
                    Err(e) => Err(e),
                    Ok(cv) => {
                        bind_const(scopes, &cd.id, cv);
                        Ok(())
                    }
                },
            }
        }
        Decl::Var(vd) => {
            if scopes.defined_in_current(&vd.id) {
                return Err(Error::DuplicatedDef);
            }
            match to_type(&vd.dims, scopes) {
                Err(e) => Err(e),
                Ok(t) => {
                    let c = scopes.cur_func().unwrap();
                    let slot = crate::ir::kp_alloc(program, c.func, &t);
                    kp_push_inst(program, c.func, c.cur_bb, slot);
                    match &vd.init {
                        None => {
                            bind_var(scopes, &vd.id, slot, t);
                            Ok(())
                        }
                        Some(iv) => match iv {
                            InitVal::Single(e) => match &t {
                                Ty::I32 => match generate_exp(e, program, scopes) {
                                    Err(er) => Err(er),
                                    Ok(ev) => match into_int(ev, program, scopes) {
                                        Err(er) => Err(er),
                                        Ok(v) => {
                                            let st = kp_store(program, c.func, v, slot);
                                            kp_push_inst(program, c.func, c.cur_bb, st);
                                            bind_var(scopes, &vd.id, slot, t);
                                            Ok(())
                                        }
                                    },
                                },
                                _ => Err(Error::InvalidInit),
                            },
                            InitVal::List(_) => match &t {
                                Ty::I32 => Err(Error::InvalidInit),
                                _ => match fold_init(&t, iv, scopes) {
                                    Err(er) => Err(er),
                                    Ok(cv) => {
                                        store_const(&cv, slot, program, scopes);
                                        bind_var(scopes, &vd.id, slot, t);
                                        Ok(())
                                    }
                                },
                            },
                        },
                    }
                }
            }
        }
    }
}

/// Lowers an assignment: addresses the target through its indices,
/// then lowers the assigned expression and stores it, exactly as
/// `spec_assign_err` rules.
fn lower_assign(
    id: &String,
    idxs: &Vec<Exp>,
    rhs: &Exp,
    program: &mut koopa::ir::Program,
    scopes: &Scopes,
) -> (r: Result<(), Error>)
    requires
        scopes.spec_cur() is Some,
        scopes_wf(scopes@),
    ensures
        match spec_assign_err(id@, idxs@, *rhs, scopes@) {
            Some(er) => r == Err::<(), Error>(er),
            None => r is Ok,
        },
{
    match scopes.lookup(id) {
        Err(_) => Err(Error::SymbolNotFound),
        Ok(sym) => match sym {
            Symbol::Var(base, ty) => {
                proof {
                    lemma_scopes_find_wf(scopes@, id@);
                    assert(idxs@.skip(0) =~= idxs@);
                }
                let t = ty.copy();
                let b = base.v;
                match lower_indices(idxs, 0, b, t, program, scopes) {
                    Err(er) => Err(er),
                    Ok(ev) => match ev {
                        ExpVal::Ptr(p, pt) => match pt {
                            Ty::I32 => match generate_exp(rhs, program, scopes) {
                                Err(er) => Err(er),
                                Ok(rv) => match into_int(rv, program, scopes) {
                                    Err(er) => Err(er),
                                    Ok(v) => {
                                        let c = scopes.cur_func().unwrap();
                                        let st = kp_store(program, c.func, v, p);
                                        kp_push_inst(program, c.func, c.cur_bb, st);
                                        Ok(())
                                    }
                                },
                            },
                            _ => Err(Error::ArrayAssign),
                        },
                        _ => Err(Error::ArrayAssign),
                    },
                }
            }
            _ => Err(Error::SymbolNotFound),
        },
    }
}

/// Lowers a return statement: rejects a value in a void function,
/// emits the return, and opens a fresh block for whatever follows.
fn lower_return(oe: &Option<Exp>, program: &mut koopa::ir::Program, scopes: &mut Scopes) -> (r: Result<
    (),
    Error,
>)
    requires
        old(scopes)@.len() >= 1,
        old(scopes).spec_cur() is Some,
        scopes_wf(old(scopes)@),
    ensures
        final(scopes)@ == old(scopes)@,
        final(scopes).spec_loops() == old(scopes).spec_loops(),
        same_func(*old(scopes), *final(scopes)),
        match *oe {
            None => r is Ok,
            Some(e) => if old(scopes).spec_cur().unwrap().ret_void {
                r == Err::<(), Error>(Error::RetValInVoidFunc)
            } else {
                match int_exp_err(e, old(scopes)@) {
                    Some(er) => r == Err::<(), Error>(er),
                    None => r is Ok,
                }
            },
        },
{
    let c = scopes.cur_func().unwrap();
    match oe {
        None => {
            let rv = if c.ret_void {
                kp_ret(program, c.func, None)
            } else {
                let z = kp_integer(program, c.func, 0);
                kp_ret(program, c.func, Some(z))
            };
            kp_push_inst(program, c.func, c.cur_bb, rv);
            let bb = fresh_bb(program, c.func);
            scopes.set_cur_bb(bb);
            Ok(())
        }
        Some(e) => {
            if c.ret_void {
                return Err(Error::RetValInVoidFunc);
            }
            match generate_exp(e, program, scopes) {
                Err(er) => Err(er),
                Ok(ev) => match into_int(ev, program, scopes) {
                    Err(er) => Err(er),
                    Ok(v) => {
                        let rv = kp_ret(program, c.func, Some(v));
                        kp_push_inst(program, c.func, c.cur_bb, rv);
                        let bb = fresh_bb(program, c.func);
                        scopes.set_cur_bb(bb);
                        Ok(())
                    }
                },
            }
        }
    }
}

/// Lowers one statement of the current function. The scopes, the loop
/// stack and the function are as before afterwards; only the block
/// under construction may have moved. For the leaf statements the
/// result is exactly what `spec_stmt_result` says.
#[verifier::rlimit(100)]
pub(crate) fn generate_stmt(stmt: &Stmt, program: &mut koopa::ir::Program, scopes: &mut Scopes) -> (r: Result<
    (),
    Error,
>)
    requires
        old(scopes)@.len() >= 1,
        old(scopes).spec_cur() is Some,
        scopes_wf(old(scopes)@),
    ensures
        final(scopes)@ == old(scopes)@,
        final(scopes).spec_loops() == old(scopes).spec_loops(),
        same_func(*old(scopes), *final(scopes)),
        match spec_run_stmt(
            *stmt,
            old(scopes)@,
            old(scopes).spec_loops().len() > 0,
            old(scopes).spec_cur().unwrap().ret_void,
        ) {
            Some(e) => r == Err::<(), Error>(e),
            None => r is Ok,
        },
    decreases *stmt, 0nat,
{
    match stmt {
        Stmt::Break => match scopes.current_loop() {
            None => Err(Error::NotInLoop),
            Some(l) => {
                let c = scopes.cur_func().unwrap();
                let j = kp_jump(program, c.func, l.break_bb);
                kp_push_inst(program, c.func, c.cur_bb, j);
                let bb = fresh_bb(program, c.func);
                scopes.set_cur_bb(bb);
                Ok(())
            }
        },
        Stmt::Continue => match scopes.current_loop() {
            None => Err(Error::NotInLoop),
            Some(l) => {
                let c = scopes.cur_func().unwrap();
                let j = kp_jump(program, c.func, l.cont_bb);
                kp_push_inst(program, c.func, c.cur_bb, j);
                let bb = fresh_bb(program, c.func);
                scopes.set_cur_bb(bb);
                Ok(())
            }
        },
        Stmt::Return(oe) => lower_return(oe, program, scopes),
        Stmt::Assign(id, idxs, rhs) => lower_assign(id, idxs, rhs, program, scopes),
        Stmt::Exp(oe) => match oe {
            None => Ok(()),
            Some(e) => match generate_exp(e, program, scopes) {
                Err(er) => Err(er),
                Ok(_) => Ok(()),
            },
        },
        Stmt::Block(b) => generate_block(b, program, scopes),
        Stmt::If(cond, then_s, else_s) => {
            match generate_exp(cond, program, scopes) {
            Err(er) => Err(er),
            Ok(cv) => match into_int(cv, program, scopes) {
                Err(er) => Err(er),
                Ok(v) => {
                    let c = scopes.cur_func().unwrap();
                    let then_bb = fresh_bb(program, c.func);
                    match else_s {
                        None => {
                            let end_bb = fresh_bb(program, c.func);
                            let br = kp_branch(program, c.func, v, then_bb, end_bb);
                            kp_push_inst(program, c.func, c.cur_bb, br);
                            scopes.set_cur_bb(then_bb);
                            match generate_stmt(then_s, program, scopes) {
                                Err(er) => Err(er),
                                Ok(()) => {
                                    let c2 = scopes.cur_func().unwrap();
                                    let j = kp_jump(program, c2.func, end_bb);
                                    kp_push_inst(program, c2.func, c2.cur_bb, j);
                                    scopes.set_cur_bb(end_bb);
                                    Ok(())
                                }
                            }
                        }
                        Some(es) => {
                            let else_bb = fresh_bb(program, c.func);
                            let end_bb = fresh_bb(program, c.func);
                            let br = kp_branch(program, c.func, v, then_bb, else_bb);
                            kp_push_inst(program, c.func, c.cur_bb, br);
                            scopes.set_cur_bb(then_bb);
                            match generate_stmt(then_s, program, scopes) {
                                Err(er) => Err(er),
                                Ok(()) => {
                                    let c2 = scopes.cur_func().unwrap();
                                    let j = kp_jump(program, c2.func, end_bb);
                                    kp_push_inst(program, c2.func, c2.cur_bb, j);
                                    scopes.set_cur_bb(else_bb);
                                    match generate_stmt(es, program, scopes) {
                                        Err(er) => Err(er),
                                        Ok(()) => {
                                            let c3 = scopes.cur_func().unwrap();
                                            let j2 = kp_jump(program, c3.func, end_bb);
                                            kp_push_inst(program, c3.func, c3.cur_bb, j2);
                                            scopes.set_cur_bb(end_bb);
                                            Ok(())
                                        }
                                    }
                                }
                            }
                        }
                    }
                }
            },
        }
        },
        Stmt::While(cond, body) => {
            let c = scopes.cur_func().unwrap();
            let cond_bb = fresh_bb(program, c.func);
            let j = kp_jump(program, c.func, cond_bb);
            kp_push_inst(program, c.func, c.cur_bb, j);
            scopes.set_cur_bb(cond_bb);
            match generate_exp(cond, program, scopes) {
                Err(er) => Err(er),
                Ok(cv) => match into_int(cv, program, scopes) {
                    Err(er) => Err(er),
                    Ok(v) => {
                        let c2 = scopes.cur_func().unwrap();
                        let body_bb = fresh_bb(program, c2.func);
                        let end_bb = fresh_bb(program, c2.func);
                        let br = kp_branch(program, c2.func, v, body_bb, end_bb);
                        kp_push_inst(program, c2.func, c2.cur_bb, br);
                        scopes.push_loop(LoopCtx { break_bb: end_bb, cont_bb: cond_bb });
                        scopes.set_cur_bb(body_bb);
                        let r = generate_stmt(body, program, scopes);
                        scopes.pop_loop();
                        proof {
                            assert(old(scopes).spec_loops().push(
                                LoopCtx { break_bb: end_bb, cont_bb: cond_bb },
                            ).drop_last() =~= old(scopes).spec_loops());
                        }
                        match r {
                            Err(er) => Err(er),
                            Ok(()) => {
                                let c3 = scopes.cur_func().unwrap();
                                let j2 = kp_jump(program, c3.func, cond_bb);
                                kp_push_inst(program, c3.func, c3.cur_bb, j2);
                                scopes.set_cur_bb(end_bb);
                                Ok(())
                            }
                        }
                    }
                },
            }
        },
    }
}

/// Lowers a braced block: opens a scope, lowers the items, and closes
/// the scope again, leaving the scopes as they were.
pub(crate) fn generate_block(block: &Block, program: &mut koopa::ir::Program, scopes: &mut Scopes) -> (r: Result<
    (),
    Error,
>)
    requires
        old(scopes)@.len() >= 1,
        old(scopes).spec_cur() is Some,
        scopes_wf(old(scopes)@),
    ensures
        final(scopes)@ == old(scopes)@,
        final(scopes).spec_loops() == old(scopes).spec_loops(),
        same_func(*old(scopes), *final(scopes)),
        match spec_run_items(
            block.items@,
            old(scopes)@.push(Seq::<(Seq<char>, SymInfo)>::empty()),
            old(scopes).spec_loops().len() > 0,
            old(scopes).spec_cur().unwrap().ret_void,
        ) {
            Ok(_) => r is Ok,
            Err(e) => r == Err::<(), Error>(e),
        },
    decreases *block, 0nat,
{
    scopes.enter_scope();
    proof {
        lemma_enter_keeps_wf(old(scopes)@);
        assert(block.items@.skip(0) =~= block.items@);
    }
    let r = block_items_from(&block.items, 0, program, scopes);
    scopes.exit_scope();
    proof {
        assert(scopes@ =~= old(scopes)@);
    }
    r
}

/// Lowers the items of a block from `pos` on: declarations extend the
/// innermost scope, statements leave it as it is.
fn block_items_from(
    items: &Vec<BlockItem>,
    pos: usize,
    program: &mut koopa::ir::Program,
    scopes: &mut Scopes,
) -> (r: Result<(), Error>)
    requires
        pos <= items@.len(),
        old(scopes)@.len() >= 1,
        old(scopes).spec_cur() is Some,
        scopes_wf(old(scopes)@),
    ensures
        final(scopes)@.len() == old(scopes)@.len(),
        forall|k: int| 0 <= k < old(scopes)@.len() - 1 ==> final(scopes)@[k] == old(scopes)@[k],
        final(scopes).spec_loops() == old(scopes).spec_loops(),
        same_func(*old(scopes), *final(scopes)),
        scopes_wf(final(scopes)@),
        match spec_run_items(
            items@.skip(pos as int),
            old(scopes)@,
            old(scopes).spec_loops().len() > 0,
            old(scopes).spec_cur().unwrap().ret_void,
        ) {
            Ok(ssf) => r is Ok && final(scopes)@ == ssf,
            Err(e) => r == Err::<(), Error>(e),
        },
    decreases items@, items@.len() - pos,
{
    if pos == items.len() {
        proof {
            assert(items@.skip(pos as int) =~= Seq::<BlockItem>::empty());
        }
        Ok(())
    } else {
        proof {
            assert(items@.skip(pos as int)[0] == items@[pos as int]);
            assert(items@.skip(pos as int).drop_first() =~= items@.skip(pos + 1));
        }
        match &items[pos] {
            BlockItem::Decl(d) => match lower_local_decl(d, program, scopes) {
                Err(e) => Err(e),
                Ok(()) => block_items_from(items, pos + 1, program, scopes),
            },
            BlockItem::Stmt(st) => match generate_stmt(st, program, scopes) {
                Err(e) => Err(e),
                Ok(()) => block_items_from(items, pos + 1, program, scopes),
            },
        }
    }
}

} // verus!
