use vstd::prelude::*;

use crate::ast::CompUnit;
use crate::ast::Decl;
use crate::ast::FuncDef;
use crate::ast::GlobalItem;
use crate::error::Error;
use crate::func::bind_const;
use crate::func::bind_var;
use crate::func::block_dup_free;
use crate::func::decl_name;
use crate::func::distinct_names;
use crate::func::generate_block;
use crate::func::items_decl_names;
use crate::func::items_stmts_dup_free;
use crate::func::lemma_run_items_no_dup;
use crate::func::spec_run_items;
use crate::init::fold_init;
use crate::init::global_const_value;
use crate::init::lemma_fold_init_not_dup;
use crate::init::spec_fold_init;
use crate::ir::kp_alloc;
use crate::ir::kp_global_alloc;
use crate::ir::kp_global_zero;
use crate::ir::kp_i32_type;
use crate::ir::kp_integer;
use crate::ir::kp_new_func;
use crate::ir::kp_new_program;
use crate::ir::kp_push_inst;
use crate::ir::kp_ret;
use crate::ir::kp_store;
use crate::ir::kp_unit_type;
use crate::scopes::lemma_define_keeps_wf;
use crate::scopes::lemma_enter_keeps_wf;
use crate::scopes::lemma_exit_keeps_wf;
use crate::scopes::lemma_scope_has_names;
use crate::scopes::scope_has;
use crate::scopes::scope_names;
use crate::scopes::scopes_wf;
use crate::scopes::FuncCtx;
use crate::scopes::Scopes;
use crate::symbol::sym_wf;
use crate::symbol::FuncHandle;
use crate::symbol::SymInfo;
use crate::symbol::Symbol;
use crate::symbol::ValueHandle;
use crate::types::lemma_to_type_not_dup;
use crate::types::spec_to_type;
use crate::types::to_type;
use crate::types::Ty;
use crate::values::fresh_bb;

verus! {

/// What checking a top-level declaration yields, duplicates aside: a
/// constant folds its whole initializer; a global variable's
/// initializer, if any, must fold too, and an absent one means zero.
pub open spec fn spec_global_decl(d: Decl, ss: Seq<Seq<(Seq<char>, SymInfo)>>) -> Result<SymInfo, Error> {
    match d {
        Decl::Const(cd) => match spec_to_type(cd.dims@, ss) {
            Err(e) => Err(e),
            Ok(t) => match spec_fold_init(t, cd.init, ss) {
                Err(e) => Err(e),
                Ok(cm) => Ok(SymInfo::Const(cm)),
            },
        },
        Decl::Var(vd) => match spec_to_type(vd.dims@, ss) {
            Err(e) => Err(e),
            Ok(t) => match vd.init {
                None => Ok(SymInfo::Var(t)),
                Some(iv) => match spec_fold_init(t, iv, ss) {
                    Err(e) => Err(e),
                    Ok(_) => Ok(SymInfo::Var(t)),
                },
            },
        },
    }
}

/// The symbol a function definition binds: a function type with one
/// integer parameter per declared parameter, returning the integer or
/// nothing as declared.
pub open spec fn spec_func_sym(fd: FuncDef) -> SymInfo {
    SymInfo::Func(
        Ty::Function(
            fd.params@.len() as usize,
            Box::new(
                if fd.ret_void {
                    Ty::Unit
                } else {
                    Ty::I32
                },
            ),
        ),
    )
}

/// The names of a function's parameters, in order.
pub open spec fn param_names(ps: Seq<crate::ast::FuncParam>) -> Seq<Seq<char>> {
    ps.map_values(|p: crate::ast::FuncParam| p.id@)
}

/// The scope the parameters open: one integer slot per parameter, in
/// declaration order.
pub open spec fn param_scope(ps: Seq<crate::ast::FuncParam>) -> Seq<(Seq<char>, SymInfo)> {
    ps.map_values(|p: crate::ast::FuncParam| (p.id@, SymInfo::Var(Ty::I32)))
}

/// Within every single scope of the function, no identifier is bound
/// twice: its parameters are pairwise distinct, and its body keeps
/// its scopes duplicate-free.
pub open spec fn func_dup_free(fd: FuncDef) -> bool {
    distinct_names(param_names(fd.params@)) && block_dup_free(fd.body)
}

/// What lowering a function definition yields: its name must be fresh
/// in the global scope and its parameters pairwise distinct — either
/// duplicate raises `DuplicatedDef` — and then its body runs under
/// the function's own symbol, the parameter scope, and the body's
/// scope, exactly as `spec_run_items` says. On success the global
/// scope has gained the function's symbol.
pub open spec fn spec_func_def(fd: FuncDef, ss: Seq<Seq<(Seq<char>, SymInfo)>>) -> Result<
    Seq<Seq<(Seq<char>, SymInfo)>>,
    Error,
> {
    if scope_has(ss.last(), fd.id@) {
        Err(Error::DuplicatedDef)
    } else if !distinct_names(param_names(fd.params@)) {
        Err(Error::DuplicatedDef)
    } else {
        let ss1 = ss.update(ss.len() - 1, ss.last().push((fd.id@, spec_func_sym(fd))));
        match spec_run_items(
            fd.body.items@,
            ss1.push(param_scope(fd.params@)).push(Seq::<(Seq<char>, SymInfo)>::empty()),
            false,
            fd.ret_void,
        ) {
            Err(e) => Err(e),
            Ok(_) => Ok(ss1),
        }
    }
}

/// What generating a compile unit yields: its items run in source
/// order over the global scope — a declaration must not duplicate a
/// top-level name and binds its symbol, a function definition runs as
/// `spec_func_def` says — and the first error stops the walk.
pub open spec fn spec_generate_unit(items: Seq<GlobalItem>, ss: Seq<Seq<(Seq<char>, SymInfo)>>) -> Result<
    Seq<Seq<(Seq<char>, SymInfo)>>,
    Error,
>
    decreases items.len(),
{
    if items.len() == 0 {
        Ok(ss)
    } else {
        match items[0] {
            GlobalItem::Decl(d) => if scope_has(ss.last(), decl_name(d)) {
                Err(Error::DuplicatedDef)
            } else {
                match spec_global_decl(d, ss) {
                    Err(e) => Err(e),
                    Ok(si) => spec_generate_unit(
                        items.drop_first(),
                        ss.update(ss.len() - 1, ss.last().push((decl_name(d), si))),
                    ),
                }
            },
            GlobalItem::Func(fd) => match spec_func_def(fd, ss) {
                Err(e) => Err(e),
                Ok(ss1) => spec_generate_unit(items.drop_first(), ss1),
            },
        }
    }
}

/// The name a top-level item binds.
pub open spec fn item_name(it: GlobalItem) -> Seq<char> {
    match it {
        GlobalItem::Decl(d) => decl_name(d),
        GlobalItem::Func(fd) => fd.id@,
    }
}

/// The names the top-level items bind, in order.
pub open spec fn unit_names(items: Seq<GlobalItem>) -> Seq<Seq<char>> {
    items.map_values(|it: GlobalItem| item_name(it))
}

/// No identifier is bound twice in any single scope of the compile
/// unit: the top-level names are pairwise distinct, and every
/// function is duplicate-free inside.
pub open spec fn unit_dup_free(cu: CompUnit) -> bool {
    distinct_names(unit_names(cu.items@)) && (forall|i: int| 0 <= i < cu.items@.len() ==> ((
    #[trigger] cu.items@[i]) matches GlobalItem::Func(fd) ==> func_dup_free(fd)))
}

/// Checking a top-level declaration raises only type, evaluation and
/// shape errors, never a duplicate definition.
pub proof fn lemma_global_decl_not_dup(d: Decl, ss: Seq<Seq<(Seq<char>, SymInfo)>>)
    ensures
        spec_global_decl(d, ss) != Err::<SymInfo, Error>(Error::DuplicatedDef),
{
    match d {
        Decl::Const(cd) => {
            lemma_to_type_not_dup(cd.dims@, ss);
            match spec_to_type(cd.dims@, ss) {
                Ok(t) => {
                    lemma_fold_init_not_dup(t, cd.init, ss);
                }
                _ => {}
            }
        }
        Decl::Var(vd) => {
            lemma_to_type_not_dup(vd.dims@, ss);
            match spec_to_type(vd.dims@, ss) {
                Ok(t) => match vd.init {
                    Some(iv) => {
                        lemma_fold_init_not_dup(t, iv, ss);
                    }
                    None => {}
                },
                _ => {}
            }
        }
    }
}

/// A duplicate-free function whose name is fresh in the global scope
/// never runs into `DuplicatedDef`.
pub proof fn lemma_func_def_no_dup(fd: FuncDef, ss: Seq<Seq<(Seq<char>, SymInfo)>>)
    requires
        func_dup_free(fd),
        !scope_has(ss.last(), fd.id@),
        ss.len() >= 1,
    ensures
        spec_func_def(fd, ss) != Err::<Seq<Seq<(Seq<char>, SymInfo)>>, Error>(
            Error::DuplicatedDef,
        ),
{
    assert(distinct_names(param_names(fd.params@)));
    assert(block_dup_free(fd.body));
    assert(distinct_names(items_decl_names(fd.body.items@)));
    assert(items_stmts_dup_free(fd.body.items@));
    let ss1 = ss.update(ss.len() - 1, ss.last().push((fd.id@, spec_func_sym(fd))));
    let inner = ss1.push(param_scope(fd.params@)).push(Seq::<(Seq<char>, SymInfo)>::empty());
    assert(scope_names(inner.last()) =~= Seq::<Seq<char>>::empty());
    assert(scope_names(inner.last()) + items_decl_names(fd.body.items@) =~= items_decl_names(
        fd.body.items@,
    ));
    lemma_run_items_no_dup(fd.body.items@, inner, false, fd.ret_void);
}

/// A compile unit whose top-level names stay clear of the names the
/// global scope already binds, and whose functions are duplicate-free,
/// never runs into `DuplicatedDef`: the law behind the entry point's
/// never-DuplicatedDef clause.
pub proof fn lemma_generate_unit_no_dup(items: Seq<GlobalItem>, ss: Seq<Seq<(Seq<char>, SymInfo)>>)
    requires
        ss.len() >= 1,
        distinct_names(scope_names(ss.last()) + unit_names(items)),
        forall|i: int| 0 <= i < items.len() ==> ((#[trigger] items[i]) matches GlobalItem::Func(fd)
            ==> func_dup_free(fd)),
    ensures
        spec_generate_unit(items, ss) != Err::<Seq<Seq<(Seq<char>, SymInfo)>>, Error>(
            Error::DuplicatedDef,
        ),
    decreases items.len(),
{
    if items.len() > 0 {
        let names0 = scope_names(ss.last());
        let rest = items.drop_first();
        let rest_names = unit_names(rest);
        assert(unit_names(items)[0] == item_name(items[0]));
        assert(unit_names(rest) =~= unit_names(items).drop_first());
        assert(unit_names(items) =~= seq![item_name(items[0])] + rest_names);
        lemma_scope_has_names(ss.last(), item_name(items[0]));
        assert forall|j: int| 0 <= j < rest.len() implies ((#[trigger] rest[j]) matches GlobalItem::Func(
            fd2,
        ) ==> func_dup_free(fd2)) by {
            assert(rest[j] == items[j + 1]);
        }
        if scope_has(ss.last(), item_name(items[0])) {
            let k = choose|k: int| 0 <= k < names0.len() && names0[k] == item_name(items[0]);
            assert((names0 + unit_names(items))[k] == item_name(items[0]));
            assert((names0 + unit_names(items))[names0.len() as int] == item_name(items[0]));
            assert(false);
        } else {
            match items[0] {
                GlobalItem::Decl(d) => {
                    lemma_global_decl_not_dup(d, ss);
                    match spec_global_decl(d, ss) {
                        Ok(si) => {
                            let ss2 = ss.update(ss.len() - 1, ss.last().push((decl_name(d), si)));
                            assert(scope_names(ss2.last()) =~= names0.push(decl_name(d)));
                            assert(names0.push(decl_name(d)) + rest_names =~= names0 + unit_names(
                                items,
                            ));
                            lemma_generate_unit_no_dup(rest, ss2);
                        }
                        _ => {}
                    }
                }
                GlobalItem::Func(fd) => {
                    assert(func_dup_free(fd));
                    lemma_func_def_no_dup(fd, ss);
                    match spec_func_def(fd, ss) {
                        Ok(ss1) => {
                            assert(ss1 == ss.update(
                                ss.len() - 1,
                                ss.last().push((fd.id@, spec_func_sym(fd))),
                            ));
                            assert(scope_names(ss1.last()) =~= names0.push(fd.id@));
                            assert(names0.push(fd.id@) + rest_names =~= names0 + unit_names(items));
                            lemma_generate_unit_no_dup(rest, ss1);
                        }
                        _ => {}
                    }
                }
            }
        }
    }
}

/// Every function of the compile unit carries a name of at least one
/// character, as any parsed source does.
pub open spec fn func_ids_ok(cu: CompUnit) -> bool {
    forall|i: int| 0 <= i < cu.items@.len() ==> ((#[trigger] cu.items@[i]) matches GlobalItem::Func(
        fd,
    ) ==> fd.id@.len() >= 1)
}

/// Lowers one top-level declaration into the program's globals:
/// rejects a duplicate name in the global scope first, then builds the
/// type, folds the initializer, emits the global slot for a variable,
/// and binds the symbol.
pub(crate) fn generate_global_decl(d: &Decl, program: &mut koopa::ir::Program, scopes: &mut Scopes) -> (r: Result<
    (),
    Error,
>)
    requires
        old(scopes)@.len() >= 1,
        scopes_wf(old(scopes)@),
    ensures
        final(scopes)@.len() == old(scopes)@.len(),
        forall|k: int| 0 <= k < old(scopes)@.len() - 1 ==> final(scopes)@[k] == old(scopes)@[k],
        final(scopes).spec_loops() == old(scopes).spec_loops(),
        final(scopes).spec_cur() == old(scopes).spec_cur(),
        scopes_wf(final(scopes)@),
        match r {
            Ok(()) => !scope_has(old(scopes)@.last(), decl_name(*d)) && (spec_global_decl(
                *d,
                old(scopes)@,
            ) matches Ok(si) && final(scopes)@ == old(scopes)@.update(
                old(scopes)@.len() - 1,
                old(scopes)@.last().push((decl_name(*d), si)),
            )),
            Err(er) => final(scopes)@ == old(scopes)@ && (if scope_has(
                old(scopes)@.last(),
                decl_name(*d),
            ) {
                er == Error::DuplicatedDef
            } else {
                spec_global_decl(*d, old(scopes)@) == Err::<SymInfo, Error>(er)
            }),
        },
{
    match d {
        Decl::Const(cd) => {
            if scopes.defined_in_current(&cd.id) {
                return Err(Error::DuplicatedDef);
            }
            match to_type(&cd.dims, scopes) {
                Err(e) => Err(e),
                Ok(t) => match fold_init(&t, &cd.init, scopes) {
                    Err(e) => Err(e),
                    Ok(cv) => {
                        bind_const(scopes, &cd.id, cv);
                        Ok(())
                    }
                },
            }
        }
        Decl::Var(vd) => {
            if scopes.defined_in_current(&vd.id) {
                return Err(Error::DuplicatedDef);
            }
            match to_type(&vd.dims, scopes) {
                Err(e) => Err(e),
                Ok(t) => {
                    let init_val = match &vd.init {
                        None => Ok(kp_global_zero(program, &t)),
                        Some(iv) => match fold_init(&t, iv, scopes) {
                            Err(e) => Err(e),
                            Ok(cv) => Ok(global_const_value(&cv, program)),
                        },
                    };
                    match init_val {
                        Err(e) => Err(e),
                        Ok(init) => {
                            let slot = kp_global_alloc(program, init);
                            bind_var(scopes, &vd.id, slot, t);
                            Ok(())
                        }
                    }
                }
            }
        }
    }
}

/// Lowers one function definition, exactly as `spec_func_def` says:
/// rejects a duplicate of its name in the global scope, creates the IR
/// function, binds its symbol — so the body may call it recursively —
/// binds the parameters in their own scope, rejecting a duplicate
/// among them, lowers the body, and seals the function with a final
/// return.
pub(crate) fn generate_func_def(fd: &FuncDef, program: &mut koopa::ir::Program, scopes: &mut Scopes) -> (r: Result<
    (),
    Error,
>)
    requires
        old(scopes)@.len() == 1,
        old(scopes).spec_cur() is None,
        old(scopes).spec_loops().len() == 0,
        scopes_wf(old(scopes)@),
        fd.id@.len() >= 1,
    ensures
        final(scopes)@.len() == 1,
        final(scopes).spec_cur() is None,
        final(scopes).spec_loops().len() == 0,
        scopes_wf(final(scopes)@),
        match spec_func_def(*fd, old(scopes)@) {
            Ok(ssf) => r is Ok && final(scopes)@ == ssf,
            Err(e) => r == Err::<(), Error>(e),
        },
{
    if scopes.defined_in_current(&fd.id) {
        return Err(Error::DuplicatedDef);
    }
    let nparams = fd.params.len();
    let ret_ty = if fd.ret_void {
        kp_unit_type()
    } else {
        kp_i32_type()
    };
    let (f, param_vals) = kp_new_func(program, fd.id.as_str(), nparams, ret_ty);
    // the function's own symbol, visible to its body
    let rt = if fd.ret_void {
        Ty::Unit
    } else {
        Ty::I32
    };
    let fty = Ty::Function(nparams, Box::new(rt));
    let ghost fsym = SymInfo::Func(fty);
    proof {
        assert(sym_wf(fsym));
        assert(fsym == spec_func_sym(*fd));
        lemma_define_keeps_wf(scopes@, (fd.id@, fsym));
    }
    match scopes.define(fd.id.clone(), Symbol::Func(FuncHandle { f }, fty)) {
        Ok(()) => {}
        Err(_) => {
            proof {
                assert(false);
            }
            return Err(Error::DuplicatedDef);
        }
    }
    // the entry block and the function context
    let entry = fresh_bb(program, f);
    scopes.set_cur_func(FuncCtx { func: f, ret_void: fd.ret_void, cur_bb: entry });
    let ghost before = scopes@;
    scopes.enter_scope();
    proof {
        lemma_enter_keeps_wf(before);
    }
    let ghost g0 = scopes@;
    proof {
        assert(scopes@.last() =~= param_scope(fd.params@.take(0)));
        assert(scope_names(scopes@.last()) =~= param_names(fd.params@.take(0)));
    }
    // the parameters, each in a fresh slot
    let pty = Ty::I32;
    let mut k: usize = 0;
    while k < fd.params.len()
        invariant
            k <= fd.params@.len(),
            pty == Ty::I32,
            scopes@.last() == param_scope(fd.params@.take(k as int)),
            scope_names(scopes@.last()) == param_names(fd.params@.take(k as int)),
            distinct_names(param_names(fd.params@.take(k as int))),
            param_vals@.len() == fd.params@.len(),
            old(scopes)@.len() == 1,
            !scope_has(old(scopes)@.last(), fd.id@),
            fsym == spec_func_sym(*fd),
            scopes@.len() == 2,
            g0.len() == 2,
            g0[0] == old(scopes)@.last().push((fd.id@, fsym)),
            scopes@[0] == g0[0],
            scopes.spec_cur() == Some(FuncCtx { func: f, ret_void: fd.ret_void, cur_bb: entry }),
            scopes.spec_loops().len() == 0,
            scopes_wf(scopes@),
        decreases fd.params@.len() - k,
    {
        let pv = param_vals[k];
        let slot = kp_alloc(program, f, &pty);
        kp_push_inst(program, f, entry, slot);
        let st = kp_store(program, f, pv, slot);
        kp_push_inst(program, f, entry, st);
        if scopes.defined_in_current(&fd.params[k].id) {
            proof {
                lemma_scope_has_names(scopes@.last(), fd.params@[k as int].id@);
                let pn = param_names(fd.params@.take(k as int));
                let j = choose|j: int| 0 <= j < pn.len() && pn[j] == fd.params@[k as int].id@;
                assert(fd.params@.take(k as int)[j] == fd.params@[j]);
                assert(param_names(fd.params@)[j] == fd.params@[j].id@);
                assert(param_names(fd.params@)[k as int] == fd.params@[k as int].id@);
                assert(!distinct_names(param_names(fd.params@)));
            }
            let ghost pre = scopes@;
            scopes.exit_scope();
            scopes.clear_cur_func();
            proof {
                lemma_exit_keeps_wf(pre);
            }
            return Err(Error::DuplicatedDef);
        }
        proof {
            lemma_define_keeps_wf(scopes@, (fd.params@[k as int].id@, SymInfo::Var(Ty::I32)));
            lemma_scope_has_names(scopes@.last(), fd.params@[k as int].id@);
        }
        match scopes.define(fd.params[k].id.clone(), Symbol::Var(ValueHandle { v: slot }, Ty::I32)) {
            Ok(()) => {}
            Err(_) => {
                proof {
                    assert(false);
                }
            }
        }
        proof {
            assert(fd.params@.take(k + 1) =~= fd.params@.take(k as int).push(fd.params@[k as int]));
            assert(scopes@.last() =~= param_scope(fd.params@.take(k + 1)));
            assert(scope_names(scopes@.last()) =~= param_names(fd.params@.take(k + 1)));
            let ghost pn1 = param_names(fd.params@.take(k + 1));
            assert forall|a: int, b: int| 0 <= a < b < pn1.len() implies #[trigger] pn1[a]
                != #[trigger] pn1[b] by {
                if a < k as int {
                    assert(param_names(fd.params@.take(k as int))[a] == pn1[a]);
                }
                if b < k as int {
                    assert(param_names(fd.params@.take(k as int))[b] == pn1[b]);
                }
            }
            assert(distinct_names(pn1));
        }
        k = k + 1;
    }
    proof {
        assert(fd.params@.take(k as int) =~= fd.params@);
        assert(distinct_names(param_names(fd.params@)));
    }
    // the body, in its own scope inside the parameters' one
    let ghost sbody = scopes@;
    proof {
        assert(old(scopes)@.update(0, g0[0]) =~= seq![g0[0]]);
        assert(sbody =~= seq![g0[0]].push(param_scope(fd.params@)));
    }
    let r = generate_block(&fd.body, program, scopes);
    match r {
        Err(er) => {
            let ghost pre = scopes@;
            scopes.exit_scope();
            scopes.clear_cur_func();
            proof {
                lemma_exit_keeps_wf(pre);
            }
            Err(er)
        }
        Ok(()) => {
            // seal the function: a trailing return
            let c = scopes.cur_func().unwrap();
            let rv = if fd.ret_void {
                kp_ret(program, c.func, None)
            } else {
                let z = kp_integer(program, c.func, 0);
                kp_ret(program, c.func, Some(z))
            };
            kp_push_inst(program, c.func, c.cur_bb, rv);
            let ghost pre = scopes@;
            scopes.exit_scope();
            scopes.clear_cur_func();
            proof {
                lemma_exit_keeps_wf(pre);
                assert(scopes@ =~= old(scopes)@.update(
                    0,
                    old(scopes)@.last().push((fd.id@, fsym)),
                ));
            }
            Ok(())
        }
    }
}

/// Generates the IR program for the given compile unit: walks its
/// top-level declarations and function definitions in source order
/// into one fresh program under one fresh scope manager. The result is
/// exactly what `spec_generate_unit` says of the unit's items over a
/// single empty global scope: the completed program, or the first
/// semantic error in AST traversal order, with no partial program. In
/// particular, a unit with no duplicate identifier in any single
/// scope never fails with `DuplicatedDef`.
pub fn generate_program(comp_unit: &CompUnit) -> (r: Result<koopa::ir::Program, Error>)
    requires
        func_ids_ok(*comp_unit),
    ensures
        match spec_generate_unit(
            comp_unit.items@,
            seq![Seq::<(Seq<char>, SymInfo)>::empty()],
        ) {
            Ok(_) => r is Ok,
            Err(e) => r == Err::<koopa::ir::Program, Error>(e),
        },
        unit_dup_free(*comp_unit) ==> r != Err::<koopa::ir::Program, Error>(Error::DuplicatedDef),
{
    let mut program = kp_new_program();
    let mut scopes = Scopes::new();
    let ghost init = seq![Seq::<(Seq<char>, SymInfo)>::empty()];
    proof {
        assert(comp_unit.items@.skip(0) =~= comp_unit.items@);
        if unit_dup_free(*comp_unit) {
            assert(scope_names(init.last()) =~= Seq::<Seq<char>>::empty());
            assert(scope_names(init.last()) + unit_names(comp_unit.items@) =~= unit_names(
                comp_unit.items@,
            ));
            lemma_generate_unit_no_dup(comp_unit.items@, init);
        }
    }
    let mut i: usize = 0;
    while i < comp_unit.items.len()
        invariant
            i <= comp_unit.items@.len(),
            func_ids_ok(*comp_unit),
            scopes@.len() == 1,
            scopes.spec_cur() is None,
            scopes.spec_loops().len() == 0,
            scopes_wf(scopes@),
            spec_generate_unit(comp_unit.items@, seq![Seq::<(Seq<char>, SymInfo)>::empty()])
                == spec_generate_unit(comp_unit.items@.skip(i as int), scopes@),
            unit_dup_free(*comp_unit) ==> spec_generate_unit(
                comp_unit.items@,
                seq![Seq::<(Seq<char>, SymInfo)>::empty()],
            ) != Err::<Seq<Seq<(Seq<char>, SymInfo)>>, Error>(Error::DuplicatedDef),
        decreases comp_unit.items@.len() - i,
    {
        proof {
            assert(comp_unit.items@.skip(i as int)[0] == comp_unit.items@[i as int]);
            assert(comp_unit.items@.skip(i as int).drop_first() =~= comp_unit.items@.skip(i + 1));
        }
        let r = match &comp_unit.items[i] {
            GlobalItem::Decl(d) => generate_global_decl(d, &mut program, &mut scopes),
            GlobalItem::Func(fd) => generate_func_def(fd, &mut program, &mut scopes),
        };
        match r {
            Ok(()) => {}
            Err(e) => {
                return Err(e);
            }
        }
        i = i + 1;
    }
    proof {
        assert(comp_unit.items@.skip(i as int) =~= Seq::<GlobalItem>::empty());
    }
    Ok(program)
}

} // verus!
