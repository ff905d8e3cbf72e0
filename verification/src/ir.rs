use vstd::prelude::*;

use crate::ast::BinaryOp as B;
use crate::types::Ty;
use koopa::ir::builder::BasicBlockBuilder;
use koopa::ir::BinaryOp as K;
use koopa::ir::builder::GlobalInstBuilder;
use koopa::ir::builder::LocalInstBuilder;
use koopa::ir::builder::ValueBuilder;

verus! {

// The handles and containers of the koopa IR library. All of them are
// opaque here: the generator holds them, hands them back to koopa, and
// claims nothing about what they denote.

#[verifier::external_type_specification]
#[verifier::external_body]
pub struct ExProgram(koopa::ir::Program);

#[verifier::external_type_specification]
#[verifier::external_body]
pub struct ExFunction(koopa::ir::Function);

#[verifier::external_type_specification]
#[verifier::external_body]
pub struct ExBasicBlock(koopa::ir::BasicBlock);

#[verifier::external_type_specification]
#[verifier::external_body]
pub struct ExValue(koopa::ir::Value);

#[verifier::external_type_specification]
#[verifier::external_body]
pub struct ExType(koopa::ir::Type);

/// Relies on koopa's `Program::new`: creates an empty IR program.
#[verifier::external_body]
pub(crate) fn kp_new_program() -> koopa::ir::Program {
    koopa::ir::Program::new()
}

/// Relies on koopa's `Type::get_i32`: the `i32` IR type.
#[verifier::external_body]
pub(crate) fn kp_i32_type() -> koopa::ir::Type {
    koopa::ir::Type::get_i32()
}

/// Relies on koopa's `Type::get_unit`: the `unit` IR type.
#[verifier::external_body]
pub(crate) fn kp_unit_type() -> koopa::ir::Type {
    koopa::ir::Type::get_unit()
}

/// Relies on koopa's `Type::get_array`, which panics only on a zero
/// length; the length here is at least one.
#[verifier::external_body]
pub(crate) fn kp_array_type(base: koopa::ir::Type, len: usize) -> koopa::ir::Type
    requires
        1 <= len,
{
    koopa::ir::Type::get_array(base, len)
}

/// Relies on koopa's `Program::new_func_def` and `Program::func`: creates
/// a function with `nparams` parameters of the `i32` type and hands back
/// its handle and its parameter values, one per parameter. `new_func_def`
/// panics on a name shorter than two characters or not led by `@` or
/// `%`, so a `@` is put in front here, and on a `unit` parameter type,
/// which building the parameter list here rules out.
#[verifier::external_body]
pub(crate) fn kp_new_func(
    p: &mut koopa::ir::Program,
    name: &str,
    nparams: usize,
    ret_ty: koopa::ir::Type,
) -> (r: (koopa::ir::Function, Vec<koopa::ir::Value>))
    requires
        name@.len() >= 1,
    ensures
        r.1@.len() == nparams,
{
    let params_ty = vec![koopa::ir::Type::get_i32(); nparams];
    let f = p.new_func_def(format!("@{}", name), params_ty, ret_ty);
    (f, p.func(f).params().to_vec())
}

/// Relies on koopa's `DataFlowGraph::new_bb`: creates an unnamed basic
/// block in the given function, not yet placed in the layout.
///
/// `Program::func_mut` panics on a function not of this program. That
/// input cannot be stated over the opaque handle; instead the crate
/// makes it unreachable: every `Function`, `BasicBlock` and `Value`
/// the verified code holds comes from these wrappers on the one
/// program under generation, and the carrying types (`FuncHandle`,
/// `ValueHandle`, `FuncCtx`, `LoopCtx`) cannot be built or altered
/// outside the crate. The same holds for every wrapper below that
/// takes handles.
#[verifier::external_body]
pub(crate) fn kp_make_bb(p: &mut koopa::ir::Program, f: koopa::ir::Function) -> koopa::ir::BasicBlock {
    p.func_mut(f).dfg_mut().new_bb().basic_block(None)
}

/// Relies on koopa's `Layout::bbs_mut`: appends the block, created in this
/// function by `kp_make_bb`, to the function's layout. `push_key_back`
/// fails only on a block already in the list; each block is placed
/// exactly once, so the result carries nothing and is dropped.
#[verifier::external_body]
pub(crate) fn kp_place_bb(p: &mut koopa::ir::Program, f: koopa::ir::Function, bb: koopa::ir::BasicBlock) {
    let _ = p.func_mut(f).layout_mut().bbs_mut().push_key_back(bb);
}

/// Relies on koopa's local builder `integer`: an `i32` constant value in
/// the given function.
#[verifier::external_body]
pub(crate) fn kp_integer(p: &mut koopa::ir::Program, f: koopa::ir::Function, v: i32) -> koopa::ir::Value {
    p.func_mut(f).dfg_mut().new_value().integer(v)
}

/// Relies on koopa's local builder `alloc`, which panics only on a `unit`
/// type; the type is converted from a memory type of the model, which is
/// never `unit`.
#[verifier::external_body]
pub(crate) fn kp_alloc(p: &mut koopa::ir::Program, f: koopa::ir::Function, t: &Ty) -> koopa::ir::Value
    requires
        t.is_value_type(),
{
    let ty = build_type(t);
    p.func_mut(f).dfg_mut().new_value().alloc(ty)
}

/// Relies on koopa's local builder `load`; callers pass only pointer
/// values created in this function or as globals of this program.
#[verifier::external_body]
pub(crate) fn kp_load(p: &mut koopa::ir::Program, f: koopa::ir::Function, src: koopa::ir::Value) -> koopa::ir::Value {
    p.func_mut(f).dfg_mut().new_value().load(src)
}

/// Relies on koopa's local builder `store`; callers pass a value and a
/// pointer to storage of that value's type.
#[verifier::external_body]
pub(crate) fn kp_store(
    p: &mut koopa::ir::Program,
    f: koopa::ir::Function,
    val: koopa::ir::Value,
    dest: koopa::ir::Value,
) -> koopa::ir::Value {
    p.func_mut(f).dfg_mut().new_value().store(val, dest)
}

/// Relies on koopa's local builder `binary`; callers pass `i32` operand
/// values. The koopa operator is chosen by the operator passed in, one
/// arm per variant; the two logical operators take the bitwise koopa
/// operators, since callers normalise their operands to zero or one.
#[verifier::external_body]
pub(crate) fn kp_binary(
    p: &mut koopa::ir::Program,
    f: koopa::ir::Function,
    op: crate::ast::BinaryOp,
    lhs: koopa::ir::Value,
    rhs: koopa::ir::Value,
) -> koopa::ir::Value {
    let kop = match op {
        B::Add => K::Add, B::Sub => K::Sub, B::Mul => K::Mul, B::Div => K::Div,
        B::Mod => K::Mod, B::Lt => K::Lt, B::Gt => K::Gt, B::Le => K::Le,
        B::Ge => K::Ge, B::Eq => K::Eq, B::Ne => K::NotEq, B::And => K::And,
        B::Or => K::Or,
    };
    p.func_mut(f).dfg_mut().new_value().binary(kop, lhs, rhs)
}

/// Relies on koopa's local builder `branch`; callers pass an `i32`
/// condition and two blocks of this function.
#[verifier::external_body]
pub(crate) fn kp_branch(
    p: &mut koopa::ir::Program,
    f: koopa::ir::Function,
    cond: koopa::ir::Value,
    tbb: koopa::ir::BasicBlock,
    fbb: koopa::ir::BasicBlock,
) -> koopa::ir::Value {
    p.func_mut(f).dfg_mut().new_value().branch(cond, tbb, fbb)
}

/// Relies on koopa's local builder `jump`; callers pass a block of this
/// function.
#[verifier::external_body]
pub(crate) fn kp_jump(
    p: &mut koopa::ir::Program,
    f: koopa::ir::Function,
    target: koopa::ir::BasicBlock,
) -> koopa::ir::Value {
    p.func_mut(f).dfg_mut().new_value().jump(target)
}

/// Relies on koopa's local builder `ret`, which panics on a unit-typed
/// value; callers pass an `i32` value — an integer constant or a load —
/// in a function returning `i32`, or nothing.
#[verifier::external_body]
pub(crate) fn kp_ret(
    p: &mut koopa::ir::Program,
    f: koopa::ir::Function,
    v: Option<koopa::ir::Value>,
) -> koopa::ir::Value {
    p.func_mut(f).dfg_mut().new_value().ret(v)
}

/// Relies on koopa's local builder `call`; callers pass a function of
/// this program and one `i32` argument value per parameter.
#[verifier::external_body]
pub(crate) fn kp_call(
    p: &mut koopa::ir::Program,
    f: koopa::ir::Function,
    callee: koopa::ir::Function,
    args: Vec<koopa::ir::Value>,
) -> koopa::ir::Value {
    p.func_mut(f).dfg_mut().new_value().call(callee, args)
}

/// Relies on koopa's local builder `get_elem_ptr`; callers pass a pointer
/// to an array and an `i32` index value.
#[verifier::external_body]
pub(crate) fn kp_get_elem_ptr(
    p: &mut koopa::ir::Program,
    f: koopa::ir::Function,
    src: koopa::ir::Value,
    idx: koopa::ir::Value,
) -> koopa::ir::Value {
    p.func_mut(f).dfg_mut().new_value().get_elem_ptr(src, idx)
}

/// Relies on koopa's `Layout::bb_mut`: appends an instruction value of
/// this function to the given block of this function.
#[verifier::external_body]
pub(crate) fn kp_push_inst(
    p: &mut koopa::ir::Program,
    f: koopa::ir::Function,
    bb: koopa::ir::BasicBlock,
    inst: koopa::ir::Value,
) {
    let _ = p.func_mut(f).layout_mut().bb_mut(bb).insts_mut().push_key_back(inst);
}

/// Relies on koopa's global builder `integer`: an `i32` constant at the
/// program level.
#[verifier::external_body]
pub(crate) fn kp_global_integer(p: &mut koopa::ir::Program, v: i32) -> koopa::ir::Value {
    p.new_value().integer(v)
}

/// Relies on koopa's global builder `zero_init`, which panics only on a
/// `unit` type; the type is converted from a memory type of the model,
/// which is never `unit`.
#[verifier::external_body]
pub(crate) fn kp_global_zero(p: &mut koopa::ir::Program, t: &Ty) -> koopa::ir::Value
    requires
        t.is_value_type(),
{
    let ty = build_type(t);
    p.new_value().zero_init(ty)
}

/// Relies on koopa's global builder `aggregate`, which panics on an empty
/// element list, on non-constant elements, and on elements of unequal
/// types; callers pass at least one constant element, all of one type.
#[verifier::external_body]
pub(crate) fn kp_global_aggregate(
    p: &mut koopa::ir::Program,
    elems: Vec<koopa::ir::Value>,
) -> koopa::ir::Value
    requires
        elems@.len() >= 1,
{
    p.new_value().aggregate(elems)
}

/// Relies on koopa's global builder `global_alloc`, which panics on a
/// missing or unit-typed initializer; callers pass a constant built by
/// the three global builders above.
#[verifier::external_body]
pub(crate) fn kp_global_alloc(p: &mut koopa::ir::Program, init: koopa::ir::Value) -> koopa::ir::Value {
    p.new_value().global_alloc(init)
}

/// Builds the koopa type a memory type of the model denotes, from the
/// kind-checked constructors above; `is_value_type` bounds every array
/// length, so `kp_array_type`'s requirement holds.
pub(crate) fn build_type(t: &Ty) -> (r: koopa::ir::Type)
    requires
        t.is_value_type(),
    decreases *t,
{
    match t {
        Ty::I32 => kp_i32_type(),
        Ty::Array(elem, n) => {
            let base = build_type(elem);
            kp_array_type(base, *n)
        }
        _ => {
            proof {
                assert(false);
            }
            kp_i32_type()
        }
    }
}

} // verus!
