use vstd::prelude::*;

use crate::types::Ty;

verus! {

/// A compile-time constant: an integer, or a folded array of constants.
#[derive(Debug, PartialEq, Eq)]
pub enum ConstVal {
    /// A folded integer.
    Int(i32),
    /// A folded array, one entry per element.
    List(Vec<ConstVal>),
}

/// The mathematical value of a [`ConstVal`].
pub enum ConstModel {
    Int(i32),
    List(Seq<ConstModel>),
}

/// The mathematical value of a folded constant.
pub open spec fn cv_view(cv: ConstVal) -> ConstModel
    decreases cv,
{
    match cv {
        ConstVal::Int(n) => ConstModel::Int(n),
        ConstVal::List(elems) => ConstModel::List(cv_list_view(elems@)),
    }
}

/// The mathematical values of a sequence of folded constants.
pub open spec fn cv_list_view(s: Seq<ConstVal>) -> Seq<ConstModel>
    decreases s,
{
    if s.len() == 0 {
        Seq::empty()
    } else {
        cv_list_view(s.drop_last()).push(cv_view(s.last()))
    }
}

/// The element view of `cv_list_view`: it maps each entry in place.
pub proof fn lemma_cv_list_view(s: Seq<ConstVal>)
    ensures
        cv_list_view(s).len() == s.len(),
        forall|i: int| 0 <= i < s.len() ==> #[trigger] cv_list_view(s)[i] == cv_view(s[i]),
    decreases s.len(),
{
    if s.len() > 0 {
        lemma_cv_list_view(s.drop_last());
        assert forall|i: int| 0 <= i < s.len() implies #[trigger] cv_list_view(s)[i] == cv_view(s[i]) by {
            if i < s.len() - 1 {
                assert(cv_list_view(s)[i] == cv_list_view(s.drop_last())[i]);
                assert(s.drop_last()[i] == s[i]);
            }
        }
    }
}

/// What the checker knows of a symbol, with the IR handles erased.
pub enum SymInfo {
    /// A compile-time constant and its folded value.
    Const(ConstModel),
    /// A variable slot holding a value of the given type.
    Var(Ty),
    /// A function of the given function type.
    Func(Ty),
}

/// A sound symbol: a variable holds a type whose values live in
/// memory, and a function holds a function type whose return is the
/// integer or nothing.
pub open spec fn sym_wf(si: SymInfo) -> bool {
    match si {
        SymInfo::Const(_) => true,
        SymInfo::Var(t) => t.is_value_type(),
        SymInfo::Func(t) => t matches Ty::Function(_, ret) && (*ret == Ty::I32 || *ret
            == Ty::Unit),
    }
}

/// A value handle of the program under generation. Only the generator
/// creates one, so a handle always names a slot of the program being
/// built — no caller can pair a foreign handle with this program.
#[derive(Debug, Clone, Copy)]
pub struct ValueHandle {
    pub(crate) v: koopa::ir::Value,
}

/// A function handle of the program under generation; unforgeable for
/// the same reason.
#[derive(Debug, Clone, Copy)]
pub struct FuncHandle {
    pub(crate) f: koopa::ir::Function,
}

/// A symbol of the program under generation: either a compile-time
/// constant or a handle into the IR program, together with its type.
#[derive(Debug)]
pub enum Symbol {
    /// A compile-time constant.
    Const(ConstVal),
    /// A mutable slot: the handle points at storage of the given type.
    Var(ValueHandle, Ty),
    /// A function: the handle names an IR function of the given type.
    Func(FuncHandle, Ty),
}

impl Symbol {
    /// The compile-time face of this symbol.
    pub open spec fn info(self) -> SymInfo {
        match self {
            Symbol::Const(cv) => SymInfo::Const(cv_view(cv)),
            Symbol::Var(_, ty) => SymInfo::Var(ty),
            Symbol::Func(_, ty) => SymInfo::Func(ty),
        }
    }
}

} // verus!
