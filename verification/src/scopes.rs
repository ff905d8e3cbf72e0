use vstd::prelude::*;

use crate::error::Error;
use crate::symbol::SymInfo;
use crate::symbol::Symbol;

verus! {

/// The blocks a loop's `break` and `continue` jump to.
#[derive(Debug, Clone, Copy)]
pub struct LoopCtx {
    /// Where `break` leaves to: the block after the loop.
    pub(crate) break_bb: koopa::ir::BasicBlock,
    /// Where `continue` goes back to: the loop's condition block.
    pub(crate) cont_bb: koopa::ir::BasicBlock,
}

/// The function whose body is being lowered, and the block under
/// construction inside it.
#[derive(Debug, Clone, Copy)]
pub struct FuncCtx {
    /// The IR handle of the function.
    pub(crate) func: koopa::ir::Function,
    /// Whether the function was declared void.
    pub(crate) ret_void: bool,
    /// The block instructions are currently appended to.
    pub(crate) cur_bb: koopa::ir::BasicBlock,
}

/// What a scope binds, searched from its newest entry backwards.
pub open spec fn scope_find(s: Seq<(Seq<char>, SymInfo)>, name: Seq<char>) -> Option<SymInfo>
    decreases s.len(),
{
    if s.len() == 0 {
        None
    } else if s.last().0 == name {
        Some(s.last().1)
    } else {
        scope_find(s.drop_last(), name)
    }
}

/// Whether a scope binds the name at all.
pub open spec fn scope_has(s: Seq<(Seq<char>, SymInfo)>, name: Seq<char>) -> bool {
    scope_find(s, name) is Some
}

/// What a stack of scopes binds: the innermost scope is searched first,
/// so an inner binding shadows any outer one.
pub open spec fn scopes_find(ss: Seq<Seq<(Seq<char>, SymInfo)>>, name: Seq<char>) -> Option<SymInfo>
    decreases ss.len(),
{
    if ss.len() == 0 {
        None
    } else {
        match scope_find(ss.last(), name) {
            Some(si) => Some(si),
            None => scopes_find(ss.drop_last(), name),
        }
    }
}

/// A scope binds a name exactly when one of its entries carries it.
pub proof fn lemma_scope_find_exists(s: Seq<(Seq<char>, SymInfo)>, name: Seq<char>)
    ensures
        scope_has(s, name) <==> exists|k: int| 0 <= k < s.len() && (#[trigger] s[k]).0 == name,
    decreases s.len(),
{
    if s.len() > 0 {
        lemma_scope_find_exists(s.drop_last(), name);
        if s.last().0 == name {
        } else {
            assert(forall|k: int| 0 <= k < s.len() - 1 ==> #[trigger] s[k] == s.drop_last()[k]);
        }
    }
}

/// The names a scope binds, oldest first.
pub open spec fn scope_names(s: Seq<(Seq<char>, SymInfo)>) -> Seq<Seq<char>> {
    s.map_values(|p: (Seq<char>, SymInfo)| p.0)
}

/// A scope binds a name exactly when the name is among its names.
pub proof fn lemma_scope_has_names(s: Seq<(Seq<char>, SymInfo)>, name: Seq<char>)
    ensures
        scope_has(s, name) <==> scope_names(s).contains(name),
{
    lemma_scope_find_exists(s, name);
    if scope_has(s, name) {
        let k = choose|k: int| 0 <= k < s.len() && (#[trigger] s[k]).0 == name;
        assert(scope_names(s)[k] == name);
    }
    if scope_names(s).contains(name) {
        let k = choose|k: int| 0 <= k < scope_names(s).len() && scope_names(s)[k] == name;
        assert(s[k].0 == name);
    }
}

/// The shape of one entry: the name and the symbol with handles erased.
pub open spec fn entry_view(p: (String, Symbol)) -> (Seq<char>, SymInfo) {
    (p.0@, p.1.info())
}

/// The shape of one scope, entry by entry.
pub open spec fn scope_view(v: Seq<(String, Symbol)>) -> Seq<(Seq<char>, SymInfo)> {
    v.map_values(|p: (String, Symbol)| entry_view(p))
}

/// The nested symbol tables and loop contexts of the program under
/// generation.
///
/// The scope stack always holds at least the global scope. Within one
/// scope no name is bound twice; `define` rejects the attempt instead.
#[derive(Debug)]
pub struct Scopes {
    vals: Vec<Vec<(String, Symbol)>>,
    loops: Vec<LoopCtx>,
    cur: Option<FuncCtx>,
}

impl View for Scopes {
    type V = Seq<Seq<(Seq<char>, SymInfo)>>;

    closed spec fn view(&self) -> Seq<Seq<(Seq<char>, SymInfo)>> {
        self.vals@.map_values(|v: Vec<(String, Symbol)>| scope_view(v@))
    }
}

impl Scopes {
    /// The loop contexts in force, innermost last.
    pub closed spec fn spec_loops(self) -> Seq<LoopCtx> {
        self.loops@
    }

    /// The function being lowered, if any.
    pub closed spec fn spec_cur(self) -> Option<FuncCtx> {
        self.cur
    }

    /// A fresh scope manager: one empty global scope, no loops, no
    /// current function.
    pub fn new() -> (r: Scopes)
        ensures
            r@ == seq![Seq::<(Seq<char>, SymInfo)>::empty()],
            r.spec_loops() == Seq::<LoopCtx>::empty(),
            r.spec_cur() is None,
    {
        let vals: Vec<Vec<(String, Symbol)>> = vec![Vec::new()];
        let r = Scopes { vals, loops: Vec::new(), cur: None };
        proof {
            assert(scope_view(r.vals@[0]@) =~= Seq::<(Seq<char>, SymInfo)>::empty());
            assert(r@ =~= seq![Seq::<(Seq<char>, SymInfo)>::empty()]);
            assert(r.spec_loops() =~= Seq::<LoopCtx>::empty());
        }
        r
    }

    /// Opens a nested scope; later definitions land in it.
    pub fn enter_scope(&mut self)
        ensures
            final(self)@ == old(self)@.push(Seq::<(Seq<char>, SymInfo)>::empty()),
            final(self).spec_loops() == old(self).spec_loops(),
            final(self).spec_cur() == old(self).spec_cur(),
    {
        self.vals.push(Vec::new());
        proof {
            assert(scope_view(self.vals@.last()@) =~= Seq::<(Seq<char>, SymInfo)>::empty());
            assert(self@ =~= old(self)@.push(Seq::<(Seq<char>, SymInfo)>::empty()));
        }
    }

    /// Closes the innermost scope, forgetting its bindings; the global
    /// scope is never closed.
    pub fn exit_scope(&mut self)
        requires
            old(self)@.len() >= 2,
        ensures
            final(self)@ == old(self)@.drop_last(),
            final(self).spec_loops() == old(self).spec_loops(),
            final(self).spec_cur() == old(self).spec_cur(),
    {
        let _ = self.vals.pop();
        proof {
            assert(self@ =~= old(self)@.drop_last());
        }
    }

    /// Binds `name` in the innermost scope. Fails with `DuplicatedDef`,
    /// changing nothing, exactly when the innermost scope already binds
    /// `name`; a binding in an outer scope is legally shadowed.
    pub fn define(&mut self, name: String, sym: Symbol) -> (r: Result<(), Error>)
        requires
            old(self)@.len() >= 1,
        ensures
            final(self)@.len() == old(self)@.len(),
            final(self).spec_loops() == old(self).spec_loops(),
            final(self).spec_cur() == old(self).spec_cur(),
            match r {
                Ok(()) => !scope_has(old(self)@.last(), name@) && final(self)@ == old(self)@.update(
                    old(self)@.len() - 1,
                    old(self)@.last().push((name@, sym.info())),
                ),
                Err(e) => e == Error::DuplicatedDef && scope_has(old(self)@.last(), name@)
                    && final(self)@ == old(self)@,
            },
    {
        let n = self.vals.len();
        let ghost sv = scope_view(self.vals@[n - 1]@);
        let mut j: usize = self.vals[n - 1].len();
        while j > 0
            invariant
                n == self.vals.len(),
                n >= 1,
                j <= self.vals@[n - 1]@.len(),
                sv == scope_view(self.vals@[n - 1]@),
                forall|k: int| j <= k < sv.len() ==> (#[trigger] sv[k]).0 != name@,
            decreases j,
        {
            j = j - 1;
            if self.vals[n - 1][j].0 == name {
                proof {
                    lemma_scope_find_exists(old(self)@.last(), name@);
                    assert(old(self)@.last() == sv);
                    assert(sv[j as int].0 == name@);
                }
                return Err(Error::DuplicatedDef);
            }
        }
        proof {
            lemma_scope_find_exists(old(self)@.last(), name@);
            assert(old(self)@.last() == sv);
        }
        let ghost pre = self.vals@;
        let mut last = self.vals.pop().unwrap();
        last.push((name, sym));
        self.vals.push(last);
        proof {
            assert(self.vals@ =~= pre.update(n - 1, self.vals@.last()));
            assert(scope_view(self.vals@.last()@) =~= scope_view(pre[n - 1]@).push((name@, sym.info())));
            assert(self@ =~= old(self)@.update(
                old(self)@.len() - 1,
                old(self)@.last().push((name@, sym.info())),
            ));
        }
        Ok(())
    }

    /// Whether the innermost scope already binds `name`: the duplicate
    /// condition that `define` rejects.
    pub fn defined_in_current(&self, name: &String) -> (r: bool)
        requires
            self@.len() >= 1,
        ensures
            r == scope_has(self@.last(), name@),
    {
        let n = self.vals.len();
        let ghost sv = scope_view(self.vals@[n - 1]@);
        proof {
            assert(self@.last() == sv);
        }
        let mut j: usize = self.vals[n - 1].len();
        while j > 0
            invariant
                n == self.vals.len(),
                n >= 1,
                j <= self.vals@[n - 1]@.len(),
                sv == scope_view(self.vals@[n - 1]@),
                forall|k: int| j <= k < sv.len() ==> (#[trigger] sv[k]).0 != name@,
            decreases j,
        {
            j = j - 1;
            if self.vals[n - 1][j].0 == *name {
                proof {
                    assert(sv[j as int] == entry_view(self.vals@[n - 1]@[j as int]));
                    lemma_scope_find_exists(sv, name@);
                }
                return true;
            }
        }
        proof {
            lemma_scope_find_exists(sv, name@);
        }
        false
    }

    /// Resolves `name`, walking from the innermost scope to the global
    /// one. Fails with `SymbolNotFound` exactly when no scope binds it.
    pub fn lookup(&self, name: &String) -> (r: Result<&Symbol, Error>)
        ensures
            match r {
                Ok(sym) => scopes_find(self@, name@) == Some(sym.info()),
                Err(e) => e == Error::SymbolNotFound && scopes_find(self@, name@) is None,
            },
    {
        let mut i: usize = self.vals.len();
        proof {
            assert(self@.take(self.vals@.len() as int) =~= self@);
        }
        while i > 0
            invariant
                i <= self.vals@.len(),
                self@.len() == self.vals@.len(),
                scopes_find(self@, name@) == scopes_find(self@.take(i as int), name@),
            decreases i,
        {
            i = i - 1;
            let ghost sv = scope_view(self.vals@[i as int]@);
            let mut j: usize = self.vals[i].len();
            proof {
                assert(sv.take(sv.len() as int) =~= sv);
                assert(sv.len() == self.vals@[i as int]@.len());
            }
            while j > 0
                invariant
                    i < self.vals@.len(),
                    self@.len() == self.vals@.len(),
                    sv == scope_view(self.vals@[i as int]@),
                    j <= self.vals@[i as int]@.len(),
                    scope_find(sv, name@) == scope_find(sv.take(j as int), name@),
                    scopes_find(self@, name@) == scopes_find(self@.take(i + 1), name@),
                decreases j,
            {
                j = j - 1;
                proof {
                    assert(sv.take(j + 1).last() == sv[j as int]);
                    assert(sv.take(j + 1).drop_last() =~= sv.take(j as int));
                    assert(sv[j as int] == entry_view(self.vals@[i as int]@[j as int]));
                }
                if self.vals[i][j].0 == *name {
                    proof {
                        assert(scope_find(sv, name@) == Some(sv[j as int].1));
                        assert(self@.take(i + 1).last() == self@[i as int]);
                        assert(self@[i as int] == sv);
                    }
                    return Ok(&self.vals[i][j].1);
                }
            }
            proof {
                assert(sv.take(0) =~= Seq::<(Seq<char>, SymInfo)>::empty());
                assert(scope_find(sv, name@) is None);
                assert(self@.take(i + 1).last() == self@[i as int]);
                assert(self@.take(i + 1).drop_last() =~= self@.take(i as int));
            }
        }
        proof {
            assert(self@.take(0) =~= Seq::<Seq<(Seq<char>, SymInfo)>>::empty());
        }
        Err(Error::SymbolNotFound)
    }

    /// Records the blocks of a loop being entered; `break` and
    /// `continue` inside it target this, the innermost, entry.
    pub(crate) fn push_loop(&mut self, ctx: LoopCtx)
        ensures
            final(self)@ == old(self)@,
            final(self).spec_loops() == old(self).spec_loops().push(ctx),
            final(self).spec_cur() == old(self).spec_cur(),
    {
        self.loops.push(ctx);
    }

    /// Forgets the innermost loop on leaving its body.
    pub(crate) fn pop_loop(&mut self)
        requires
            old(self).spec_loops().len() >= 1,
        ensures
            final(self)@ == old(self)@,
            final(self).spec_loops() == old(self).spec_loops().drop_last(),
            final(self).spec_cur() == old(self).spec_cur(),
    {
        let _ = self.loops.pop();
        proof {
            assert(self.loops@ =~= old(self).loops@.drop_last());
        }
    }

    /// The innermost loop's blocks, or nothing outside every loop: the
    /// `NotInLoop` condition for `break` and `continue`.
    pub fn current_loop(&self) -> (r: Option<LoopCtx>)
        ensures
            self.spec_loops().len() == 0 ==> r is None,
            self.spec_loops().len() > 0 ==> r == Some(self.spec_loops().last()),
    {
        if self.loops.len() > 0 {
            Some(self.loops[self.loops.len() - 1])
        } else {
            None
        }
    }

    /// Enters a function: its body is lowered under this context.
    pub(crate) fn set_cur_func(&mut self, ctx: FuncCtx)
        ensures
            final(self)@ == old(self)@,
            final(self).spec_loops() == old(self).spec_loops(),
            final(self).spec_cur() == Some(ctx),
    {
        self.cur = Some(ctx);
    }

    /// Leaves the function once its body is lowered.
    pub(crate) fn clear_cur_func(&mut self)
        ensures
            final(self)@ == old(self)@,
            final(self).spec_loops() == old(self).spec_loops(),
            final(self).spec_cur() is None,
    {
        self.cur = None;
    }

    /// The function being lowered, if any.
    pub fn cur_func(&self) -> (r: Option<FuncCtx>)
        ensures
            r == self.spec_cur(),
    {
        self.cur
    }

    /// Moves instruction emission to another block of the current
    /// function.
    pub(crate) fn set_cur_bb(&mut self, bb: koopa::ir::BasicBlock)
        requires
            old(self).spec_cur() is Some,
        ensures
            final(self)@ == old(self)@,
            final(self).spec_loops() == old(self).spec_loops(),
            final(self).spec_cur() matches Some(c) && c.func == old(self).spec_cur().unwrap().func
                && c.ret_void == old(self).spec_cur().unwrap().ret_void && c.cur_bb == bb,
    {
        let c = self.cur.unwrap();
        self.cur = Some(FuncCtx { func: c.func, ret_void: c.ret_void, cur_bb: bb });
    }
}

/// Every symbol bound in any scope of the stack is sound in the sense
/// of `sym_wf`.
pub open spec fn scopes_wf(ss: Seq<Seq<(Seq<char>, SymInfo)>>) -> bool {
    forall|i: int, k: int| 0 <= i < ss.len() && 0 <= k < ss[i].len() ==> crate::symbol::sym_wf(
        (#[trigger] ss[i][k]).1,
    )
}

/// What one scope finds is one of its entries, so a scope of sound
/// symbols finds only sound symbols.
pub proof fn lemma_scope_find_wf(s: Seq<(Seq<char>, SymInfo)>, name: Seq<char>)
    requires
        forall|k: int| 0 <= k < s.len() ==> crate::symbol::sym_wf((#[trigger] s[k]).1),
    ensures
        scope_find(s, name) matches Some(si) ==> crate::symbol::sym_wf(si),
    decreases s.len(),
{
    if s.len() > 0 {
        assert(s.last() == s[s.len() - 1]);
        if s.last().0 != name {
            assert(forall|k: int| 0 <= k < s.len() - 1 ==> s.drop_last()[k] == s[k]);
            lemma_scope_find_wf(s.drop_last(), name);
        }
    }
}

/// What lookup finds in a sound stack of scopes is sound.
pub proof fn lemma_scopes_find_wf(ss: Seq<Seq<(Seq<char>, SymInfo)>>, name: Seq<char>)
    requires
        scopes_wf(ss),
    ensures
        scopes_find(ss, name) matches Some(si) ==> crate::symbol::sym_wf(si),
    decreases ss.len(),
{
    if ss.len() > 0 {
        assert(ss.last() == ss[ss.len() - 1]);
        lemma_scope_find_wf(ss.last(), name);
        assert(forall|i: int| 0 <= i < ss.len() - 1 ==> ss.drop_last()[i] == ss[i]);
        lemma_scopes_find_wf(ss.drop_last(), name);
    }
}

/// Binding a sound symbol keeps the stack sound.
pub proof fn lemma_define_keeps_wf(
    ss: Seq<Seq<(Seq<char>, SymInfo)>>,
    p: (Seq<char>, SymInfo),
)
    requires
        scopes_wf(ss),
        ss.len() >= 1,
        crate::symbol::sym_wf(p.1),
    ensures
        scopes_wf(ss.update(ss.len() - 1, ss.last().push(p))),
{
    let post = ss.update(ss.len() - 1, ss.last().push(p));
    assert forall|i: int, k: int| 0 <= i < post.len() && 0 <= k < post[i].len() implies crate::symbol::sym_wf(
        (#[trigger] post[i][k]).1,
    ) by {
        if i == post.len() - 1 {
            if k < ss.last().len() {
                assert(post[i][k] == ss[i][k]);
            } else {
                assert(post[i][k] == p);
            }
        } else {
            assert(post[i][k] == ss[i][k]);
        }
    }
}

/// Opening a scope keeps the stack sound.
pub proof fn lemma_enter_keeps_wf(ss: Seq<Seq<(Seq<char>, SymInfo)>>)
    requires
        scopes_wf(ss),
    ensures
        scopes_wf(ss.push(Seq::<(Seq<char>, SymInfo)>::empty())),
{
    let post = ss.push(Seq::<(Seq<char>, SymInfo)>::empty());
    assert forall|i: int, k: int| 0 <= i < post.len() && 0 <= k < post[i].len() implies crate::symbol::sym_wf(
        (#[trigger] post[i][k]).1,
    ) by {
        if i < ss.len() {
            assert(post[i][k] == ss[i][k]);
        }
    }
}

/// Closing a scope keeps the stack sound.
pub proof fn lemma_exit_keeps_wf(ss: Seq<Seq<(Seq<char>, SymInfo)>>)
    requires
        scopes_wf(ss),
        ss.len() >= 1,
    ensures
        scopes_wf(ss.drop_last()),
{
    let post = ss.drop_last();
    assert forall|i: int, k: int| 0 <= i < post.len() && 0 <= k < post[i].len() implies crate::symbol::sym_wf(
        (#[trigger] post[i][k]).1,
    ) by {
        assert(post[i][k] == ss[i][k]);
    }
}

/// Defining a name binds it: the scope that results from a successful
/// `define` has the name, so a second `define` of the same name in the
/// same scope meets its duplicate case and fails with `DuplicatedDef`.
pub proof fn lemma_redefine_is_duplicate(s: Seq<(Seq<char>, SymInfo)>, name: Seq<char>, si: SymInfo)
    ensures
        scope_has(s.push((name, si)), name),
        scope_find(s.push((name, si)), name) == Some(si),
{
    assert(s.push((name, si)).last() == (name, si));
}

/// Closing a scope forgets its bindings: after the scope pushed over
/// `ss` is dropped again, the stack is exactly `ss`, so a name defined
/// only in the dropped scope may be defined afresh without a duplicate.
pub proof fn lemma_closed_scope_forgets(ss: Seq<Seq<(Seq<char>, SymInfo)>>, inner: Seq<(Seq<char>, SymInfo)>)
    ensures
        ss.push(inner).drop_last() == ss,
{
    assert(ss.push(inner).drop_last() =~= ss);
}

/// An inner binding shadows an outer one: whatever the outer scopes
/// bind, a name bound by the innermost scope resolves to that binding.
pub proof fn lemma_lookup_shadows(
    ss: Seq<Seq<(Seq<char>, SymInfo)>>,
    inner: Seq<(Seq<char>, SymInfo)>,
    name: Seq<char>,
    si: SymInfo,
)
    requires
        scope_find(inner, name) == Some(si),
    ensures
        scopes_find(ss.push(inner), name) == Some(si),
{
    assert(ss.push(inner).last() == inner);
}

/// Lookup walks outward: a name the innermost scope does not bind
/// resolves exactly as it does in the enclosing scopes.
pub proof fn lemma_lookup_walks_outward(
    ss: Seq<Seq<(Seq<char>, SymInfo)>>,
    inner: Seq<(Seq<char>, SymInfo)>,
    name: Seq<char>,
)
    requires
        !scope_has(inner, name),
    ensures
        scopes_find(ss.push(inner), name) == scopes_find(ss, name),
{
    assert(ss.push(inner).last() == inner);
    assert(ss.push(inner).drop_last() =~= ss);
}

/// A name bound in no scope of the stack is not found at all: the
/// `SymbolNotFound` condition of `lookup`.
pub proof fn lemma_lookup_missing(ss: Seq<Seq<(Seq<char>, SymInfo)>>, name: Seq<char>)
    requires
        forall|i: int| 0 <= i < ss.len() ==> !scope_has(#[trigger] ss[i], name),
    ensures
        scopes_find(ss, name) is None,
    decreases ss.len(),
{
    if ss.len() > 0 {
        assert(ss.last() == ss[ss.len() - 1]);
        assert(forall|i: int| 0 <= i < ss.len() - 1 ==> ss.drop_last()[i] == ss[i]);
        lemma_lookup_missing(ss.drop_last(), name);
    }
}

} // verus!
