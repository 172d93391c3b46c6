//! The table of block-scoped variables.
//!
//! Locals live in stack slots: the local at index `i` of the table lives in
//! slot `i` of the machine's stack.

use vstd::prelude::*;
use crate::helpers::str_equal;

verus! {

/// The most locals that can be live at once: an instruction names a slot by
/// one byte.
pub const MAX_LOCALS: usize = 256;

/// The depth of a local that was declared and whose initializer has not
/// been compiled yet.
pub const UNINITIALIZED: i8 = -1;

/// A block-scoped variable: its name and the depth of the scope that
/// declared it, or [`UNINITIALIZED`].
pub struct Local {
    pub name: String,
    pub depth: i8,
}

/// A local, with its name as a sequence of characters.
pub struct LocalView {
    pub name: Seq<char>,
    pub depth: i8,
}

impl View for Local {
    type V = LocalView;

    open spec fn view(&self) -> LocalView {
        LocalView { name: self.name@, depth: self.depth }
    }
}

impl Local {
    pub fn new(name: String, depth: i8) -> (r: Self)
        ensures
            r@ == (LocalView { name: name@, depth }),
    {
        Self { name, depth }
    }
}

/// The locals in scope, innermost last, and the depth of the current scope
/// (0 is the global scope, which holds no locals).
pub struct LocalScope {
    pub scope_depth: i8,
    pub locals: Vec<Local>,
}

/// The table as a mathematical value.
pub struct ScopeView {
    pub scope_depth: i8,
    pub locals: Seq<LocalView>,
}

/// The depth of the scope that a local belongs to: an uninitialized local
/// belongs to the scope that is current.
pub open spec fn scope_of(local: LocalView, scope_depth: i8) -> i8 {
    if local.depth == UNINITIALIZED {
        scope_depth
    } else {
        local.depth
    }
}

/// The number of locals at the end of the table that belong to the scope at
/// `depth`.
pub open spec fn count_of_scope(locals: Seq<LocalView>, depth: i8) -> nat
    decreases locals.len(),
{
    if locals.len() == 0 {
        0
    } else if scope_of(locals.last(), depth) >= depth {
        1 + count_of_scope(locals.drop_last(), depth)
    } else {
        0
    }
}

impl ScopeView {
    /// The invariant of the table: the global scope holds no locals, the
    /// locals are ordered by scope, and no scope holds two locals of one
    /// name.
    #[verifier::opaque]
    pub open spec fn wf(self) -> bool {
        &&& 0 <= self.scope_depth
        &&& self.locals.len() <= MAX_LOCALS
        &&& forall|i: int|
            0 <= i < self.locals.len() ==> 1 <= scope_of(#[trigger] self.locals[i], self.scope_depth)
                <= self.scope_depth
        &&& forall|i: int, j: int|
            0 <= i <= j < self.locals.len() ==> scope_of(#[trigger] self.locals[i], self.scope_depth)
                <= scope_of(#[trigger] self.locals[j], self.scope_depth)
        &&& forall|i: int, j: int|
            0 <= i < j < self.locals.len() && (#[trigger] self.locals[i]).name
                == (#[trigger] self.locals[j]).name ==> scope_of(
                self.locals[i],
                self.scope_depth,
            ) != scope_of(self.locals[j], self.scope_depth)
    }

    /// Every local has its initializer behind it.
    #[verifier::opaque]
    pub open spec fn settled(self) -> bool {
        forall|i: int| 0 <= i < self.locals.len() ==> (#[trigger] self.locals[i]).depth
            != UNINITIALIZED
    }

    /// Every local but the last one has its initializer behind it.
    #[verifier::opaque]
    pub open spec fn settled_below_top(self) -> bool {
        forall|i: int| 0 <= i < self.locals.len() - 1 ==> (#[trigger] self.locals[i]).depth
            != UNINITIALIZED
    }

    /// Whether the current scope holds a local of this name.
    pub open spec fn declares(self, name: Seq<char>) -> bool {
        exists|i: int|
            0 <= i < self.locals.len() && (#[trigger] self.locals[i]).name == name && scope_of(
                self.locals[i],
                self.scope_depth,
            ) >= self.scope_depth
    }

    /// Whether slot `i` is the innermost local of this name.
    pub open spec fn resolves_to(self, name: Seq<char>, i: int) -> bool {
        &&& 0 <= i < self.locals.len()
        &&& self.locals[i].name == name
        &&& forall|j: int| i < j < self.locals.len() ==> (#[trigger] self.locals[j]).name != name
    }

    /// Whether any local has this name.
    pub open spec fn knows(self, name: Seq<char>) -> bool {
        exists|i: int| 0 <= i < self.locals.len() && (#[trigger] self.locals[i]).name == name
    }
}

impl View for LocalScope {
    type V = ScopeView;

    open spec fn view(&self) -> ScopeView {
        ScopeView {
            scope_depth: self.scope_depth,
            locals: self.locals@.map_values(|l: Local| l@),
        }
    }
}

impl LocalScope {
    /// The invariant of the table.
    pub open spec fn wf(&self) -> bool {
        self@.wf()
    }

    /// The empty table at global scope.
    pub fn new() -> (r: Self)
        ensures
            r.wf(),
            r@.settled(),
            r@.scope_depth == 0,
            r@.locals == Seq::<LocalView>::empty(),
    {
        reveal(ScopeView::wf);
        reveal(ScopeView::settled);
        let r = Self { locals: Vec::new(), scope_depth: 0 };
        assert(r@.locals =~= Seq::<LocalView>::empty());
        r
    }

    /// Enters a block.
    pub fn begin_scope(&mut self)
        requires
            old(self).wf(),
            old(self).scope_depth < i8::MAX,
            old(self)@.settled(),
        ensures
            final(self).wf(),
            final(self)@.settled(),
            final(self)@.scope_depth == old(self)@.scope_depth + 1,
            final(self)@.scope_depth > 0,
            final(self)@.locals == old(self)@.locals,
    {
        reveal(ScopeView::wf);
        reveal(ScopeView::settled);
        self.scope_depth += 1;
    }

    /// Leaves a block: discards the locals of the scope that ends and
    /// returns how many they were.
    pub fn end_scope(&mut self) -> (count: usize)
        requires
            old(self).wf(),
            old(self).scope_depth > 0,
        ensures
            final(self).wf(),
            final(self)@.scope_depth == old(self)@.scope_depth - 1,
            count == count_of_scope(old(self)@.locals, old(self)@.scope_depth),
            count <= old(self)@.locals.len(),
            old(self)@.locals.len() <= MAX_LOCALS,
            final(self)@.locals == old(self)@.locals.take(old(self)@.locals.len() - count),
            final(self)@.settled(),
    {
        reveal(ScopeView::wf);
        reveal(ScopeView::settled);
        self.scope_depth -= 1;
        let mut counts: usize = 0;
        assert(self@.locals =~= old(self)@.locals.take(old(self)@.locals.len() - 0));
        while self.locals.len() > 0 && (self.locals[self.locals.len() - 1].depth > self.scope_depth
            || self.locals[self.locals.len() - 1].depth == UNINITIALIZED)
            invariant
                old(self).wf(),
                self.scope_depth == old(self).scope_depth - 1,
                counts <= old(self)@.locals.len(),
                self@.locals == old(self)@.locals.take(old(self)@.locals.len() - counts),
                count_of_scope(old(self)@.locals, old(self).scope_depth) == counts
                    + count_of_scope(self@.locals, old(self).scope_depth),
            decreases self.locals@.len(),
        {
            proof {
                reveal(ScopeView::wf);
                assert(self@.locals.last() == old(self)@.locals[self@.locals.len() - 1]);
                assert(scope_of(self@.locals.last(), old(self).scope_depth) >= 1);
                assert(self@.locals.drop_last() =~= old(self)@.locals.take(
                    old(self)@.locals.len() - counts - 1,
                ));
            }
            self.locals.pop();
            counts += 1;
            assert(self@.locals =~= old(self)@.locals.take(old(self)@.locals.len() - counts));
        }
        proof {
            lemma_rest_is_shallow(old(self)@, self@, counts as int);
        }
        counts
    }

    /// Declares a local of the current scope; it is uninitialized until
    /// [`LocalScope::mark_initialized`] is called.
    pub fn add_local(&mut self, name: &String)
        requires
            old(self).wf(),
            old(self).scope_depth > 0,
            old(self)@.locals.len() < MAX_LOCALS,
            !old(self)@.declares(name@),
        ensures
            final(self).wf(),
            final(self)@.scope_depth == old(self)@.scope_depth,
            final(self)@.locals == old(self)@.locals.push(
                LocalView { name: name@, depth: UNINITIALIZED },
            ),
            old(self)@.settled() ==> final(self)@.settled_below_top(),
    {
        reveal(ScopeView::wf);
        reveal(ScopeView::settled);
        reveal(ScopeView::settled_below_top);
        let local = Local::new(name.clone(), UNINITIALIZED);
        self.locals.push(local);
        proof {
            let pushed = LocalView { name: name@, depth: UNINITIALIZED };
            assert(self@.locals =~= old(self)@.locals.push(pushed));
            assert forall|i: int, j: int|
                0 <= i < j < self@.locals.len() && (#[trigger] self@.locals[i]).name
                    == (#[trigger] self@.locals[j]).name implies scope_of(
                self@.locals[i],
                self@.scope_depth,
            ) != scope_of(self@.locals[j], self@.scope_depth) by {
                if j == self@.locals.len() - 1 {
                    assert(old(self)@.locals[i].name == name@);
                }
            }
        }
    }

    /// Makes the local that was declared last usable: it now belongs to the
    /// current scope. Does nothing where no local awaits its initializer.
    pub fn mark_initialized(&mut self)
        requires
            old(self).wf(),
        ensures
            final(self).wf(),
            final(self)@.scope_depth == old(self)@.scope_depth,
            final(self)@.locals == if old(self)@.locals.len() > 0 && old(self)@.locals.last().depth
                == UNINITIALIZED {
                old(self)@.locals.update(
                    old(self)@.locals.len() - 1,
                    LocalView {
                        name: old(self)@.locals.last().name,
                        depth: old(self)@.scope_depth,
                    },
                )
            } else {
                old(self)@.locals
            },
            old(self)@.settled_below_top() ==> final(self)@.settled(),
    {
        reveal(ScopeView::wf);
        reveal(ScopeView::settled);
        reveal(ScopeView::settled_below_top);
        let n = self.locals.len();
        if n > 0 && self.locals[n - 1].depth == UNINITIALIZED {
            let name = self.locals[n - 1].name.clone();
            let depth = self.scope_depth;
            self.locals.set(n - 1, Local::new(name, depth));
            proof {
                assert(self@.locals =~= old(self)@.locals.update(
                    n - 1,
                    LocalView { name: old(self)@.locals.last().name, depth },
                ));
                assert forall|i: int| 0 <= i < self@.locals.len() implies scope_of(
                    #[trigger] self@.locals[i],
                    self@.scope_depth,
                ) == scope_of(old(self)@.locals[i], old(self)@.scope_depth) by {}
            }
        }
    }

    /// Whether the current scope holds a local of this name.
    pub fn contains(&self, name: &str) -> (r: bool)
        ensures
            r == self@.declares(name@),
    {
        let mut counter: usize = self.locals.len();
        while counter > 0
            invariant
                counter <= self.locals@.len(),
                forall|i: int|
                    counter <= i < self.locals@.len() ==> !((#[trigger] self@.locals[i]).name
                        == name@ && scope_of(self@.locals[i], self@.scope_depth)
                        >= self@.scope_depth),
            decreases counter,
        {
            counter -= 1;
            let l = &self.locals[counter];
            if (l.depth == UNINITIALIZED || l.depth >= self.scope_depth) && str_equal(
                l.name.as_str(),
                name,
            ) {
                assert(self@.locals[counter as int] == l@);
                return true;
            }
            assert(self@.locals[counter as int] == l@);
        }
        false
    }

    /// The slot of the innermost local of this name, if there is one.
    pub fn resolve_local(&self, name: &str) -> (r: Option<u8>)
        requires
            self.wf(),
        ensures
            match r {
                Some(slot) => self@.resolves_to(name@, slot as int),
                None => !self@.knows(name@),
            },
    {
        reveal(ScopeView::wf);
        let mut counter: usize = self.locals.len();
        while counter > 0
            invariant
                counter <= self.locals@.len(),
                self.locals@.len() <= MAX_LOCALS,
                forall|i: int|
                    counter <= i < self.locals@.len() ==> (#[trigger] self@.locals[i]).name
                        != name@,
            decreases counter,
        {
            counter -= 1;
            let l = &self.locals[counter];
            assert(self@.locals[counter as int] == l@);
            if str_equal(l.name.as_str(), name) {
                return Some(counter as u8);
            }
        }
        None
    }

    /// Whether the local in a slot still awaits its initializer.
    pub fn is_uninitialized(&self, slot: u8) -> (r: bool)
        ensures
            r == (slot < self@.locals.len() && self@.locals[slot as int].depth == UNINITIALIZED),
    {
        let i = slot as usize;
        if i < self.locals.len() {
            assert(self@.locals[i as int] == self.locals@[i as int]@);
            self.locals[i].depth == UNINITIALIZED
        } else {
            false
        }
    }
}

/// Where every local has its initializer behind it, so has every local but
/// the last.
pub proof fn lemma_settled_below_top(scope: ScopeView)
    requires
        scope.settled(),
    ensures
        scope.settled_below_top(),
{
    reveal(ScopeView::settled);
    reveal(ScopeView::settled_below_top);
}

/// A well-formed table is at global scope or inside a block, and holds no
/// more locals than there are slots.
pub proof fn lemma_scope_bounds(scope: ScopeView)
    requires
        scope.wf(),
    ensures
        scope.scope_depth >= 0,
        scope.locals.len() <= MAX_LOCALS,
{
    reveal(ScopeView::wf);
}

/// No scope holds two locals of one name: two slots with the same name
/// that belong to the same scope are one slot.
pub proof fn lemma_one_slot_per_name_and_scope(scope: ScopeView, i: int, j: int)
    requires
        scope.wf(),
        0 <= i < scope.locals.len(),
        0 <= j < scope.locals.len(),
        scope.locals[i].name == scope.locals[j].name,
        scope_of(scope.locals[i], scope.scope_depth) == scope_of(
            scope.locals[j],
            scope.scope_depth,
        ),
    ensures
        i == j,
{
    reveal(ScopeView::wf);
}

/// A name resolves to at most one slot.
pub proof fn lemma_resolution_is_unique(scope: ScopeView, name: Seq<char>, i: int, j: int)
    requires
        scope.resolves_to(name, i),
        scope.resolves_to(name, j),
    ensures
        i == j,
{
    if i < j {
        assert(scope.locals[j].name != name);
    }
    if j < i {
        assert(scope.locals[i].name != name);
    }
}

/// After the locals of the ended scope are gone, none of the rest is deeper
/// than the scope that is current again, and none is uninitialized.
proof fn lemma_rest_is_shallow(before: ScopeView, after: ScopeView, count: int)
    requires
        before.wf(),
        before.scope_depth > 0,
        after.scope_depth == before.scope_depth - 1,
        0 <= count <= before.locals.len(),
        after.locals == before.locals.take(before.locals.len() - count),
        after.locals.len() > 0 ==> !(after.locals.last().depth > after.scope_depth
            || after.locals.last().depth == UNINITIALIZED),
        count_of_scope(before.locals, before.scope_depth) == count + count_of_scope(
            after.locals,
            before.scope_depth,
        ),
    ensures
        after.wf(),
        count_of_scope(before.locals, before.scope_depth) == count,
        after.settled(),
{
    reveal(ScopeView::wf);
    reveal(ScopeView::settled);
    if after.locals.len() > 0 {
        let last = after.locals.len() - 1;
        assert forall|i: int| 0 <= i < after.locals.len() implies (#[trigger] after.locals[i]).depth
            != UNINITIALIZED && after.locals[i].depth <= after.scope_depth by {
            assert(after.locals[i] == before.locals[i]);
            assert(after.locals[last] == before.locals[last]);
            if i < last {
                assert(scope_of(before.locals[i], before.scope_depth) <= scope_of(
                    before.locals[last],
                    before.scope_depth,
                ));
            }
        }
    }
    assert forall|i: int| 0 <= i < after.locals.len() implies after.locals[i]
        == before.locals[i] by {}
}

} // verus!
