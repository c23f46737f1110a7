//! The stack of active runtime scopes of one thread.
use crate::base::id::ScopeId;
use crate::seqs::{is_last, last_pos, lemma_last_pos_found, lemma_last_pos_none};
use vstd::prelude::*;

verus! {

/// The active scopes of one thread, innermost last.
#[derive(Debug)]
pub struct ScopeStack {
    ids: Vec<ScopeId>,
}

impl View for ScopeStack {
    type V = Seq<ScopeId>;

    closed spec fn view(&self) -> Seq<ScopeId> {
        self.ids@
    }
}

/// The element predicate "is `id`".
pub open spec fn is_id(id: ScopeId) -> spec_fn(ScopeId) -> bool {
    |x: ScopeId| x == id
}

/// The innermost active scope.
pub open spec fn top(s: Seq<ScopeId>) -> Option<ScopeId> {
    if s.len() > 0 {
        Some(s.last())
    } else {
        None
    }
}

/// `s` without its last occurrence of `id`.
pub open spec fn remove_last_occurrence(s: Seq<ScopeId>, id: ScopeId) -> Seq<ScopeId> {
    match last_pos(s, is_id(id)) {
        Some(i) => s.remove(i),
        None => s,
    }
}

impl ScopeStack {
    /// An empty stack.
    pub fn new() -> (s: Self)
        ensures
            s@ == Seq::<ScopeId>::empty(),
    {
        ScopeStack { ids: Vec::new() }
    }

    /// Make `id` the innermost active scope.
    pub fn push(&mut self, id: ScopeId)
        ensures
            final(self)@ == old(self)@.push(id),
    {
        self.ids.push(id);
    }

    /// Forget every active scope.
    pub fn clear(&mut self)
        ensures
            final(self)@ == Seq::<ScopeId>::empty(),
    {
        self.ids.clear();
    }
}

/// The innermost active scope of the thread.
pub fn current_scope(stack: &ScopeStack) -> (r: Option<ScopeId>)
    ensures
        r == top(stack@),
{
    let n = stack.ids.len();
    if n > 0 {
        Some(stack.ids[n - 1])
    } else {
        None
    }
}

/// Remove scope `id` from the stack: the top when it is `id`, otherwise its
/// last occurrence, if any.
pub fn remove_scope_from_stack(stack: &mut ScopeStack, id: ScopeId)
    ensures
        final(stack)@ == remove_last_occurrence(old(stack)@, id),
{
    let n = stack.ids.len();
    if n > 0 && stack.ids[n - 1] == id {
        proof {
            assert(is_last(stack@, is_id(id), n - 1));
            lemma_last_pos_found(stack@, is_id(id), n - 1);
        }
        stack.ids.pop();
        assert(stack@ =~= remove_last_occurrence(old(stack)@, id));
        return;
    }
    let mut i: usize = n;
    while i > 0
        invariant
            i <= n,
            n == stack.ids@.len(),
            stack@ == old(stack)@,
            forall|j: int| i <= j < n ==> !is_id(id)(#[trigger] stack.ids@[j]),
        decreases i,
    {
        if stack.ids[i - 1] == id {
            proof {
                assert(is_last(stack@, is_id(id), i - 1));
                lemma_last_pos_found(stack@, is_id(id), i - 1);
            }
            stack.ids.remove(i - 1);
            assert(stack@ =~= remove_last_occurrence(old(stack)@, id));
            return;
        }
        i = i - 1;
    }
    proof {
        lemma_last_pos_none(stack@, is_id(id));
    }
}

/// Entering a scope and then leaving it restores the stack: the scope that
/// was innermost before is innermost again.
pub proof fn lemma_enter_exit_restores(s: Seq<ScopeId>, id: ScopeId)
    ensures
        remove_last_occurrence(s.push(id), id) == s,
        top(remove_last_occurrence(s.push(id), id)) == top(s),
{
    let t = s.push(id);
    assert(is_last(t, is_id(id), s.len() as int));
    lemma_last_pos_found(t, is_id(id), s.len() as int);
    assert(t.remove(s.len() as int) =~= s);
}

} // verus!
