//! The chat panel's undo stack of files the agent overwrote: the most
//! recent writes, newest last, holding at most `UNDO_STACK_CAP` of them.

use std::collections::VecDeque;
use vstd::prelude::*;

verus! {

/// How many overwritten files the undo stack remembers.
pub const UNDO_STACK_CAP: usize = 10;

/// A bounded stack: pushing onto a full stack forgets its oldest entry.
pub struct UndoStack<T> {
    entries: VecDeque<T>,
}

impl<T> View for UndoStack<T> {
    type V = Seq<T>;

    /// The entries, oldest first.
    closed spec fn view(&self) -> Seq<T> {
        self.entries@
    }
}

/// The entries after pushing `x` onto `s`.
pub open spec fn pushed<T>(s: Seq<T>, x: T) -> Seq<T> {
    if s.len() >= UNDO_STACK_CAP {
        s.drop_first().push(x)
    } else {
        s.push(x)
    }
}

impl<T> UndoStack<T> {
    #[verifier::type_invariant]
    spec fn bounded(self) -> bool {
        self.entries@.len() <= UNDO_STACK_CAP
    }

    /// An empty stack.
    pub fn new() -> (r: Self)
        ensures
            r@ == Seq::<T>::empty(),
    {
        UndoStack { entries: VecDeque::new() }
    }

    /// How many entries the stack holds; never more than `UNDO_STACK_CAP`.
    pub fn len(&self) -> (r: usize)
        ensures
            r == self@.len(),
            r <= UNDO_STACK_CAP,
    {
        proof {
            use_type_invariant(self);
        }
        self.entries.len()
    }

    /// Remember `x` as the most recent entry, forgetting the oldest one
    /// when the stack is full.
    pub fn push(&mut self, x: T)
        ensures
            final(self)@ == pushed(old(self)@, x),
    {
        proof {
            use_type_invariant(&*self);
        }
        let mut entries = VecDeque::new();
        std::mem::swap(&mut entries, &mut self.entries);
        if entries.len() >= UNDO_STACK_CAP {
            let _ = entries.pop_front();
        }
        entries.push_back(x);
        proof {
            assert(entries@ =~= pushed(old(self)@, x));
        }
        self.entries = entries;
    }

    /// Take the most recent entry, or `None` when the stack is empty.
    pub fn pop(&mut self) -> (r: Option<T>)
        ensures
            old(self)@.len() == 0 ==> r is None && final(self)@ == old(self)@,
            old(self)@.len() > 0 ==> r == Some(old(self)@.last()) && final(self)@ == old(self)@.drop_last(),
    {
        proof {
            use_type_invariant(&*self);
        }
        let mut entries = VecDeque::new();
        std::mem::swap(&mut entries, &mut self.entries);
        let r = entries.pop_back();
        self.entries = entries;
        r
    }
}

/// Popping right after a push gives back what was pushed, and leaves the
/// stack as it was, but for its oldest entry when the push found it full.
pub proof fn lemma_push_then_pop<T>(s: Seq<T>, x: T)
    ensures
        pushed(s, x).len() > 0,
        pushed(s, x).last() == x,
        pushed(s, x).drop_last() == (if s.len() >= UNDO_STACK_CAP {
            s.drop_first()
        } else {
            s
        }),
{
    if s.len() >= UNDO_STACK_CAP {
        assert(s.drop_first().push(x).drop_last() =~= s.drop_first());
    } else {
        assert(s.push(x).drop_last() =~= s);
    }
}

/// No sequence of pushes lets the stack grow past `UNDO_STACK_CAP`.
pub proof fn lemma_pushed_bounded<T>(s: Seq<T>, x: T)
    requires
        s.len() <= UNDO_STACK_CAP,
    ensures
        pushed(s, x).len() <= UNDO_STACK_CAP,
        s.len() < UNDO_STACK_CAP ==> pushed(s, x).len() == s.len() + 1,
{
}

} // verus!
