//! A generic stack over an owned chain of boxed nodes, with a consuming, a
//! borrowing and a mutably borrowing iterator.
use vstd::prelude::*;
use crate::stack_model::{top, popped, target_of};

verus! {

/// A last-in, first-out stack that owns its chain of nodes.
pub struct OkayStack<T> {
    head: Link<T>,
}

/// One link of a chain: a value and the rest of the chain, which it owns.
pub struct Node<T> {
    elem: T,
    next: Link<T>,
}

type Link<T> = Option<Box<Node<T>>>;

/// The values held by a chain of nodes, the head first.
spec fn link_seq<T>(l: Link<T>) -> Seq<T>
    decreases l,
{
    match l {
        None => Seq::empty(),
        Some(node) => seq![node.elem] + link_seq(node.next),
    }
}

/// Moves the link out of `slot`, leaving `None` in its place in the same step.
fn take_link<T>(slot: &mut Link<T>) -> (r: Link<T>)
    ensures
        r == *old(slot),
        *final(slot) is None,
    opens_invariants none
    no_unwind
{
    let mut out: Link<T> = None;
    core::mem::swap(slot, &mut out);
    out
}

impl<T> Node<T> {
    /// The values of the chain that starts at this node.
    pub closed spec fn values(&self) -> Seq<T> {
        seq![self.elem] + link_seq(self.next)
    }
}

impl<T> View for OkayStack<T> {
    type V = Seq<T>;

    /// The values on the stack, the top first.
    closed spec fn view(&self) -> Seq<T> {
        link_seq(self.head)
    }
}

impl<T> OkayStack<T> {
    /// An empty stack; nothing is allocated.
    pub fn new() -> (s: Self)
        ensures
            s@ == Seq::<T>::empty(),
    {
        OkayStack { head: None }
    }

    /// Puts `value` on top of the stack.
    pub fn push(&mut self, value: T)
        ensures
            final(self)@ == seq![value] + old(self)@,
    {
        let new_node = Box::new(Node { elem: value, next: self.head.take() });
        self.head = Some(new_node);
    }

    /// Takes the top value off the stack; `None` when the stack is empty.
    pub fn pop(&mut self) -> (r: Option<T>)
        ensures
            r == top(old(self)@),
            final(self)@ == popped(old(self)@),
    {
        match self.head.take() {
            None => None,
            Some(node) => {
                self.head = node.next;
                proof {
                    assert(old(self)@.drop_first() =~= link_seq(self.head));
                }
                Some(node.elem)
            },
        }
    }

    /// A view of the top value; `None` when the stack is empty.
    pub fn peek(&self) -> (r: Option<&T>)
        ensures
            target_of(r) == top(self@),
    {
        match &self.head {
            None => None,
            Some(node) => Some(&node.elem),
        }
    }

    /// An exclusive view of the top value; `None` when the stack is empty.
    /// What is written through it is the stack's new top value.
    pub fn peek_mut(&mut self) -> (r: Option<&mut T>)
        ensures
            old(self)@.len() == 0 ==> r is None && final(self)@ == old(self)@,
            old(self)@.len() > 0 ==> r is Some && *r->0 == old(self)@[0]
                && final(self)@ == old(self)@.update(0, *final(r->0)),
    {
        match &mut self.head {
            None => None,
            Some(node) => Some(&mut node.elem),
        }
    }
}

impl<T> OkayStack<T> {
    /// Empties the stack by breaking its chain one link at a time, from the
    /// head down, so that no step recurses over the rest of the chain.
    /// Returns the number of links broken: one per value that was held.
    pub fn clear(&mut self) -> (steps: Ghost<nat>)
        ensures
            steps@ == old(self)@.len(),
            final(self)@ == Seq::<T>::empty(),
        opens_invariants none
        no_unwind
    {
        let cur_link = take_link(&mut self.head);
        unlink_chain(cur_link)
    }
}

impl<T> Drop for OkayStack<T> {
    /// Tears the chain down one link at a time rather than by nested drops.
    fn drop(&mut self)
        ensures
            final(self)@ == Seq::<T>::empty(),
        opens_invariants none
        no_unwind
    {
        let _ = self.clear();
    }
}

/// Breaks a chain link by link, so that dropping a long chain does not
/// recurse once per node. Returns the number of links it broke.
fn unlink_chain<T>(head: Link<T>) -> (steps: Ghost<nat>)
    ensures
        steps@ == link_seq(head).len(),
    opens_invariants none
    no_unwind
{
    let ghost n = link_seq(head).len();
    let ghost mut count: nat = 0;
    let mut cur_link = head;
    loop
        invariant
            count + link_seq(cur_link).len() == n,
        ensures
            count == n,
        decreases link_seq(cur_link).len(),
    {
        match cur_link {
            None => break,
            Some(mut box_node) => {
                cur_link = take_link(&mut box_node.next);
                proof {
                    count = count + 1;
                }
            },
        }
    }
    Ghost(count)
}

/// A by-value traversal: each step pops the top value of the stack it owns.
pub struct IntoIter<T>(OkayStack<T>);

impl<T> View for IntoIter<T> {
    type V = Seq<T>;

    /// The values still to come, the next one first.
    closed spec fn view(&self) -> Seq<T> {
        self.0@
    }
}

impl<T> OkayStack<T> {
    /// Turns the stack into a traversal that yields its values top first.
    pub fn into_iter(self) -> (r: IntoIter<T>)
        ensures
            r@ == self@,
    {
        IntoIter(self)
    }
}

impl<T> IntoIter<T> {
    /// The next value, taken off the stack; `None` once it is empty.
    pub fn next(&mut self) -> (r: Option<T>)
        ensures
            r == top(old(self)@),
            final(self)@ == popped(old(self)@),
    {
        self.0.pop()
    }
}

/// A read-only traversal over the values of a stack, top first.
pub struct Iter<'a, T> {
    next: Option<&'a Node<T>>,
}

impl<'a, T> View for Iter<'a, T> {
    type V = Seq<T>;

    /// The values still to come, the next one first.
    closed spec fn view(&self) -> Seq<T> {
        match self.next {
            None => Seq::empty(),
            Some(node) => seq![node.elem] + link_seq(node.next),
        }
    }
}

impl<T> OkayStack<T> {
    /// A read-only traversal of the stack's values, top first.
    pub fn iter(&self) -> (r: Iter<'_, T>)
        ensures
            r@ == self@,
    {
        Iter {
            next: match &self.head {
                None => None,
                Some(node) => Some(&**node),
            },
        }
    }
}

impl<'a, T> Iter<'a, T> {
    /// A view of the next value; `None` once the values are used up.
    pub fn next(&mut self) -> (r: Option<&'a T>)
        ensures
            target_of(r) == top(old(self)@),
            final(self)@ == popped(old(self)@),
    {
        match self.next {
            None => None,
            Some(node) => {
                self.next = match &node.next {
                    None => None,
                    Some(n) => Some(&**n),
                };
                proof {
                    assert(old(self)@.drop_first() =~= self@);
                }
                Some(&node.elem)
            },
        }
    }
}

/// A traversal over the values of a stack, top first, that hands out an
/// exclusive view of each value in turn.
pub struct IterMut<'a, T> {
    next: Option<&'a mut Node<T>>,
}

impl<'a, T> View for IterMut<'a, T> {
    type V = Seq<T>;

    /// The values still to come, as they are now, the next one first.
    closed spec fn view(&self) -> Seq<T> {
        match self.next {
            None => Seq::empty(),
            Some(node) => node.values(),
        }
    }
}

impl<T> OkayStack<T> {
    /// A traversal of the stack's values, top first, through which each
    /// value may be changed in place.
    pub fn iter_mut(&mut self) -> (r: IterMut<'_, T>)
        ensures
            r@ == old(self)@,
            r.cursor() is None <==> r@.len() == 0,
            final(self)@ == match r.cursor() {
                None => Seq::empty(),
                Some(node) => final(node).values(),
            },
    {
        IterMut {
            next: match &mut self.head {
                None => None,
                Some(node) => Some(&mut **node),
            },
        }
    }
}

impl<'a, T> IterMut<'a, T> {
    /// The node whose value comes next, if any.
    pub closed spec fn cursor(&self) -> Option<&'a mut Node<T>> {
        self.next
    }

    /// The values still to come are those of the chain at the cursor, and
    /// there is a node to come exactly when values remain.
    pub proof fn lemma_view_at_cursor(&self)
        ensures
            self@ == match self.cursor() {
                None => Seq::empty(),
                Some(node) => node.values(),
            },
            self.cursor() is None <==> self@.len() == 0,
    {
    }

    /// Once no more is written through the iterator, the chain at the cursor
    /// keeps the values it holds now.
    pub proof fn lemma_resolved_keeps_values(&self)
        requires
            has_resolved(*self),
        ensures
            match self.cursor() {
                None => true,
                Some(node) => final(node).values() == node.values(),
            },
    {
    }

    /// An exclusive view of the next value; `None` once the values are used up.
    pub fn next(&mut self) -> (r: Option<&'a mut T>)
        ensures
            final(self).cursor() is None <==> final(self)@.len() == 0,
            old(self)@.len() == 0 ==> r is None && final(self)@ == old(self)@
                && final(self).cursor() == old(self).cursor(),
            old(self)@.len() > 0 ==> r is Some && *r->0 == old(self)@[0]
                && final(self)@ == old(self)@.drop_first()
                && final(old(self).cursor()->0).values() == seq![*final(r->0)] + match final(self).cursor() {
                    None => Seq::empty(),
                    Some(node) => final(node).values(),
                },
    {
        match self.next.take() {
            None => None,
            Some(node) => {
                self.next = match &mut node.next {
                    None => None,
                    Some(n) => Some(&mut **n),
                };
                Some(&mut node.elem)
            },
        }
    }
}

} // verus!
