//! A stack of `i32` values over a hand-written link enum.
use vstd::prelude::*;
use crate::stack_model::{top, popped};

verus! {

/// A last-in, first-out stack of `i32` values.
pub struct StupidStack {
    head: Link,
}

/// Either the end of the chain or the node that owns the rest of it.
enum Link {
    Empty,
    More(Box<Node>),
}

/// One link of a chain: a value and the rest of the chain, which it owns.
struct Node {
    elem: i32,
    next: Link,
}

/// The values held by a chain of links, the head first.
spec fn link_seq(l: Link) -> Seq<i32>
    decreases l,
{
    match l {
        Link::Empty => Seq::empty(),
        Link::More(node) => seq![node.elem] + link_seq(node.next),
    }
}

/// Moves the link out of `slot`, leaving `Link::Empty` in its place in the
/// same step, so that the slot never holds a stale link.
fn take_link(slot: &mut Link) -> (r: Link)
    ensures
        r == *old(slot),
        *final(slot) == Link::Empty,
    opens_invariants none
    no_unwind
{
    let mut out = Link::Empty;
    core::mem::swap(slot, &mut out);
    out
}

impl View for StupidStack {
    type V = Seq<i32>;

    /// The values on the stack, the top first.
    closed spec fn view(&self) -> Seq<i32> {
        link_seq(self.head)
    }
}

impl StupidStack {
    /// An empty stack.
    pub fn new() -> (s: Self)
        ensures
            s@ == Seq::<i32>::empty(),
    {
        StupidStack { head: Link::Empty }
    }

    /// Puts `value` on top of the stack.
    pub fn push(&mut self, value: i32)
        ensures
            final(self)@ == seq![value] + old(self)@,
    {
        let new_node = Box::new(Node { elem: value, next: take_link(&mut self.head) });
        self.head = Link::More(new_node);
    }

    /// Takes the top value off the stack; `None` when the stack is empty.
    pub fn pop(&mut self) -> (r: Option<i32>)
        ensures
            r == top(old(self)@),
            final(self)@ == popped(old(self)@),
    {
        match take_link(&mut self.head) {
            Link::Empty => None,
            Link::More(node) => {
                self.head = node.next;
                proof {
                    assert(old(self)@.drop_first() =~= link_seq(self.head));
                }
                Some(node.elem)
            },
        }
    }
}

/// Tears the chain down one link at a time, so that dropping a long stack
/// does not recurse once per node. Returns the number of links it broke.
fn unlink_chain(head: Link) -> (steps: Ghost<nat>)
    ensures
        steps@ == link_seq(head).len(),
    opens_invariants none
    no_unwind
{
    let ghost n = link_seq(head).len();
    let ghost mut count: nat = 0;
    let mut cur_link = head;
    loop
        invariant
            count + link_seq(cur_link).len() == n,
        ensures
            count == n,
        decreases link_seq(cur_link).len(),
    {
        match cur_link {
            Link::Empty => break,
            Link::More(mut box_node) => {
                cur_link = take_link(&mut box_node.next);
                proof {
                    count = count + 1;
                }
            },
        }
    }
    Ghost(count)
}

impl StupidStack {
    /// Empties the stack by breaking its chain one link at a time, from the
    /// head down, so that no step recurses over the rest of the chain.
    /// Returns the number of links broken: one per value that was held.
    pub fn clear(&mut self) -> (steps: Ghost<nat>)
        ensures
            steps@ == old(self)@.len(),
            final(self)@ == Seq::<i32>::empty(),
        opens_invariants none
        no_unwind
    {
        let cur_link = take_link(&mut self.head);
        unlink_chain(cur_link)
    }
}

impl Drop for StupidStack {
    /// Tears the chain down one link at a time rather than by nested drops.
    fn drop(&mut self)
        ensures
            final(self)@ == Seq::<i32>::empty(),
        opens_invariants none
        no_unwind
    {
        let _ = self.clear();
    }
}

} // verus!
