//! A stack of integers whose nodes also carry a link back to their
//! predecessor. Owned boxes cannot point back at the node that owns them, so
//! that link always stays empty and the stack behaves as the singly linked one.

use vstd::prelude::*;

verus! {

struct Node {
    value: i32,
    next: Option<Box<Node>>,
    prev: Option<Box<Node>>,
}

/// The values held from `link` on, nearest first.
spec fn link_view(link: Option<Box<Node>>) -> Seq<i32>
    decreases link,
{
    match link {
        None => seq![],
        Some(node) => seq![node.value] + link_view(node.next),
    }
}

/// A last-in, first-out stack of `i32` values.
pub struct LinkedStack {
    head: Option<Box<Node>>,
}

impl View for LinkedStack {
    type V = Seq<i32>;

    /// The values on the stack, top first.
    closed spec fn view(&self) -> Seq<i32> {
        link_view(self.head)
    }
}

impl LinkedStack {
    /// An empty stack.
    pub fn new() -> (r: Self)
        ensures
            r@ == Seq::<i32>::empty(),
    {
        LinkedStack { head: None }
    }

    /// Puts `val` on top of the stack.
    pub fn push(&mut self, val: i32)
        ensures
            final(self)@ == seq![val] + old(self)@,
    {
        let node = Box::new(Node { value: val, next: self.head.take(), prev: None });
        self.head = Some(node);
    }

    /// Takes the top value off the stack; `None` when the stack is empty.
    pub fn pop(&mut self) -> (r: Option<i32>)
        ensures
            old(self)@.len() == 0 ==> r == None::<i32> && final(self)@ == old(self)@,
            old(self)@.len() > 0 ==> r == Some(old(self)@[0]) && final(self)@ == old(self)@.drop_first(),
        opens_invariants none
        no_unwind
    {
        let mut head: Option<Box<Node>> = None;
        std::mem::swap(&mut head, &mut self.head);
        match head {
            Some(node) => {
                let node = *node;
                self.head = node.next;
                proof {
                    assert(old(self)@ =~= seq![node.value] + final(self)@);
                }
                Some(node.value)
            },
            None => None,
        }
    }
}

impl Drop for LinkedStack {
    /// Unlinks the nodes one at a time, so that a long stack does not drop
    /// its nodes by deep recursion.
    fn drop(&mut self)
        opens_invariants none
        no_unwind
    {
        let mut more = true;
        while more
            decreases self@.len() + (if more { 1int } else { 0int }),
        {
            match self.pop() {
                Some(_) => {},
                None => {
                    more = false;
                },
            }
        }
    }
}

} // verus!
