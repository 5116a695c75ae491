//! An owned LIFO stack of integers over a singly-linked chain of nodes.
//!
//! Every node is owned by its predecessor (the container owns the head), so
//! removal and teardown free each node exactly once. The abstract view is
//! the sequence of elements from the top of the stack down.

use vstd::prelude::*;

verus! {

/// A stack of integers: a head link that exclusively owns the whole chain.
pub struct List {
    head: Link,
}

struct Node {
    elem: i32,
    next: Link,
}

/// A link either ends the chain or owns the next node.
enum Link {
    Empty,
    More(Box<Node>),
}

impl Link {
    /// The elements reachable through this link, nearest first.
    spec fn elems(self) -> Seq<i32>
        decreases self,
    {
        match self {
            Link::Empty => Seq::empty(),
            Link::More(node) => seq![node.elem] + node.next.elems(),
        }
    }
}

impl View for List {
    type V = Seq<i32>;

    /// The stack's elements, top first.
    closed spec fn view(&self) -> Seq<i32> {
        self.head.elems()
    }
}

impl List {
    /// An empty stack.
    pub fn new() -> (l: List)
        ensures
            l@ == Seq::<i32>::empty(),
    {
        List { head: Link::Empty }
    }

    /// Pushes `elem` on top: the new head node takes ownership of the old
    /// chain.
    pub fn push(&mut self, elem: i32)
        ensures
            final(self)@ == seq![elem] + old(self)@,
    {
        let mut link = Link::Empty;
        core::mem::swap(&mut self.head, &mut link);
        let node = Node { elem, next: link };
        self.head = Link::More(Box::new(node));
        proof {
            assert(self@ =~= seq![elem] + old(self)@);
        }
    }

    /// Removes and returns the top element; `None` exactly when the stack
    /// is empty.
    pub fn pop(&mut self) -> (r: Option<i32>)
        ensures
            old(self)@.len() == 0 ==> r is None && *final(self) == *old(self),
            old(self)@.len() != 0 ==> r == Some(old(self)@[0]) && final(self)@ == old(self)@.drop_first(),
    {
        match self.pop_node() {
            Link::Empty => None,
            Link::More(n) => Some(n.elem),
        }
    }

    /// Detaches the head node, promoting its successor to be the new head.
    fn pop_node(&mut self) -> (r: Link)
        ensures
            old(self)@.len() == 0 ==> r == Link::Empty && *final(self) == *old(self),
            old(self)@.len() != 0 ==> {
                &&& r matches Link::More(n) && n.elem == old(self)@[0]
                &&& final(self)@ == old(self)@.drop_first()
            },
    {
        let mut link = Link::Empty;
        core::mem::swap(&mut self.head, &mut link);
        match link {
            Link::Empty => Link::Empty,
            Link::More(mut n) => {
                let mut next = Link::Empty;
                core::mem::swap(&mut n.next, &mut next);
                self.head = next;
                proof {
                    assert(self@ =~= old(self)@.drop_first());
                }
                Link::More(n)
            }
        }
    }

    /// Empties the stack, unlinking the nodes one by one from the head so
    /// that no teardown recurses along the chain.
    pub fn clear(&mut self)
        ensures
            final(self)@ == Seq::<i32>::empty(),
    {
        loop
            ensures
                self@.len() == 0,
            decreases self@.len(),
        {
            match self.pop_node() {
                Link::Empty => {
                    break;
                },
                Link::More(_) => {},
            }
        }
    }
}

} // verus!
