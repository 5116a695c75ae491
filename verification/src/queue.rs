//! A FIFO queue: elements leave in the order they arrived, and both append
//! and removal touch a bounded number of nodes per element.
//!
//! The queue owns two singly-linked spines of nodes. Appended elements are
//! prepended to the inbound spine, newest first, so an append is one link
//! write and never a walk to the end of the chain. Removal takes from the
//! front of the outbound spine; when that spine runs out, the inbound spine
//! is reversed onto it, node by node, which restores arrival order and puts
//! the oldest element back in front. Each node is owned by exactly one link
//! at all times and crosses the spines at most once, so a whole drain does
//! a constant amount of work per element. Removing the last element leaves
//! both spines empty, and a later append finds the queue exactly as freshly
//! constructed: no cursor into freed storage survives.
//!
//! The abstract view is the sequence of elements from the front of the
//! queue (next to leave) to the back (last to have arrived).

use vstd::prelude::*;

verus! {

/// A queue: an outbound spine, oldest first, and an inbound spine, newest
/// first.
pub struct List<T> {
    head: Link<T>,
    tail: Link<T>,
}

type Link<T> = Option<Box<Node<T>>>;

struct Node<T> {
    elem: T,
    next: Link<T>,
}

/// The elements reachable through a link, nearest first.
spec fn link_elems<T>(link: Link<T>) -> Seq<T>
    decreases link,
{
    match link {
        None => Seq::empty(),
        Some(node) => seq![node.elem] + link_elems(node.next),
    }
}

impl<T> Node<T> {
    /// A node holding `elem` and, so far, no successor.
    fn new(elem: T) -> (n: Node<T>)
        ensures
            n.elem == elem,
            n.next is None,
    {
        Node { elem, next: None }
    }
}

impl<T> View for List<T> {
    type V = Seq<T>;

    /// The queue's elements, front (next to leave) first.
    closed spec fn view(&self) -> Seq<T> {
        link_elems(self.head) + link_elems(self.tail).reverse()
    }
}

impl<T> List<T> {
    /// An empty queue.
    pub fn new() -> (l: List<T>)
        ensures
            l@ == Seq::<T>::empty(),
    {
        let l = List { head: None, tail: None };
        proof {
            assert(l@ =~= Seq::<T>::empty());
        }
        l
    }

    /// Appends `elem` at the back of the queue, behind every element
    /// already waiting.
    pub fn push(&mut self, elem: T)
        ensures
            final(self)@ == old(self)@ + seq![elem],
    {
        let mut node = Box::new(Node::new(elem));
        node.next = self.tail.take();
        self.tail = Some(node);
        proof {
            assert(self@ =~= old(self)@ + seq![elem]);
        }
    }

    /// Removes and returns the front element, the one that arrived
    /// earliest; `None` exactly when the queue is empty.
    pub fn pop(&mut self) -> (r: Option<T>)
        ensures
            old(self)@.len() == 0 ==> r is None && final(self)@ == old(self)@,
            old(self)@.len() != 0 ==> r == Some(old(self)@[0]) && final(self)@ == old(self)@.drop_first(),
    {
        if self.head.is_none() {
            self.shift_inbound();
        }
        match self.head.take() {
            None => None,
            Some(node) => {
                let node = *node;
                self.head = node.next;
                proof {
                    assert(self@ =~= old(self)@.drop_first());
                }
                Some(node.elem)
            },
        }
    }

    /// Moves every node of the inbound spine onto the outbound spine,
    /// reversing it into arrival order.
    fn shift_inbound(&mut self)
        requires
            old(self).head is None,
        ensures
            final(self)@ == old(self)@,
            final(self).tail is None,
            link_elems(final(self).head) == old(self)@,
    {
        let mut src = self.tail.take();
        proof {
            assert(link_elems(src).reverse() + link_elems(self.head) =~= old(self)@);
        }
        loop
            invariant
                self.tail is None,
                link_elems(src).reverse() + link_elems(self.head) == old(self)@,
            ensures
                src is None,
                self.tail is None,
                link_elems(src).reverse() + link_elems(self.head) == old(self)@,
            decreases link_elems(src).len(),
        {
            match src {
                None => {
                    break;
                },
                Some(mut node) => {
                    let next = node.next.take();
                    node.next = self.head.take();
                    self.head = Some(node);
                    src = next;
                    proof {
                        assert(link_elems(src).reverse() + link_elems(self.head) =~= old(
                            self,
                        )@);
                    }
                },
            }
        }
        proof {
            assert(link_elems(self.head) =~= old(self)@);
            assert(self@ =~= old(self)@);
        }
    }

    /// Empties the queue by removing from the front until nothing is left,
    /// so that teardown never recurses along a chain.
    pub fn clear(&mut self)
        ensures
            final(self)@ == Seq::<T>::empty(),
    {
        loop
            ensures
                self@.len() == 0,
            decreases self@.len(),
        {
            match self.pop() {
                None => {
                    break;
                },
                Some(_) => {},
            }
        }
        proof {
            assert(self@ =~= Seq::<T>::empty());
        }
    }
}

/// The view a queue reaches when the elements of `ps` are appended to a
/// queue whose view is `s`, one after the other in `ps`'s order: each
/// append joins at the back, exactly as `push` promises.
pub open spec fn after_pushes<T>(s: Seq<T>, ps: Seq<T>) -> Seq<T>
    decreases ps.len(),
{
    if ps.len() == 0 {
        s
    } else {
        after_pushes(s + seq![ps[0]], ps.drop_first())
    }
}

/// Appending a run of elements lines them up behind whatever was already
/// waiting, in their own order.
pub proof fn lemma_after_pushes<T>(s: Seq<T>, ps: Seq<T>)
    ensures
        after_pushes(s, ps) == s + ps,
    decreases ps.len(),
{
    if ps.len() == 0 {
        assert(after_pushes(s, ps) =~= s + ps);
    } else {
        lemma_after_pushes(s + seq![ps[0]], ps.drop_first());
        assert((s + seq![ps[0]]) + ps.drop_first() =~= s + ps);
    }
}

/// FIFO order: appending elements to an empty queue leaves the view holding
/// them oldest first, and each pop removes and returns the view's first
/// element, so a full drain yields the elements in arrival order.
pub proof fn lemma_fifo<T>(ps: Seq<T>)
    ensures
        after_pushes(Seq::<T>::empty(), ps) == ps,
{
    lemma_after_pushes(Seq::<T>::empty(), ps);
    assert(Seq::<T>::empty() + ps =~= ps);
}

/// Removing the only waiting element leaves the view empty, the very view a
/// fresh queue starts with, so every later operation reads the same
/// contract as on a freshly constructed queue: no trace of the drained
/// chain survives.
pub proof fn lemma_drained_is_fresh<T>(s: Seq<T>)
    requires
        s.len() == 1,
    ensures
        s.drop_first() == Seq::<T>::empty(),
{
    assert(s.drop_first() =~= Seq::<T>::empty());
}

} // verus!
