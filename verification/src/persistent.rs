//! An immutable, structurally shared singly-linked list.
//!
//! A list value is a head handle into a chain of reference-counted nodes.
//! Nodes are never mutated once built, so many list values may share one
//! chain: `prepend` allocates exactly one node and shares the rest, and
//! `behead` shares everything from the second node on. A node is freed only
//! when the last handle owning it is dropped.
//!
//! The abstract view is the sequence of elements from the head of the list
//! to the end of its chain.

use vstd::prelude::*;
use std::rc::Rc;

verus! {

/// A persistent list value: a head handle into a possibly shared chain.
pub struct List<G> {
    head: Link<G>,
}

type Link<G> = Option<Rc<Node<G>>>;

struct Node<G> {
    elem: G,
    next: Link<G>,
}

/// A borrowing walk over a list: it yields one reference per element, head
/// first, and leaves the list untouched.
pub struct Iter<'a, G> {
    next: Option<&'a Rc<Node<G>>>,
}

/// The elements reachable through a link, nearest first.
spec fn link_elems<G>(link: Link<G>) -> Seq<G>
    decreases link,
{
    match link {
        None => Seq::empty(),
        Some(node) => seq![node.elem] + link_elems(node.next),
    }
}

/// The view a list gains when an element is prepended to it.
pub open spec fn prepended<G>(s: Seq<G>, x: G) -> Seq<G> {
    seq![x] + s
}

/// The view a list is left with when its first element is dropped; an empty
/// list stays empty.
pub open spec fn beheaded<G>(s: Seq<G>) -> Seq<G> {
    if s.len() == 0 {
        s
    } else {
        s.drop_first()
    }
}

impl<G> View for List<G> {
    type V = Seq<G>;

    /// The list's elements, head first.
    closed spec fn view(&self) -> Seq<G> {
        link_elems(self.head)
    }
}

impl<G> List<G> {
    /// An empty list.
    pub fn new() -> (l: List<G>)
        ensures
            l@ == Seq::<G>::empty(),
    {
        List { head: None }
    }

    /// A read-only view of the first element; `None` exactly when the list
    /// is empty.
    pub fn head(&self) -> (r: Option<&G>)
        ensures
            self@.len() == 0 ==> r is None,
            self@.len() != 0 ==> (r matches Some(e) && *e == self@[0]),
    {
        match &self.head {
            None => None,
            Some(node) => Some(&node.elem),
        }
    }

    /// A new list holding `elem` followed by every element of `self`. One
    /// node is allocated; the rest of the new chain is `self`'s chain,
    /// shared, and `self` remains valid and unchanged.
    pub fn prepend(&self, elem: G) -> (r: List<G>)
        ensures
            r@ == prepended(self@, elem),
    {
        let node = Node {
            elem,
            next: match &self.head {
                None => None,
                Some(rc) => Some(Rc::clone(rc)),
            },
        };
        let r = List { head: Some(Rc::new(node)) };
        proof {
            assert(r@ =~= prepended(self@, elem));
        }
        r
    }

    /// A new list referring to `self`'s second node onward, sharing its
    /// storage; beheading an empty or one-element list yields an empty
    /// list.
    pub fn behead(&self) -> (r: List<G>)
        ensures
            r@ == beheaded(self@),
    {
        match &self.head {
            None => List { head: None },
            Some(node) => List {
                head: match &node.next {
                    None => None,
                    Some(rc) => Some(Rc::clone(rc)),
                },
            },
        }
    }

    /// A borrowing walk over the elements, head first.
    pub fn iter<'a>(&'a self) -> (it: Iter<'a, G>)
        ensures
            it@ == self@,
    {
        Iter {
            next: match &self.head {
                None => None,
                Some(rc) => Some(rc),
            },
        }
    }

    /// Releases this value's hold on its chain, head toward tail. Each node
    /// this value is the last owner of is unlinked from its successor
    /// before being freed, so teardown never recurses; the walk stops at
    /// the first node another list value still shares, which stays alive
    /// with everything after it.
    pub fn clear(&mut self)
        ensures
            final(self)@ == Seq::<G>::empty(),
    {
        let mut curr = self.head.take();
        loop
            decreases link_elems(curr).len(),
        {
            match curr {
                None => {
                    break;
                },
                Some(node) => {
                    match Rc::try_unwrap(node) {
                        Ok(mut unwrapped) => {
                            curr = unwrapped.next.take();
                        },
                        Err(_) => {
                            break;
                        },
                    }
                },
            }
        }
    }
}

impl<'a, G> View for Iter<'a, G> {
    type V = Seq<G>;

    /// The elements not yet yielded, next first.
    closed spec fn view(&self) -> Seq<G> {
        match self.next {
            None => Seq::empty(),
            Some(node) => seq![node.elem] + link_elems(node.next),
        }
    }
}

impl<'a, G> Iter<'a, G> {
    /// Yields a reference to the next element; `None` exactly when the walk
    /// is exhausted. The underlying list is never changed.
    pub fn next(&mut self) -> (r: Option<&'a G>)
        ensures
            old(self)@.len() == 0 ==> r is None && *final(self) == *old(self),
            old(self)@.len() != 0 ==> (r matches Some(e) && *e == old(self)@[0]
                && final(self)@ == old(self)@.drop_first()),
    {
        match self.next {
            None => None,
            Some(node) => {
                self.next = match &node.next {
                    None => None,
                    Some(n) => Some(n),
                };
                proof {
                    assert(self@ =~= old(self)@.drop_first());
                }
                Some(&node.elem)
            },
        }
    }
}

/// Persistence and structural sharing, seen through the views: prepending
/// `x` to a list makes `x` the head and shifts the original elements one
/// place right, so beheading the longer list recovers the original exactly
/// — same head, same remainder — while the original list itself is a value
/// that no prepend or behead ever changes.
pub proof fn lemma_prepend_behead<G>(s: Seq<G>, x: G)
    ensures
        prepended(s, x).len() == s.len() + 1,
        prepended(s, x)[0] == x,
        beheaded(prepended(s, x)) == s,
{
    assert(beheaded(prepended(s, x)) =~= s);
}

} // verus!
