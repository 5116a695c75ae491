//! The persistent list over atomically reference-counted nodes.
//!
//! The contract is exactly that of the non-atomic persistent list; only the
//! ownership counter differs. Because the count is kept with atomic
//! operations, list values derived from a common ancestor may be prepended,
//! beheaded and dropped from different threads concurrently: of two threads
//! releasing the same node at once, exactly one observes itself to be the
//! last owner and frees it. Elements are read-only once placed in a node,
//! so no further locking is needed.
//!
//! The abstract view is the sequence of elements from the head of the list
//! to the end of its chain.

use vstd::prelude::*;
use std::sync::Arc;
use crate::persistent::beheaded;
use crate::persistent::prepended;

verus! {

/// Relies on std's `Arc::try_unwrap`: it returns the inner value when the
/// caller held the only owning handle, and gives the handle back otherwise;
/// the atomic count makes that decision exactly once per node even under
/// concurrent release.
#[verifier::external_body]
fn arc_try_unwrap<T>(v: Arc<T>) -> (result: Result<T, Arc<T>>)
    ensures
        match result {
            Ok(t) => t == v,
            Err(e) => e == v,
        },
{
    Arc::try_unwrap(v)
}

/// A persistent list value whose chain may be shared across threads.
pub struct ThreadSafeList<G> {
    head: ThreadSafeLink<G>,
}

type ThreadSafeLink<G> = Option<Arc<ThreadSafeNode<G>>>;

struct ThreadSafeNode<G> {
    elem: G,
    next: ThreadSafeLink<G>,
}

/// A borrowing walk over a list: it yields one reference per element, head
/// first, and leaves the list untouched.
pub struct ThreadSafeIter<'a, G> {
    next: Option<&'a Arc<ThreadSafeNode<G>>>,
}

/// The elements reachable through a link, nearest first.
spec fn link_elems<G>(link: ThreadSafeLink<G>) -> Seq<G>
    decreases link,
{
    match link {
        None => Seq::empty(),
        Some(node) => seq![node.elem] + link_elems(node.next),
    }
}

impl<G> View for ThreadSafeList<G> {
    type V = Seq<G>;

    /// The list's elements, head first.
    closed spec fn view(&self) -> Seq<G> {
        link_elems(self.head)
    }
}

impl<G> ThreadSafeList<G> {
    /// An empty list.
    pub fn new() -> (l: ThreadSafeList<G>)
        ensures
            l@ == Seq::<G>::empty(),
    {
        ThreadSafeList { head: None }
    }

    /// A read-only view of the first element; `None` exactly when the list
    /// is empty.
    pub fn head(&self) -> (r: Option<&G>)
        ensures
            self@.len() == 0 ==> r is None,
            self@.len() != 0 ==> (r matches Some(e) && *e == self@[0]),
    {
        match &self.head {
            None => None,
            Some(node) => Some(&node.elem),
        }
    }

    /// A new list holding `elem` followed by every element of `self`. One
    /// node is allocated; the rest of the new chain is `self`'s chain,
    /// shared, and `self` remains valid and unchanged.
    pub fn prepend(&self, elem: G) -> (r: ThreadSafeList<G>)
        ensures
            r@ == prepended(self@, elem),
    {
        let node = ThreadSafeNode {
            elem,
            next: match &self.head {
                None => None,
                Some(arc) => Some(Arc::clone(arc)),
            },
        };
        let r = ThreadSafeList { head: Some(Arc::new(node)) };
        proof {
            assert(r@ =~= prepended(self@, elem));
        }
        r
    }

    /// A new list referring to `self`'s second node onward, sharing its
    /// storage; beheading an empty or one-element list yields an empty
    /// list.
    pub fn behead(&self) -> (r: ThreadSafeList<G>)
        ensures
            r@ == beheaded(self@),
    {
        match &self.head {
            None => ThreadSafeList { head: None },
            Some(node) => ThreadSafeList {
                head: match &node.next {
                    None => None,
                    Some(arc) => Some(Arc::clone(arc)),
                },
            },
        }
    }

    /// A borrowing walk over the elements, head first.
    pub fn iter<'a>(&'a self) -> (it: ThreadSafeIter<'a, G>)
        ensures
            it@ == self@,
    {
        ThreadSafeIter {
            next: match &self.head {
                None => None,
                Some(arc) => Some(arc),
            },
        }
    }

    /// Releases this value's hold on its chain, head toward tail. Each node
    /// this value is the last owner of is unlinked from its successor
    /// before being freed, so teardown never recurses; the walk stops at
    /// the first node another list value still shares, which stays alive
    /// with everything after it.
    pub fn clear(&mut self)
        ensures
            final(self)@ == Seq::<G>::empty(),
    {
        let mut curr = self.head.take();
        loop
            decreases link_elems(curr).len(),
        {
            match curr {
                None => {
                    break;
                },
                Some(node) => {
                    match arc_try_unwrap(node) {
                        Ok(mut unwrapped) => {
                            curr = unwrapped.next.take();
                        },
                        Err(_) => {
                            break;
                        },
                    }
                },
            }
        }
    }
}

impl<'a, G> View for ThreadSafeIter<'a, G> {
    type V = Seq<G>;

    /// The elements not yet yielded, next first.
    closed spec fn view(&self) -> Seq<G> {
        match self.next {
            None => Seq::empty(),
            Some(node) => seq![node.elem] + link_elems(node.next),
        }
    }
}

impl<'a, G> ThreadSafeIter<'a, G> {
    /// Yields a reference to the next element; `None` exactly when the walk
    /// is exhausted. The underlying list is never changed.
    pub fn next(&mut self) -> (r: Option<&'a G>)
        ensures
            old(self)@.len() == 0 ==> r is None && *final(self) == *old(self),
            old(self)@.len() != 0 ==> (r matches Some(e) && *e == old(self)@[0]
                && final(self)@ == old(self)@.drop_first()),
    {
        match self.next {
            None => None,
            Some(node) => {
                self.next = match &node.next {
                    None => None,
                    Some(n) => Some(n),
                };
                proof {
                    assert(self@ =~= old(self)@.drop_first());
                }
                Some(&node.elem)
            },
        }
    }
}

} // verus!
