//! A generic owned LIFO stack over a singly-linked chain of nodes, with
//! read-only and exclusive peeking and two ways to walk the elements.
//!
//! Each node is owned by its predecessor, so every element has exactly one
//! owner at all times. The abstract view is the sequence of elements from
//! the top of the stack down.

use vstd::prelude::*;

verus! {

/// A stack: a head link that exclusively owns the whole chain.
pub struct List<T> {
    head: Link<T>,
}

type Link<T> = Option<Box<Node<T>>>;

struct Node<T> {
    elem: T,
    next: Link<T>,
}

/// A draining walk over a stack: it owns the stack and pops one element per
/// step.
pub struct IntoIter<T>(List<T>);

/// A borrowing walk over a stack: it yields one reference per element, top
/// first, and leaves the stack untouched.
pub struct Iter<'a, T> {
    next: Option<&'a Node<T>>,
}

/// The elements reachable through a link, nearest first.
spec fn link_elems<T>(link: Link<T>) -> Seq<T>
    decreases link,
{
    match link {
        None => Seq::empty(),
        Some(node) => seq![node.elem] + link_elems(node.next),
    }
}

impl<T> View for List<T> {
    type V = Seq<T>;

    /// The stack's elements, top first.
    closed spec fn view(&self) -> Seq<T> {
        link_elems(self.head)
    }
}

impl<T> List<T> {
    /// An empty stack.
    pub fn new() -> (l: List<T>)
        ensures
            l@ == Seq::<T>::empty(),
    {
        List { head: None }
    }

    /// Pushes `elem` on top: the new head node takes ownership of the old
    /// chain.
    pub fn push(&mut self, elem: T)
        ensures
            final(self)@ == seq![elem] + old(self)@,
    {
        let new_node = Box::new(Node { elem, next: self.head.take() });
        self.head = Some(new_node);
        proof {
            assert(self@ =~= seq![elem] + old(self)@);
        }
    }

    /// Removes and returns the top element; `None` exactly when the stack
    /// is empty.
    pub fn pop(&mut self) -> (r: Option<T>)
        ensures
            old(self)@.len() == 0 ==> r is None && *final(self) == *old(self),
            old(self)@.len() != 0 ==> r == Some(old(self)@[0]) && final(self)@ == old(self)@.drop_first(),
    {
        match self.head.take() {
            None => None,
            Some(node) => {
                let node = *node;
                self.head = node.next;
                proof {
                    assert(self@ =~= old(self)@.drop_first());
                }
                Some(node.elem)
            },
        }
    }

    /// A read-only view of the top element; `None` exactly when the stack
    /// is empty.
    pub fn peek(&self) -> (r: Option<&T>)
        ensures
            self@.len() == 0 ==> r is None,
            self@.len() != 0 ==> (r matches Some(e) && *e == self@[0]),
    {
        match &self.head {
            None => None,
            Some(node) => Some(&node.elem),
        }
    }

    /// An exclusive view of the top element; `None` exactly when the stack
    /// is empty. While the returned borrow lives, no other view of the
    /// stack can be formed; whatever the caller writes through it becomes
    /// the new top element.
    pub fn peek_mut(&mut self) -> (r: Option<&mut T>)
        ensures
            old(self)@.len() == 0 ==> r.is_none() && *final(self) == *old(self),
            old(self)@.len() != 0 ==> r.is_some() && *r.unwrap() == old(self)@[0]
                && final(self)@ =~= old(self)@.update(0, *final(r.unwrap())),
    {
        match &mut self.head {
            None => None,
            Some(node) => Some(&mut node.elem),
        }
    }

    /// Moves the stack into a draining walk over its elements.
    pub fn into_iter(self) -> (it: IntoIter<T>)
        ensures
            it@ == self@,
    {
        IntoIter(self)
    }

    /// A borrowing walk over the elements, top first.
    pub fn iter<'a>(&'a self) -> (it: Iter<'a, T>)
        ensures
            it@ == self@,
    {
        Iter {
            next: match &self.head {
                None => None,
                Some(node) => Some(&**node),
            },
        }
    }

    /// Empties the stack, unlinking the nodes one by one from the head so
    /// that no teardown recurses along the chain.
    pub fn clear(&mut self)
        ensures
            final(self)@ == Seq::<T>::empty(),
    {
        let mut cur_link = self.head.take();
        loop
            decreases link_elems(cur_link).len(),
        {
            match cur_link {
                None => {
                    break;
                },
                Some(mut boxed) => {
                    cur_link = boxed.next.take();
                },
            }
        }
    }
}

impl<T> View for IntoIter<T> {
    type V = Seq<T>;

    /// The elements not yet yielded, next first.
    closed spec fn view(&self) -> Seq<T> {
        self.0@
    }
}

impl<T> IntoIter<T> {
    /// Yields the next element, consuming it; `None` exactly when the walk
    /// is exhausted.
    pub fn next(&mut self) -> (r: Option<T>)
        ensures
            old(self)@.len() == 0 ==> r is None && *final(self) == *old(self),
            old(self)@.len() != 0 ==> r == Some(old(self)@[0]) && final(self)@ == old(self)@.drop_first(),
    {
        self.0.pop()
    }
}

impl<'a, T> View for Iter<'a, T> {
    type V = Seq<T>;

    /// The elements not yet yielded, next first.
    closed spec fn view(&self) -> Seq<T> {
        match self.next {
            None => Seq::empty(),
            Some(node) => seq![node.elem] + link_elems(node.next),
        }
    }
}

impl<'a, T> Iter<'a, T> {
    /// Yields a reference to the next element; `None` exactly when the walk
    /// is exhausted. The underlying stack is never changed.
    pub fn next(&mut self) -> (r: Option<&'a T>)
        ensures
            old(self)@.len() == 0 ==> r is None && *final(self) == *old(self),
            old(self)@.len() != 0 ==> (r matches Some(e) && *e == old(self)@[0]
                && final(self)@ == old(self)@.drop_first()),
    {
        match self.next {
            None => None,
            Some(node) => {
                self.next = match &node.next {
                    None => None,
                    Some(n) => Some(&**n),
                };
                proof {
                    assert(self@ =~= old(self)@.drop_first());
                }
                Some(&node.elem)
            },
        }
    }
}

/// The view a stack reaches when the elements of `ps` are pushed onto a
/// stack whose view is `s`, one after the other in `ps`'s order: each push
/// puts its element on top, exactly as `push` promises.
pub open spec fn after_pushes<T>(s: Seq<T>, ps: Seq<T>) -> Seq<T>
    decreases ps.len(),
{
    if ps.len() == 0 {
        s
    } else {
        after_pushes(seq![ps[0]] + s, ps.drop_first())
    }
}

/// Pushing a run of elements stacks them up in reverse order in front of
/// whatever was already there.
pub proof fn lemma_after_pushes<T>(s: Seq<T>, ps: Seq<T>)
    ensures
        after_pushes(s, ps) == ps.reverse() + s,
    decreases ps.len(),
{
    if ps.len() == 0 {
        assert(after_pushes(s, ps) =~= ps.reverse() + s);
    } else {
        lemma_after_pushes(seq![ps[0]] + s, ps.drop_first());
        assert(ps.drop_first().reverse() + (seq![ps[0]] + s) =~= ps.reverse() + s);
    }
}

/// LIFO order: pushing elements onto an empty stack leaves the view holding
/// them newest first, and each pop removes and returns the view's first
/// element, so a full drain yields the pushed elements in reverse order of
/// arrival.
pub proof fn lemma_lifo<T>(ps: Seq<T>)
    ensures
        after_pushes(Seq::<T>::empty(), ps) == ps.reverse(),
{
    lemma_after_pushes(Seq::<T>::empty(), ps);
    assert(ps.reverse() + Seq::<T>::empty() =~= ps.reverse());
}

} // verus!
