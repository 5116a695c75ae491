//! A double-ended queue with insertion, removal and peeking at both ends,
//! and exclusive mutable peeking.
//!
//! The deque owns two singly-linked spines of nodes: one carries elements
//! near the front, front first, the other carries elements near the back,
//! back first. An operation at an end works on the first node of its spine;
//! when a removal finds its spine empty, the other spine is reversed onto
//! it, node by node, so a whole drain visits each node a bounded number of
//! times. Every node is owned by exactly one link at all times, so removal
//! and teardown free each node exactly once and never recurse along a
//! chain.
//!
//! The abstract view is the sequence of elements from front to back.

use vstd::prelude::*;

verus! {

/// A deque: two spines that together own every node, meeting in the
/// middle.
pub struct List<T> {
    head: Link<T>,
    tail: Link<T>,
}

type Link<T> = Option<Box<Node<T>>>;

struct Node<T> {
    elem: T,
    next: Link<T>,
}

/// A draining walk over a deque: it owns the deque and removes one element
/// per step, from the front or from the back.
pub struct IntoIter<T>(List<T>);

/// The elements reachable through a link, nearest first.
spec fn link_elems<T>(link: Link<T>) -> Seq<T>
    decreases link,
{
    match link {
        None => Seq::empty(),
        Some(node) => seq![node.elem] + link_elems(node.next),
    }
}

impl<T> View for List<T> {
    type V = Seq<T>;

    /// The deque's elements, front first.
    closed spec fn view(&self) -> Seq<T> {
        link_elems(self.head) + link_elems(self.tail).reverse()
    }
}

impl<T> List<T> {
    /// An empty deque.
    pub fn new() -> (l: List<T>)
        ensures
            l@ == Seq::<T>::empty(),
    {
        let l = List { head: None, tail: None };
        proof {
            assert(l@ =~= Seq::<T>::empty());
        }
        l
    }

    /// Pushes `elem` at the front: every other element moves one place back.
    pub fn push_front(&mut self, elem: T)
        ensures
            final(self)@ == seq![elem] + old(self)@,
    {
        let node = Box::new(Node { elem, next: self.head.take() });
        self.head = Some(node);
        proof {
            assert(self@ =~= seq![elem] + old(self)@);
        }
    }

    /// Pushes `elem` at the back, after every other element.
    pub fn push_back(&mut self, elem: T)
        ensures
            final(self)@ == old(self)@ + seq![elem],
    {
        let node = Box::new(Node { elem, next: self.tail.take() });
        self.tail = Some(node);
        proof {
            assert(self@ =~= old(self)@ + seq![elem]);
        }
    }

    /// Moves every node of the back spine onto the front spine, reversing
    /// it, so that the whole deque hangs off the front spine.
    fn shift_back_to_front(&mut self)
        requires
            old(self).head is None,
        ensures
            final(self)@ == old(self)@,
            final(self).tail is None,
            link_elems(final(self).head) == old(self)@,
    {
        let mut src = self.tail.take();
        proof {
            assert(link_elems(src).reverse() + link_elems(self.head) =~= old(self)@);
        }
        loop
            invariant
                self.tail is None,
                link_elems(src).reverse() + link_elems(self.head) == old(self)@,
            ensures
                src is None,
                self.tail is None,
                link_elems(src).reverse() + link_elems(self.head) == old(self)@,
            decreases link_elems(src).len(),
        {
            match src {
                None => {
                    break;
                },
                Some(mut node) => {
                    let next = node.next.take();
                    node.next = self.head.take();
                    self.head = Some(node);
                    src = next;
                    proof {
                        assert(link_elems(src).reverse() + link_elems(self.head) =~= old(
                            self,
                        )@);
                    }
                },
            }
        }
        proof {
            assert(link_elems(self.head) =~= old(self)@);
            assert(self@ =~= old(self)@);
        }
    }

    /// Moves every node of the front spine onto the back spine, reversing
    /// it, so that the whole deque hangs off the back spine.
    fn shift_front_to_back(&mut self)
        requires
            old(self).tail is None,
        ensures
            final(self)@ == old(self)@,
            final(self).head is None,
            link_elems(final(self).tail) == old(self)@.reverse(),
    {
        let mut src = self.head.take();
        proof {
            assert(link_elems(self.tail).reverse() + link_elems(src) =~= old(self)@);
            assert((link_elems(self.tail).reverse() + link_elems(src)).reverse() =~= link_elems(
                src,
            ).reverse() + link_elems(self.tail));
        }
        loop
            invariant
                self.head is None,
                link_elems(src).reverse() + link_elems(self.tail) == old(self)@.reverse(),
            ensures
                src is None,
                self.head is None,
                link_elems(src).reverse() + link_elems(self.tail) == old(self)@.reverse(),
            decreases link_elems(src).len(),
        {
            match src {
                None => {
                    break;
                },
                Some(mut node) => {
                    let next = node.next.take();
                    node.next = self.tail.take();
                    self.tail = Some(node);
                    src = next;
                    proof {
                        assert(link_elems(src).reverse() + link_elems(self.tail) =~= old(
                            self,
                        )@.reverse());
                    }
                },
            }
        }
        proof {
            assert(link_elems(self.tail) =~= old(self)@.reverse());
            assert(self@ =~= old(self)@);
        }
    }

    /// Removes and returns the front element; `None` exactly when the deque
    /// is empty. When the removed element was the only one, the back end
    /// becomes empty as well.
    pub fn pop_front(&mut self) -> (r: Option<T>)
        ensures
            old(self)@.len() == 0 ==> r is None && final(self)@ == old(self)@,
            old(self)@.len() != 0 ==> r == Some(old(self)@[0]) && final(self)@ == old(self)@.drop_first(),
    {
        if self.head.is_none() {
            self.shift_back_to_front();
        }
        match self.head.take() {
            None => None,
            Some(node) => {
                let node = *node;
                self.head = node.next;
                proof {
                    assert(self@ =~= old(self)@.drop_first());
                }
                Some(node.elem)
            },
        }
    }

    /// Removes and returns the back element; `None` exactly when the deque
    /// is empty. When the removed element was the only one, the front end
    /// becomes empty as well.
    pub fn pop_back(&mut self) -> (r: Option<T>)
        ensures
            old(self)@.len() == 0 ==> r is None && final(self)@ == old(self)@,
            old(self)@.len() != 0 ==> r == Some(old(self)@.last()) && final(self)@ == old(self)@.drop_last(),
    {
        if self.tail.is_none() {
            self.shift_front_to_back();
        }
        match self.tail.take() {
            None => None,
            Some(node) => {
                let node = *node;
                self.tail = node.next;
                proof {
                    assert(self@ =~= old(self)@.drop_last());
                }
                Some(node.elem)
            },
        }
    }

    /// A read-only view of the front element; `None` exactly when the deque
    /// is empty.
    pub fn peek_front(&self) -> (r: Option<&T>)
        ensures
            self@.len() == 0 ==> r is None,
            self@.len() != 0 ==> (r matches Some(e) && *e == self@[0]),
    {
        match &self.head {
            Some(node) => Some(&node.elem),
            None => match &self.tail {
                None => None,
                Some(node) => {
                    let r = Self::chain_last(node);
                    proof {
                        assert(self@[0] == link_elems(self.tail).reverse()[0]);
                    }
                    Some(r)
                },
            },
        }
    }

    /// A read-only view of the back element; `None` exactly when the deque
    /// is empty.
    pub fn peek_back(&self) -> (r: Option<&T>)
        ensures
            self@.len() == 0 ==> r is None,
            self@.len() != 0 ==> (r matches Some(e) && *e == self@.last()),
    {
        match &self.tail {
            Some(node) => Some(&node.elem),
            None => match &self.head {
                None => None,
                Some(node) => {
                    let r = Self::chain_last(node);
                    proof {
                        assert(self@ =~= link_elems(self.head));
                    }
                    Some(r)
                },
            },
        }
    }

    /// Walks a chain to its last element.
    fn chain_last<'a>(node: &'a Box<Node<T>>) -> (r: &'a T)
        ensures
            *r == (seq![node.elem] + link_elems(node.next)).last(),
    {
        let mut cur: &Box<Node<T>> = node;
        loop
            invariant
                (seq![cur.elem] + link_elems(cur.next)).last() == (seq![node.elem] + link_elems(
                    node.next,
                )).last(),
            decreases link_elems(cur.next).len(),
        {
            match &cur.next {
                None => {
                    return &cur.elem;
                },
                Some(n) => {
                    proof {
                        assert((seq![n.elem] + link_elems(n.next)).last() == (seq![cur.elem]
                            + link_elems(cur.next)).last());
                    }
                    cur = n;
                },
            }
        }
    }

    /// An exclusive view of the front element; `None` exactly when the
    /// deque is empty. While the returned borrow lives, no other view of
    /// the deque can be formed; whatever the caller writes through it
    /// becomes the new front element.
    pub fn peek_front_mut(&mut self) -> (r: Option<&mut T>)
        ensures
            old(self)@.len() == 0 ==> r.is_none() && final(self)@ == old(self)@,
            old(self)@.len() != 0 ==> r.is_some() && *r.unwrap() == old(self)@[0]
                && final(self)@ =~= old(self)@.update(0, *final(r.unwrap())),
    {
        if self.head.is_none() {
            self.shift_back_to_front();
        }
        match &mut self.head {
            None => None,
            Some(node) => Some(&mut node.elem),
        }
    }

    /// An exclusive view of the back element; `None` exactly when the deque
    /// is empty. While the returned borrow lives, no other view of the
    /// deque can be formed; whatever the caller writes through it becomes
    /// the new back element.
    pub fn peek_back_mut(&mut self) -> (r: Option<&mut T>)
        ensures
            old(self)@.len() == 0 ==> r.is_none() && final(self)@ == old(self)@,
            old(self)@.len() != 0 ==> r.is_some() && *r.unwrap() == old(self)@.last()
                && final(self)@ =~= old(self)@.update(old(self)@.len() - 1, *final(r.unwrap())),
    {
        if self.tail.is_none() {
            self.shift_front_to_back();
        }
        match &mut self.tail {
            None => None,
            Some(node) => Some(&mut node.elem),
        }
    }

    /// Moves the deque into a draining walk over its elements.
    pub fn into_iter(self) -> (it: IntoIter<T>)
        ensures
            it@ == self@,
    {
        IntoIter(self)
    }

    /// Empties the deque by removing from the front until nothing is left,
    /// so that teardown never recurses along a chain.
    pub fn clear(&mut self)
        ensures
            final(self)@ == Seq::<T>::empty(),
    {
        loop
            ensures
                self@.len() == 0,
            decreases self@.len(),
        {
            match self.pop_front() {
                None => {
                    break;
                },
                Some(_) => {},
            }
        }
        proof {
            assert(self@ =~= Seq::<T>::empty());
        }
    }
}

impl<T> View for IntoIter<T> {
    type V = Seq<T>;

    /// The elements not yet yielded, front first.
    closed spec fn view(&self) -> Seq<T> {
        self.0@
    }
}

impl<T> IntoIter<T> {
    /// Yields the next element from the front; `None` exactly when the walk
    /// is exhausted.
    pub fn next(&mut self) -> (r: Option<T>)
        ensures
            old(self)@.len() == 0 ==> r is None && final(self)@ == old(self)@,
            old(self)@.len() != 0 ==> r == Some(old(self)@[0]) && final(self)@ == old(self)@.drop_first(),
    {
        self.0.pop_front()
    }

    /// Yields the next element from the back; `None` exactly when the walk
    /// is exhausted. Alternating both directions never yields an element
    /// twice: each step removes what it yields, and the walk ends when the
    /// two ends meet.
    pub fn next_back(&mut self) -> (r: Option<T>)
        ensures
            old(self)@.len() == 0 ==> r is None && final(self)@ == old(self)@,
            old(self)@.len() != 0 ==> r == Some(old(self)@.last()) && final(self)@ == old(self)@.drop_last(),
    {
        self.0.pop_back()
    }
}

/// One end-insertion: an element together with the end it is pushed at.
pub enum Push<T> {
    Front(T),
    Back(T),
}

/// The view a deque reaches when the insertions of `ops` are performed on a
/// deque whose view is `v`, one after the other in `ops`'s order: a front
/// push prepends its element and a back push appends it, exactly as
/// `push_front` and `push_back` promise.
pub open spec fn after_ops<T>(v: Seq<T>, ops: Seq<Push<T>>) -> Seq<T>
    decreases ops.len(),
{
    if ops.len() == 0 {
        v
    } else {
        match ops[0] {
            Push::Front(x) => after_ops(seq![x] + v, ops.drop_first()),
            Push::Back(x) => after_ops(v + seq![x], ops.drop_first()),
        }
    }
}

/// The elements of `ops` pushed at the front, in push order.
pub open spec fn fronts<T>(ops: Seq<Push<T>>) -> Seq<T>
    decreases ops.len(),
{
    if ops.len() == 0 {
        Seq::empty()
    } else {
        match ops[0] {
            Push::Front(x) => seq![x] + fronts(ops.drop_first()),
            Push::Back(_) => fronts(ops.drop_first()),
        }
    }
}

/// The elements of `ops` pushed at the back, in push order.
pub open spec fn backs<T>(ops: Seq<Push<T>>) -> Seq<T>
    decreases ops.len(),
{
    if ops.len() == 0 {
        Seq::empty()
    } else {
        match ops[0] {
            Push::Front(_) => backs(ops.drop_first()),
            Push::Back(x) => seq![x] + backs(ops.drop_first()),
        }
    }
}

/// However front and back pushes are interleaved, the front pushes pile up
/// in reverse order before the starting elements and the back pushes line
/// up in their own order after them.
pub proof fn lemma_after_ops<T>(v: Seq<T>, ops: Seq<Push<T>>)
    ensures
        after_ops(v, ops) == fronts(ops).reverse() + v + backs(ops),
    decreases ops.len(),
{
    if ops.len() == 0 {
        assert(after_ops(v, ops) =~= fronts(ops).reverse() + v + backs(ops));
    } else {
        match ops[0] {
            Push::Front(x) => {
                lemma_after_ops(seq![x] + v, ops.drop_first());
                assert(fronts(ops.drop_first()).reverse() + (seq![x] + v) + backs(
                    ops.drop_first(),
                ) =~= fronts(ops).reverse() + v + backs(ops));
            },
            Push::Back(x) => {
                lemma_after_ops(v + seq![x], ops.drop_first());
                assert(fronts(ops.drop_first()).reverse() + (v + seq![x]) + backs(
                    ops.drop_first(),
                ) =~= fronts(ops).reverse() + v + backs(ops));
            },
        }
    }
}

/// Deque symmetry: after any interleaving of front and back pushes on an
/// empty deque, the view holds the front pushes newest first and then the
/// back pushes oldest first. Each `pop_front` removes and returns the
/// view's first element, so a full front-to-back drain yields exactly that
/// order, and draining from the back yields its reverse.
pub proof fn lemma_push_symmetry<T>(ops: Seq<Push<T>>)
    ensures
        after_ops(Seq::<T>::empty(), ops) == fronts(ops).reverse() + backs(ops),
{
    lemma_after_ops(Seq::<T>::empty(), ops);
    assert(fronts(ops).reverse() + Seq::<T>::empty() + backs(ops) =~= fronts(ops).reverse()
        + backs(ops));
}

} // verus!
