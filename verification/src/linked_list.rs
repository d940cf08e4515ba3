//! An immutable singly-linked cons-list with reference-counted node sharing.
//!
//! Every operation returns a new list value and leaves its receiver intact;
//! a list produced by `prepend` shares its entire tail with the original.

use std::rc::Rc;
use vstd::prelude::*;
use vstd::std_specs::cmp::PartialEqSpec;

verus! {

/// Position-by-position element equality of two sequences, in the sense of the
/// element type's own `==`.
pub open spec fn seq_eq_by_elem<T: PartialEq>(s1: Seq<T>, s2: Seq<T>) -> bool {
    &&& s1.len() == s2.len()
    &&& forall|i: int| 0 <= i < s1.len() ==> #[trigger] s1[i].eq_spec(&s2[i])
}

/// A persistent list: a shared pointer to the head node plus a cached length.
pub struct List<T> {
    elements: Rc<Node<T>>,
    length: usize,
}

enum Node<T> {
    Nil,
    Cons(Rc<T>, Rc<Node<T>>),
}

spec fn node_seq<T>(node: Node<T>) -> Seq<T>
    decreases node,
{
    match node {
        Node::Nil => Seq::empty(),
        Node::Cons(head, tail) => seq![*head] + node_seq(*tail),
    }
}

impl<T> View for List<T> {
    type V = Seq<T>;

    closed spec fn view(&self) -> Seq<T> {
        node_seq(*self.elements)
    }
}

impl<T> List<T> {
    #[verifier::type_invariant]
    spec fn length_cached(self) -> bool {
        self.length == self@.len()
    }

    /// Creates an empty list.
    pub fn new() -> (r: List<T>)
        ensures
            r@ == Seq::<T>::empty(),
    {
        List { elements: Rc::new(Node::Nil), length: 0 }
    }

    /// Creates a list of a single element.
    pub fn singleton(value: T) -> (r: List<T>)
        ensures
            r@ == seq![value],
    {
        let node = Rc::new(Node::Cons(Rc::new(value), Rc::new(Node::Nil)));
        proof {
            assert(node_seq(Node::<T>::Nil) =~= Seq::<T>::empty());
            assert(node_seq(*node) =~= seq![value]);
        }
        List { elements: node, length: 1 }
    }

    /// Prepends to the provided list, returning the new list.
    pub fn prepend(&self, value: T) -> (r: List<T>)
        requires
            self@.len() < usize::MAX,
        ensures
            r@ == seq![value] + self@,
    {
        proof {
            use_type_invariant(self);
        }
        List {
            elements: Rc::new(Node::Cons(Rc::new(value), Rc::clone(&self.elements))),
            length: self.length + 1,
        }
    }

    /// Returns the head of the list.
    pub fn head(&self) -> (r: Option<Rc<T>>)
        ensures
            self@.len() == 0 ==> r is None,
            self@.len() > 0 ==> (r matches Some(v) && *v == self@[0]),
    {
        match &*self.elements {
            Node::Nil => None,
            Node::Cons(head, _) => Some(Rc::clone(head)),
        }
    }

    /// Returns the tail of the list; the tail of an empty list is empty.
    pub fn tail(&self) -> (r: List<T>)
        ensures
            self@.len() == 0 ==> r@ == Seq::<T>::empty(),
            self@.len() > 0 ==> r@ == self@.drop_first(),
    {
        proof {
            use_type_invariant(self);
        }
        match &*self.elements {
            Node::Nil => List::new(),
            Node::Cons(_, tail) => {
                proof {
                    assert(self@.drop_first() =~= node_seq(**tail));
                }
                List { elements: Rc::clone(tail), length: self.length - 1 }
            },
        }
    }

    /// Returns the length of the list.
    pub fn len(&self) -> (r: usize)
        ensures
            r == self@.len(),
    {
        proof {
            use_type_invariant(self);
        }
        self.length
    }

    /// Determines if the list is empty.
    pub fn is_empty(&self) -> (r: bool)
        ensures
            r == (self@.len() == 0),
    {
        proof {
            use_type_invariant(self);
        }
        match self.length {
            0 => true,
            _ => false,
        }
    }

    /// Prepends an already-shared element, so that the new list aliases the
    /// value instead of copying it.
    fn prepend_rc(&self, value: Rc<T>) -> (r: List<T>)
        requires
            self@.len() < usize::MAX,
        ensures
            r@ == seq![*value] + self@,
    {
        proof {
            use_type_invariant(self);
        }
        List {
            elements: Rc::new(Node::Cons(value, Rc::clone(&self.elements))),
            length: self.length + 1,
        }
    }

    /// Reverses the list. The result shares no nodes with the source, but the
    /// element values themselves stay shared.
    pub fn reverse(&self) -> (r: List<T>)
        ensures
            r@ == self@.reverse(),
    {
        proof {
            use_type_invariant(self);
        }
        let ghost orig: Seq<T> = self@;
        let mut cur: &Node<T> = &*self.elements;
        let mut acc: List<T> = List::new();
        let ghost mut i: int = 0;
        loop
            invariant
                0 <= i <= orig.len(),
                orig.len() <= usize::MAX,
                node_seq(*cur) == orig.skip(i),
                acc@ == orig.take(i).reverse(),
                acc@.len() == i,
            ensures
                acc@ == orig.reverse(),
            decreases orig.len() - i,
        {
            match cur {
                Node::Nil => {
                    proof {
                        assert(orig.skip(i).len() == 0);
                        assert(orig.take(i) =~= orig);
                    }
                    break;
                },
                Node::Cons(head, tail) => {
                    proof {
                        assert(node_seq(*cur) =~= seq![**head] + node_seq(**tail));
                        assert(orig.skip(i).len() > 0);
                        assert(orig.skip(i)[0] == orig[i]);
                        assert(node_seq(**tail) =~= orig.skip(i + 1)) by {
                            assert(node_seq(*cur).drop_first() =~= node_seq(**tail));
                            assert(orig.skip(i).drop_first() =~= orig.skip(i + 1));
                        }
                        assert(seq![orig[i]] + orig.take(i).reverse() =~= orig.take(i + 1).reverse());
                    }
                    acc = acc.prepend_rc(Rc::clone(head));
                    cur = &**tail;
                    proof {
                        i = i + 1;
                    }
                },
            }
        }
        acc
    }

    /// Builds a list whose elements are those of the vector, in the same order.
    pub fn from_vec(vec: Vec<T>) -> (r: List<T>)
        ensures
            r@ == vec@,
    {
        let ghost orig: Seq<T> = vec@;
        let mut vec = vec;
        let total: usize = vec.len();
        let mut list: List<T> = List::new();
        loop
            invariant
                orig.len() == total,
                vec@.len() <= orig.len(),
                vec@ == orig.take(vec@.len() as int),
                list@ == orig.skip(vec@.len() as int),
            ensures
                list@ == orig,
            decreases vec@.len(),
        {
            let ghost k: int = vec@.len() as int;
            match vec.pop() {
                None => {
                    proof {
                        assert(orig.skip(0) =~= orig);
                    }
                    break;
                },
                Some(value) => {
                    proof {
                        assert(orig.take(k)[k - 1] == orig[k - 1]);
                        assert(orig.take(k).subrange(0, k - 1) =~= orig.take(k - 1));
                        assert(seq![orig[k - 1]] + orig.skip(k) =~= orig.skip(k - 1));
                    }
                    list = list.prepend(value);
                },
            }
        }
        list
    }

    /// Deconstructs the list into the head and the tail.
    pub fn deconstruct(&self) -> (r: (Option<Rc<T>>, List<T>))
        ensures
            self@.len() == 0 ==> r.0 is None && r.1@ == Seq::<T>::empty(),
            self@.len() > 0 ==> (r.0 matches Some(v) && *v == self@[0]) && r.1@ == self@.drop_first(),
    {
        (self.head(), self.tail())
    }

    /// Returns an iterator over the list.
    pub fn iter(&self) -> (r: ListIter<T>)
        ensures
            r@ == self@,
    {
        ListIter(self.clone())
    }
}

impl<T: PartialEq> vstd::std_specs::cmp::PartialEqSpecImpl for List<T> {
    open spec fn obeys_eq_spec() -> bool {
        T::obeys_eq_spec()
    }

    open spec fn eq_spec(&self, other: &List<T>) -> bool {
        seq_eq_by_elem(self@, other@)
    }
}

impl<T: PartialEq> PartialEq for List<T> {
    /// Two lists are equal when they hold the same sequence of values under
    /// element equality, whatever nodes they share.
    fn eq(&self, other: &List<T>) -> (r: bool) {
        proof {
            use_type_invariant(self);
            use_type_invariant(other);
        }
        if self.length != other.length {
            return false;
        }
        let ghost s1: Seq<T> = self@;
        let ghost s2: Seq<T> = other@;
        let mut n1: &Node<T> = &*self.elements;
        let mut n2: &Node<T> = &*other.elements;
        let ghost mut i: int = 0;
        loop
            invariant
                s1 == self@,
                s2 == other@,
                s1.len() == s2.len(),
                0 <= i <= s1.len(),
                node_seq(*n1) == s1.skip(i),
                node_seq(*n2) == s2.skip(i),
                T::obeys_eq_spec() ==> forall|j: int| 0 <= j < i ==> #[trigger] s1[j].eq_spec(&s2[j]),
            decreases s1.len() - i,
        {
            match (n1, n2) {
                (Node::Nil, Node::Nil) => {
                    proof {
                        assert(s1.skip(i).len() == 0);
                    }
                    return true;
                },
                (Node::Cons(h1, t1), Node::Cons(h2, t2)) => {
                    proof {
                        assert(node_seq(*n1) =~= seq![**h1] + node_seq(**t1));
                        assert(node_seq(*n2) =~= seq![**h2] + node_seq(**t2));
                        assert(s1.skip(i).len() > 0);
                        assert(s1.skip(i)[0] == s1[i] && s2.skip(i)[0] == s2[i]);
                        assert(node_seq(**t1) =~= s1.skip(i + 1)) by {
                            assert(s1.skip(i).drop_first() =~= s1.skip(i + 1));
                        }
                        assert(node_seq(**t2) =~= s2.skip(i + 1)) by {
                            assert(s2.skip(i).drop_first() =~= s2.skip(i + 1));
                        }
                    }
                    let v1: &T = &**h1;
                    let v2: &T = &**h2;
                    if !(*v1 == *v2) {
                        return false;
                    }
                    n1 = &**t1;
                    n2 = &**t2;
                    proof {
                        i = i + 1;
                    }
                },
                (Node::Nil, Node::Cons(_, _)) => {
                    proof {
                        assert(node_seq(*n1).len() == 0);
                        assert(node_seq(*n2).len() > 0);
                        assert(false);
                    }
                    return false;
                },
                (Node::Cons(_, _), Node::Nil) => {
                    proof {
                        assert(node_seq(*n1).len() > 0);
                        assert(node_seq(*n2).len() == 0);
                        assert(false);
                    }
                    return false;
                },
            }
        }
    }
}

impl<T> Clone for List<T> {
    /// Copies the handle to the shared node chain; the clone is the same list value.
    fn clone(&self) -> (r: Self)
        ensures
            r == *self,
    {
        proof {
            use_type_invariant(self);
        }
        List { elements: Rc::clone(&self.elements), length: self.length }
    }
}

/// A forward iterator over a list: it holds the list of elements not yet yielded.
pub struct ListIter<T>(List<T>);

impl<T> View for ListIter<T> {
    type V = Seq<T>;

    closed spec fn view(&self) -> Seq<T> {
        self.0@
    }
}

impl<T> ListIter<T> {
    /// Yields the next element, or nothing once the list is exhausted.
    pub fn next(&mut self) -> (r: Option<Rc<T>>)
        ensures
            old(self)@.len() == 0 ==> r is None && final(self)@ == old(self)@,
            old(self)@.len() > 0 ==> (r matches Some(v) && *v == old(self)@[0])
                && final(self)@ == old(self)@.drop_first(),
    {
        let (head, tail) = self.0.deconstruct();
        *self = ListIter(tail);
        head
    }
}

/// Law: prepending a value and then taking the tail gives back the original
/// list, and the head of the prepended list is the prepended value. By
/// `prepend`'s contract the new list is viewed as `seq![value] + s` where `s`
/// views the original; `tail` returns the view's `drop_first` and `head` the
/// view's first element.
pub proof fn lemma_prepend_tail_head<T>(s: Seq<T>, value: T)
    ensures
        (seq![value] + s).len() > 0,
        (seq![value] + s).drop_first() == s,
        (seq![value] + s)[0] == value,
{
    assert((seq![value] + s).drop_first() =~= s);
}

/// Law: reversing a list twice gives back the original list. `reverse`
/// returns a list viewed as the reversed view of its receiver, so two
/// applications view as the receiver's own view.
pub proof fn lemma_reverse_involution<T>(s: Seq<T>)
    ensures
        s.reverse().reverse() == s,
{
    assert(s.reverse().reverse() =~= s);
}

/// Law: iterating a list until absent yields exactly `len()` elements. After
/// `k` calls to `next` on an iterator opened over a list viewed as `s`, the
/// remaining view is `s.skip(k)` (by `next`'s contract), and `next` yields an
/// element exactly while `k < s.len()`: the count of yielded elements is
/// `s.len()`, the value `len` returns.
pub proof fn lemma_iteration_counts_len<T>(s: Seq<T>, k: int)
    requires
        0 <= k <= s.len(),
    ensures
        s.skip(k).len() == s.len() - k,
        (s.skip(k).len() == 0) <==> (k == s.len()),
        k < s.len() ==> s.skip(k)[0] == s[k] && s.skip(k).drop_first() == s.skip(k + 1),
{
    if k < s.len() {
        assert(s.skip(k).drop_first() =~= s.skip(k + 1));
    }
}

} // verus!
