//! A persistent FIFO queue with amortized-O(1) operations, built from two
//! persistent lists: `enqueue` prepends to `back`, `dequeue` pops from
//! `front`, and when `front` runs out the `back` list is reversed into a new
//! `front`.
//!
//! The view of a queue is its logical content in arrival order: the `front`
//! elements followed by the `back` elements reversed. Every operation returns
//! a new queue value; the receiver stays valid and unchanged.

use std::rc::Rc;
use vstd::prelude::*;
use vstd::std_specs::cmp::PartialEqSpec;

use crate::linked_list::List;
use crate::linked_list::seq_eq_by_elem;

verus! {

/// A persistent FIFO queue: a shared pointer to its pair of lists.
pub struct Queue<T>(Rc<QueuePrivate<T>>);

/// The internal pair: `front` holds the oldest elements in arrival order,
/// `back` holds the newest elements in reverse arrival order.
pub struct QueuePrivate<T> {
    front: Rc<List<T>>,
    back: Rc<List<T>>,
}

impl<T> View for Queue<T> {
    type V = Seq<T>;

    closed spec fn view(&self) -> Seq<T> {
        self.0.front@ + self.0.back@.reverse()
    }
}

impl<T> Queue<T> {
    /// Creates an empty queue.
    pub fn new() -> (r: Queue<T>)
        ensures
            r@ == Seq::<T>::empty(),
    {
        let r = Queue(
            Rc::new(QueuePrivate { back: Rc::new(List::new()), front: Rc::new(List::new()) }),
        );
        proof {
            assert(r@ =~= Seq::<T>::empty());
        }
        r
    }

    fn from_lists(front: Rc<List<T>>, back: Rc<List<T>>) -> (r: Queue<T>)
        ensures
            r@ == front@ + back@.reverse(),
    {
        Queue(Rc::new(QueuePrivate { back, front }))
    }

    /// Enqueue an element to the back of the queue, returning the new queue.
    pub fn enqueue(&self, value: T) -> (r: Queue<T>)
        requires
            self@.len() < usize::MAX,
        ensures
            r@ == self@.push(value),
    {
        proof {
            assert(self.0.back@.reverse().len() == self.0.back@.len());
        }
        let new_back = self.0.back.prepend(value);
        let r = Queue::from_lists(Rc::clone(&self.0.front), Rc::new(new_back));
        proof {
            assert((seq![value] + self.0.back@).reverse() =~= self.0.back@.reverse().push(value));
            assert(r@ =~= self@.push(value));
        }
        r
    }

    /// Remove an element from the front of the queue, returning the removed
    /// element and the new queue. An empty queue yields no element and another
    /// empty queue.
    pub fn dequeue(&self) -> (r: (Option<Rc<T>>, Queue<T>))
        ensures
            self@.len() == 0 ==> r.0 is None && r.1@ == Seq::<T>::empty(),
            self@.len() > 0 ==> (r.0 matches Some(v) && *v == self@[0]) && r.1@ == self@.drop_first(),
    {
        let (head, tail) = self.0.front.deconstruct();

        if head.is_some() {
            proof {
                assert(self@[0] == self.0.front@[0]);
                assert(self@.drop_first() =~= self.0.front@.drop_first() + self.0.back@.reverse());
            }
            (head, Queue::from_lists(Rc::new(tail), Rc::clone(&self.0.back)))
        } else {
            proof {
                assert(self@ =~= self.0.back@.reverse());
            }
            let temp = self.0.back.reverse();
            let (removed, new_front) = temp.deconstruct();
            let r = (removed, Queue::from_lists(Rc::new(new_front), Rc::new(List::new())));
            proof {
                assert(Seq::<T>::empty().reverse() =~= Seq::<T>::empty());
                if self@.len() == 0 {
                    assert(r.1@ =~= Seq::<T>::empty());
                } else {
                    assert(r.1@ =~= self@.drop_first());
                }
            }
            r
        }
    }
}

impl<T> Clone for Queue<T> {
    /// Copies the handle to the shared pair; the clone is the same queue
    /// value, with both the `front` and the `back` elements preserved.
    fn clone(&self) -> (r: Self)
        ensures
            r == *self,
    {
        Queue(Rc::clone(&self.0))
    }
}

impl<T: PartialEq> vstd::std_specs::cmp::PartialEqSpecImpl for Queue<T> {
    open spec fn obeys_eq_spec() -> bool {
        T::obeys_eq_spec()
    }

    open spec fn eq_spec(&self, other: &Queue<T>) -> bool {
        seq_eq_by_elem(self@, other@)
    }
}

impl<T: PartialEq> PartialEq for Queue<T> {
    /// Two queues are equal when their logical contents are equal, whatever
    /// the internal front/back split of each.
    fn eq(&self, other: &Queue<T>) -> (r: bool) {
        let ghost s1: Seq<T> = self@;
        let ghost s2: Seq<T> = other@;
        let mut a = self.clone();
        let mut b = other.clone();
        let ghost mut i: int = 0;
        proof {
            assert(s1.skip(0) =~= s1);
            assert(s2.skip(0) =~= s2);
        }
        loop
            invariant
                s1 == self@,
                s2 == other@,
                0 <= i <= s1.len(),
                0 <= i <= s2.len(),
                a@ == s1.skip(i),
                b@ == s2.skip(i),
                T::obeys_eq_spec() ==> forall|j: int| 0 <= j < i ==> #[trigger] s1[j].eq_spec(&s2[j]),
            decreases s1.len() - i,
        {
            let (h1, a_rest) = a.dequeue();
            let (h2, b_rest) = b.dequeue();
            match (h1, h2) {
                (None, None) => {
                    proof {
                        assert(s1.skip(i).len() == 0 && s2.skip(i).len() == 0);
                    }
                    return true;
                },
                (Some(x), Some(y)) => {
                    proof {
                        assert(s1.skip(i)[0] == s1[i] && s2.skip(i)[0] == s2[i]);
                        assert(s1.skip(i).drop_first() =~= s1.skip(i + 1));
                        assert(s2.skip(i).drop_first() =~= s2.skip(i + 1));
                    }
                    let v1: &T = &*x;
                    let v2: &T = &*y;
                    if !(*v1 == *v2) {
                        return false;
                    }
                    a = a_rest;
                    b = b_rest;
                    proof {
                        i = i + 1;
                    }
                },
                (None, Some(_)) => {
                    proof {
                        assert(s1.skip(i).len() == 0 && s2.skip(i).len() > 0);
                    }
                    return false;
                },
                (Some(_), None) => {
                    proof {
                        assert(s1.skip(i).len() > 0 && s2.skip(i).len() == 0);
                    }
                    return false;
                },
            }
        }
    }
}

/// Law: a queue whose content in arrival order is `s` dequeues `s[0], s[1],
/// ...` in that order, whatever the internal front/back split (which the view
/// hides). By `dequeue`'s contract, the call on a queue viewed as `s.skip(k)`
/// yields `s[k]` and leaves a queue viewed as `s.skip(k + 1)`; `enqueue`
/// appends to the view, so `n` enqueues on an empty queue give the view
/// `[v1, ..., vn]`.
pub proof fn lemma_fifo_order<T>(s: Seq<T>, k: int)
    requires
        0 <= k < s.len(),
    ensures
        s.skip(k).len() > 0,
        s.skip(k)[0] == s[k],
        s.skip(k).drop_first() == s.skip(k + 1),
{
    assert(s.skip(k).drop_first() =~= s.skip(k + 1));
}

} // verus!
