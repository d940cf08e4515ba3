use persistent_collections::amortized_queue::Queue;
use persistent_collections::linked_list::List;

fn list_of(values: &[i32]) -> List<i32> {
    List::from_vec(values.to_vec())
}

fn drain(queue: &Queue<i32>) -> Vec<i32> {
    let mut out = Vec::new();
    let mut cur = queue.clone();
    loop {
        let (head, rest) = cur.dequeue();
        match head {
            Some(value) => out.push(*value),
            None => return out,
        }
        cur = rest;
    }
}

fn collect(list: &List<i32>) -> Vec<i32> {
    let mut out = Vec::new();
    let mut it = list.iter();
    while let Some(value) = it.next() {
        out.push(*value);
    }
    out
}

#[test]
fn prepend_then_tail_gives_back_list() {
    let list = list_of(&[2, 3]);
    let prepended = list.prepend(1);
    assert!(prepended.tail() == list);
    let head = prepended.head();
    assert_eq!(*head.unwrap(), 1);
    assert_eq!(prepended.len(), 3);
    assert_eq!(list.len(), 2);
}

#[test]
fn prepend_on_empty() {
    let empty: List<i32> = List::new();
    let one = empty.prepend(7);
    assert!(one.tail() == empty);
    assert_eq!(*one.head().unwrap(), 7);
}

#[test]
fn reverse_twice_is_identity() {
    let list = list_of(&[1, 2, 3, 4]);
    assert!(list.reverse().reverse() == list);
    assert_eq!(collect(&list.reverse()), vec![4, 3, 2, 1]);
}

#[test]
fn reverse_of_empty_and_singleton() {
    let empty: List<i32> = List::new();
    assert!(empty.reverse() == List::new());
    assert!(List::singleton(5).reverse() == List::singleton(5));
}

#[test]
fn len_counts_elements_yielded_by_iteration() {
    for n in 0..6 {
        let values: Vec<i32> = (0..n).collect();
        let list = List::from_vec(values);
        let mut count: usize = 0;
        let mut it = list.iter();
        while it.next().is_some() {
            count += 1;
        }
        assert_eq!(list.len(), count);
    }
}

#[test]
fn queue_is_fifo() {
    let queue = Queue::new();
    let queue = queue.enqueue(10);
    let queue = queue.enqueue(20);
    let queue = queue.enqueue(30);
    let queue = queue.enqueue(40);
    assert_eq!(drain(&queue), vec![10, 20, 30, 40]);
}

#[test]
fn queue_is_fifo_across_interleaved_operations() {
    let q = Queue::new().enqueue(1).enqueue(2);
    let (first, q) = q.dequeue();
    assert_eq!(*first.unwrap(), 1);
    let q = q.enqueue(3).enqueue(4);
    let (second, q) = q.dequeue();
    assert_eq!(*second.unwrap(), 2);
    assert_eq!(drain(&q), vec![3, 4]);
}

#[test]
fn observation_leaves_values_unchanged() {
    let list = list_of(&[1, 2, 3]);
    let copy = list.clone();
    assert_eq!(*list.head().unwrap(), 1);
    assert_eq!(*list.head().unwrap(), 1);
    assert_eq!(collect(&list), vec![1, 2, 3]);
    assert_eq!(collect(&list), vec![1, 2, 3]);
    assert!(list == copy);

    let queue = Queue::new().enqueue(1).enqueue(2);
    assert_eq!(drain(&queue), vec![1, 2]);
    assert_eq!(drain(&queue), vec![1, 2]);
}

#[test]
fn enqueue_is_persistent() {
    let q1 = Queue::new().enqueue(1).enqueue(2);
    let q2 = q1.enqueue(3);
    assert_eq!(drain(&q1), vec![1, 2]);
    assert_eq!(drain(&q2), vec![1, 2, 3]);
    assert_eq!(drain(&q1), vec![1, 2]);
}

#[test]
fn prepend_is_persistent() {
    let base = list_of(&[8, 9]);
    let left = base.prepend(1);
    let right = base.prepend(2);
    assert_eq!(collect(&base), vec![8, 9]);
    assert_eq!(collect(&left), vec![1, 8, 9]);
    assert_eq!(collect(&right), vec![2, 8, 9]);
}

#[test]
fn enqueue_three_then_dequeue_until_empty() {
    let q0 = Queue::new();
    let q1 = q0.enqueue(1);
    let q2 = q1.enqueue(2);
    let q3 = q2.enqueue(3);
    let (a, q4) = q3.dequeue();
    assert_eq!(*a.unwrap(), 1);
    let (b, q5) = q4.dequeue();
    assert_eq!(*b.unwrap(), 2);
    let (c, q6) = q5.dequeue();
    assert_eq!(*c.unwrap(), 3);
    let (d, q7) = q6.dequeue();
    assert!(d.is_none());
    assert!(q7 == q6);
}

#[test]
fn list_from_vec_iterates_in_order() {
    let list = List::from_vec(vec![1, 2, 3]);
    assert_eq!(collect(&list), vec![1, 2, 3]);
}

#[test]
fn empty_list_behaviour() {
    let empty: List<i32> = List::new();
    assert!(empty.is_empty());
    assert_eq!(empty.len(), 0);
    assert!(empty.head().is_none());
    assert!(empty.tail() == List::new());
    let (head, tail) = empty.deconstruct();
    assert!(head.is_none());
    assert!(tail == List::new());
}

#[test]
fn dequeue_of_empty_queue_is_not_an_error() {
    let empty: Queue<i32> = Queue::new();
    let (head, rest) = empty.dequeue();
    assert!(head.is_none());
    assert!(rest == empty);
}

#[test]
fn singleton_holds_one_element() {
    let one = List::singleton(5);
    assert_eq!(one.len(), 1);
    assert!(!one.is_empty());
    assert_eq!(*one.head().unwrap(), 5);
    assert!(one.tail() == List::new());
}

#[test]
fn deconstruct_splits_head_and_tail() {
    let list = list_of(&[4, 5, 6]);
    let (head, tail) = list.deconstruct();
    assert_eq!(*head.unwrap(), 4);
    assert_eq!(collect(&tail), vec![5, 6]);
}

#[test]
fn list_equality_ignores_sharing() {
    let shared_tail = list_of(&[2, 3]);
    let via_prepend = shared_tail.prepend(1);
    let rebuilt = list_of(&[1, 2, 3]);
    assert!(via_prepend == rebuilt);
    assert!(via_prepend != list_of(&[1, 2, 4]));
    assert!(via_prepend != list_of(&[1, 2]));
    assert!(List::<i32>::new() == List::new());
}

#[test]
fn queue_equality_ignores_internal_split() {
    let all_in_back = Queue::new().enqueue(1).enqueue(2).enqueue(3);
    let (zero, split) = Queue::new().enqueue(0).enqueue(1).dequeue();
    assert_eq!(*zero.unwrap(), 0);
    let split = split.enqueue(2).enqueue(3);
    assert!(all_in_back == split);
    assert!(all_in_back != Queue::new().enqueue(1).enqueue(2));
    assert!(all_in_back != Queue::new().enqueue(1).enqueue(2).enqueue(4));
}

#[test]
fn queue_clone_preserves_pending_back_elements() {
    let (first, queue) = Queue::new().enqueue(1).enqueue(2).dequeue();
    assert_eq!(*first.unwrap(), 1);
    let queue = queue.enqueue(3);
    let copy = queue.clone();
    assert_eq!(drain(&copy), vec![2, 3]);
    assert_eq!(drain(&queue), vec![2, 3]);
    assert!(copy == queue);
}

#[test]
fn values_are_shared_not_copied() {
    let list = List::singleton(41);
    let from_head = list.head().unwrap();
    let again = list.head().unwrap();
    assert!(std::rc::Rc::ptr_eq(&from_head, &again));
}
