use factorio::ring_buffer::RingBuffer;

#[test]
fn empty_length() {
    assert_eq!(RingBuffer::<i32>::new(10).len(), 0)
}

#[test]
fn one_length() {
    let mut rb = RingBuffer::new(10);
    rb.enqueue(5);
    assert_eq!(rb.len(), 1);
}

#[test]
fn keep_fixed_size() {
    let mut rb = RingBuffer::new(10);
    for i in 0..20 {
        rb.enqueue(i);
    }

    assert_eq!(rb.len(), 10);
}

#[test]
fn enqueue_dequeue_one() {
    let mut rb = RingBuffer::new(10);
    rb.enqueue(5);
    assert_eq!(rb.dequeue(), Some(5));
}

#[test]
fn enqueue_dequeue_two() {
    let mut rb = RingBuffer::new(10);
    rb.enqueue(5);
    rb.enqueue(6);
    assert_eq!(rb.dequeue(), Some(5));
    assert_eq!(rb.dequeue(), Some(6));
}

#[test]
fn enqueue_dequeue_almost_all() {
    let mut rb = RingBuffer::new(10);
    for i in 0..9 {
        rb.enqueue(i * 10);
    }
    for i in 0..9 {
        assert_eq!(rb.dequeue(), Some(i * 10));
    }
}

#[test]
fn enqueue_dequeue_all() {
    let mut rb = RingBuffer::new(10);
    for i in 0..10 {
        assert_eq!(rb.len(), i);
        rb.enqueue(i * 10);
    }
    assert_eq!(rb.len(), 10);
    for i in 0..10 {
        assert_eq!(rb.dequeue(), Some(i * 10));
    }
    assert_eq!(rb.len(), 0);
}

#[test]
fn enqueue_dequeue_all_overwrite() {
    let mut rb = RingBuffer::new(10);
    for i in 0..100 {
        assert_eq!(rb.len(), i.min(10));
        rb.enqueue(i);
    }
    assert_eq!(rb.len(), 10);
    for i in 0..10 {
        assert_eq!(rb.dequeue(), Some(i + 90));
    }
    assert_eq!(rb.len(), 0);
}

#[test]
fn enqueue_dequeues_first_when_full() {
    let mut rb = RingBuffer::new(10);
    for i in 0..10 {
        assert!(rb.enqueue(i).is_none());
    }
    for i in 0..10 {
        assert_eq!(rb.enqueue(5), Some(i));
    }
}

#[test]
fn dequeue_empty() {
    let mut rb = RingBuffer::<i32>::new(10);
    assert_eq!(rb.dequeue(), None)
}

#[test]
fn zero_size() {
    let mut rb = RingBuffer::<i32>::new(0);
    assert_eq!(rb.enqueue(5), None);
    assert_eq!(rb.dequeue(), None);
    assert_eq!(rb.peek(), None);
    assert_eq!(rb.len(), 0);
}

#[test]
fn one_size() {
    let mut rb = RingBuffer::<i32>::new(1);
    assert_eq!(rb.len(), 0);
    rb.enqueue(0);
    assert_eq!(rb.len(), 1);
    for i in 0..1000 {
        assert_eq!(rb.enqueue(i + 1), Some(i));
    }
    assert_eq!(rb.len(), 1);
    assert_eq!(rb.dequeue(), Some(1000));
    assert_eq!(rb.len(), 0);
}

#[test]
fn peek_empty() {
    assert_eq!(RingBuffer::<i32>::new(10).peek(), None);
}

#[test]
fn peek_one() {
    let mut rb = RingBuffer::<i32>::new(10);
    rb.enqueue(10);
    assert_eq!(rb.peek(), Some(&10));
}

#[test]
fn peek_more() {
    let mut rb = RingBuffer::<i32>::new(10);
    rb.enqueue(10);
    rb.enqueue(11);
    assert_eq!(rb.peek(), Some(&10));
}

#[test]
fn peek_after_dequeue() {
    let mut rb = RingBuffer::<i32>::new(10);
    rb.enqueue(10);
    rb.enqueue(11);
    rb.dequeue();
    assert_eq!(rb.peek(), Some(&11));
}

#[test]
fn peek_multiple_times() {
    let mut rb = RingBuffer::<i32>::new(10);
    rb.enqueue(10);
    assert_eq!(rb.peek(), Some(&10));
    assert_eq!(rb.peek(), Some(&10));
}

#[test]
fn peek_after_reempty() {
    let mut rb = RingBuffer::<i32>::new(10);
    rb.enqueue(10);
    rb.enqueue(11);
    rb.dequeue();
    rb.dequeue();
    assert_eq!(rb.peek(), None);
}

#[test]
fn different_type() {
    let mut rb = RingBuffer::<String>::new(10);
    rb.enqueue(String::from("foo"));
    rb.enqueue(String::from("bar"));
    assert_eq!(rb.dequeue(), Some(String::from("foo")));
    assert_eq!(rb.dequeue(), Some(String::from("bar")));
}

#[test]
fn iter_empty() {
    let rb = RingBuffer::<i32>::new(10);
    assert_eq!(rb.iter().next(), None);
}

#[test]
fn iter_single() {
    let mut rb = RingBuffer::<i32>::new(10);
    rb.enqueue(5);
    assert_eq!(rb.iter().next(), Some(&5));
}

#[test]
fn iter_full() {
    let mut rb = RingBuffer::<i32>::new(4);
    for i in 1..=4 {
        rb.enqueue(i);
    }
    assert_eq!(rb.iter().collect::<Vec<_>>(), vec![&1, &2, &3, &4]);
}

#[test]
fn iter_after_overwrite() {
    let mut rb = RingBuffer::<i32>::new(4);
    for i in 1..=6 {
        rb.enqueue(i);
    }
    assert_eq!(rb.iter().collect::<Vec<_>>(), vec![&3, &4, &5, &6]);
}
