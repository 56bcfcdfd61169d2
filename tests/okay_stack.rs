use linked_stacks::okay_stack::OkayStack;

#[test]
fn okay_stack_push_pop_test() {
    let mut stack = OkayStack::new();

    assert_eq!(stack.pop(), None);

    stack.push(6);
    stack.push(5);
    stack.push(4);

    assert_eq!(stack.pop(), Some(4));
    assert_eq!(stack.pop(), Some(5));

    stack.push(8);
    stack.push(7);

    assert_eq!(stack.pop(), Some(7));
    assert_eq!(stack.pop(), Some(8));
    assert_eq!(stack.pop(), Some(6));
    assert_eq!(stack.pop(), None);
}

#[test]
fn peek_test() {
    let mut stack = OkayStack::new();

    stack.push(4);
    stack.push(5);
    stack.push(6);

    assert_eq!(stack.peek(), Some(&6));

    stack.peek_mut().map(|value| *value = 7);
    assert_eq!(stack.peek(), Some(&7));

    assert_eq!(stack.pop(), Some(7));
    assert_eq!(stack.pop(), Some(5));
    assert_eq!(stack.pop(), Some(4));
    assert_eq!(stack.pop(), None);
}

#[test]
fn into_iter() {
    let mut stack = OkayStack::new();
    stack.push(4);
    stack.push(5);
    stack.push(6);

    let mut iter = stack.into_iter();
    assert_eq!(iter.next(), Some(6));
    assert_eq!(iter.next(), Some(5));
    assert_eq!(iter.next(), Some(4));
    assert_eq!(iter.next(), None);
}

#[test]
fn iter() {
    let mut stack = OkayStack::new();
    stack.push(4);
    stack.push(5);
    stack.push(6);

    let mut iter = stack.iter();
    assert_eq!(iter.next(), Some(&6));
    assert_eq!(iter.next(), Some(&5));
    assert_eq!(iter.next(), Some(&4));
}

#[test]
fn iter_mut() {
    let mut stack = OkayStack::new();
    stack.push(4);
    stack.push(5);
    stack.push(6);

    let mut iter = stack.iter_mut();
    assert_eq!(iter.next(), Some(&mut 6));
    assert_eq!(iter.next(), Some(&mut 5));
    assert_eq!(iter.next(), Some(&mut 4));
}

#[test]
fn pops_come_out_in_reverse_push_order() {
    let mut stack = OkayStack::new();
    for v in 1..=10 {
        stack.push(v);
    }
    for v in (1..=10).rev() {
        assert_eq!(stack.pop(), Some(v));
    }
    assert_eq!(stack.pop(), None);
}

#[test]
fn pop_on_empty_stays_empty() {
    let mut stack: OkayStack<i32> = OkayStack::new();
    assert_eq!(stack.pop(), None);
    assert_eq!(stack.pop(), None);
    assert_eq!(stack.pop(), None);
    assert_eq!(stack.peek(), None);
    assert_eq!(stack.peek_mut(), None);
    stack.push(1);
    assert_eq!(stack.pop(), Some(1));
    assert_eq!(stack.pop(), None);
    assert_eq!(stack.pop(), None);
}

#[test]
fn peek_leaves_pop_unchanged() {
    let mut stack = OkayStack::new();
    stack.push(String::from("a"));
    stack.push(String::from("b"));
    assert_eq!(stack.peek().map(|s| s.as_str()), Some("b"));
    assert_eq!(stack.peek().map(|s| s.as_str()), Some("b"));
    assert_eq!(stack.pop(), Some(String::from("b")));
    assert_eq!(stack.peek().map(|s| s.as_str()), Some("a"));
    assert_eq!(stack.pop(), Some(String::from("a")));
    assert_eq!(stack.peek(), None);
}

#[test]
fn write_through_peek_mut_is_seen_by_peek() {
    let mut stack = OkayStack::new();
    stack.push(1);
    stack.push(2);
    if let Some(top) = stack.peek_mut() {
        *top = 20;
    }
    assert_eq!(stack.peek(), Some(&20));
    assert_eq!(stack.pop(), Some(20));
    assert_eq!(stack.pop(), Some(1));
}

#[test]
fn into_iter_matches_repeated_pop() {
    let mut a = OkayStack::new();
    let mut b = OkayStack::new();
    for v in [4, 5, 6] {
        a.push(v);
        b.push(v);
    }
    let mut iter = a.into_iter();
    for _ in 0..4 {
        assert_eq!(iter.next(), b.pop());
    }
    assert_eq!(iter.next(), None);
}

#[test]
fn into_iter_of_empty_stack_ends_at_once() {
    let stack: OkayStack<u8> = OkayStack::new();
    let mut iter = stack.into_iter();
    assert_eq!(iter.next(), None);
    assert_eq!(iter.next(), None);
}

#[test]
fn iter_ends_and_leaves_stack_alone() {
    let mut stack = OkayStack::new();
    stack.push(4);
    stack.push(5);
    stack.push(6);
    let mut iter = stack.iter();
    assert_eq!(iter.next(), Some(&6));
    assert_eq!(iter.next(), Some(&5));
    assert_eq!(iter.next(), Some(&4));
    assert_eq!(iter.next(), None);
    assert_eq!(iter.next(), None);
    assert_eq!(stack.pop(), Some(6));
    assert_eq!(stack.pop(), Some(5));
    assert_eq!(stack.pop(), Some(4));
}

#[test]
fn iter_mut_write_is_seen_by_peek() {
    let mut stack = OkayStack::new();
    stack.push(4);
    stack.push(5);
    stack.push(6);
    {
        let mut iter = stack.iter_mut();
        let first = iter.next().unwrap();
        assert_eq!(*first, 6);
        *first = 7;
        assert_eq!(iter.next(), Some(&mut 5));
        assert_eq!(iter.next(), Some(&mut 4));
        assert_eq!(iter.next(), None);
    }
    assert_eq!(stack.peek(), Some(&7));
}

#[test]
fn iter_mut_writes_every_value_in_place() {
    let mut stack = OkayStack::new();
    for v in [1, 2, 3] {
        stack.push(v);
    }
    let mut iter = stack.iter_mut();
    while let Some(v) = iter.next() {
        *v *= 10;
    }
    let mut seen = Vec::new();
    let mut iter = stack.iter();
    while let Some(v) = iter.next() {
        seen.push(*v);
    }
    assert_eq!(seen, vec![30, 20, 10]);
}

#[test]
fn dropping_a_long_stack_does_not_overflow() {
    let mut stack = OkayStack::new();
    for v in 0..100_000u32 {
        stack.push(v);
    }
    drop(stack);
}

#[test]
fn clear_empties_the_stack() {
    let mut stack = OkayStack::new();
    for v in 0..1000 {
        stack.push(v);
    }
    let _ = stack.clear();
    assert_eq!(stack.pop(), None);
    assert_eq!(stack.peek(), None);
    stack.push(3);
    assert_eq!(stack.pop(), Some(3));
}
