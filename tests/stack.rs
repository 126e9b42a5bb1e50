use worker_pool::stack::Stack;

#[test]
fn stack_starts_empty() {
    let s: Stack<u32> = Stack::new();
    assert!(s.is_empty());
    assert_eq!(s.size(), 0);
    assert_eq!(s.peek(), None);
}

#[test]
fn stack_is_last_in_first_out() {
    let mut s: Stack<u32> = Stack::new();
    s.push(1);
    s.push(2);
    s.push(3);
    assert_eq!(s.size(), 3);
    assert_eq!(s.peek(), Some(&3));
    assert_eq!(s.pop(), Some(3));
    assert_eq!(s.pop(), Some(2));
    assert_eq!(s.peek(), Some(&1));
    assert_eq!(s.pop(), Some(1));
    assert!(s.is_empty());
}

#[test]
fn pop_on_empty_stack_is_none() {
    let mut s: Stack<String> = Stack::new();
    assert_eq!(s.pop(), None);
    s.push("a".to_string());
    assert_eq!(s.pop(), Some("a".to_string()));
    assert_eq!(s.pop(), None);
    assert_eq!(s.size(), 0);
}
