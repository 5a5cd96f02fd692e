use petruterm_shell::undo::{UndoStack, UNDO_STACK_CAP};

#[test]
fn undo_pops_most_recent_write_first() {
    let mut s = UndoStack::new();
    s.push(("a.txt".to_string(), "one".to_string()));
    s.push(("b.txt".to_string(), "two".to_string()));
    assert_eq!(s.pop(), Some(("b.txt".to_string(), "two".to_string())));
    assert_eq!(s.pop(), Some(("a.txt".to_string(), "one".to_string())));
    assert_eq!(s.pop(), None);
}

#[test]
fn undo_stack_forgets_oldest_when_full() {
    let mut s = UndoStack::new();
    for i in 0..(UNDO_STACK_CAP + 3) {
        s.push(i);
    }
    assert_eq!(s.len(), UNDO_STACK_CAP);
    for i in (3..(UNDO_STACK_CAP + 3)).rev() {
        assert_eq!(s.pop(), Some(i));
    }
    assert_eq!(s.pop(), None);
    assert_eq!(s.len(), 0);
}
