use hyprcube::undo::{UndoEntry, UndoStack};

#[test]
fn rollback_visits_newest_first() {
    let mut s = UndoStack::new();
    assert!(s.is_empty());
    s.push(UndoEntry { key: "general:gaps_in".into(), old_value: "5".into() });
    s.push(UndoEntry { key: "general:gaps_out".into(), old_value: "10".into() });
    assert!(s.is_dirty());
    assert_eq!(s.len(), 2);
    let order: Vec<&str> = s.rollback_iter().iter().map(|e| e.key.as_str()).collect();
    assert_eq!(order, vec!["general:gaps_out", "general:gaps_in"]);
    s.clear();
    assert!(!s.is_dirty());
    assert_eq!(s.len(), 0);
}
