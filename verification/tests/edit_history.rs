use pdf_ui::history::EditHistory;

#[derive(Clone, Debug, PartialEq)]
enum Edit {
    Redact { page_index: usize },
    FillForm { name: String },
}

fn redaction(page_index: usize) -> Edit {
    Edit::Redact { page_index }
}

#[test]
fn undo_and_redo_walk_the_same_stack() {
    let mut history = EditHistory::default();
    history.push(redaction(0));
    history.push(redaction(1));

    assert!(history.undo().is_some());
    assert_eq!(history.len(), 1);
    assert!(history.can_redo());

    assert!(history.redo().is_some());
    assert_eq!(history.len(), 2);
    assert!(!history.can_redo());
}

#[test]
fn new_edit_discards_the_redo_branch() {
    let mut history = EditHistory::default();
    history.push(redaction(0));
    history.undo();
    history.push(redaction(1));

    assert!(!history.can_redo());
    assert_eq!(history.len(), 1);
}

#[test]
fn undo_then_redo_restores_the_queue() {
    let mut history = EditHistory::default();
    history.push(redaction(0));
    history.push(redaction(1));
    assert_eq!(history.undo(), Some(redaction(1)));
    assert_eq!(history.undo(), Some(redaction(0)));
    assert_eq!(history.undo(), None);
    assert!(history.is_empty());
    assert!(!history.can_undo());
    assert_eq!(history.redo(), Some(redaction(0)));
    assert_eq!(history.redo(), Some(redaction(1)));
    assert_eq!(history.redo(), None);
    assert_eq!(history.edits(), &[redaction(0), redaction(1)]);
}

#[test]
fn remove_and_retain_edit_the_queue() {
    let mut history = EditHistory::default();
    history.push(redaction(0));
    history.push(Edit::FillForm { name: "a".to_owned() });
    history.push(redaction(2));
    history.undo();
    assert!(history.can_redo());
    history.retain(|edit| !matches!(edit, Edit::FillForm { .. }));
    assert_eq!(history.to_vec(), vec![redaction(0)]);
    assert!(history.can_redo());
    assert_eq!(history.remove(3), None);
    assert!(history.can_redo());
    assert_eq!(history.remove(0), Some(redaction(0)));
    assert!(!history.can_redo());
    history.push(redaction(4));
    history.clear();
    assert!(history.is_empty());
    assert!(!history.can_redo());
}
