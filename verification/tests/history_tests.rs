use drakkar_vfx::history::{AssetBuffer, BufferError, MAX_HISTORY};

#[test]
fn new_buffer_holds_one_state() {
    let b = AssetBuffer::new(7);
    assert_eq!(*b.current_state(), 7);
    assert!(!b.can_undo());
    assert!(!b.can_redo());
    assert!(!b.is_modified);
    assert!(b.disk_timestamp.is_none());
}

#[test]
fn add_then_undo_restores_previous_state() {
    let mut b = AssetBuffer::new(1);
    b.add_state(2);
    assert_eq!(*b.current_state(), 2);
    assert!(b.is_modified);
    assert!(b.can_undo());
    assert!(!b.can_redo());
    assert!(b.undo());
    assert_eq!(*b.current_state(), 1);
    assert!(!b.undo());
    assert_eq!(*b.current_state(), 1);
}

#[test]
fn undo_then_redo_restores_state() {
    let mut b = AssetBuffer::new(1);
    b.add_state(2);
    b.add_state(3);
    assert!(b.undo());
    assert!(b.undo());
    assert_eq!(*b.current_state(), 1);
    assert!(b.redo());
    assert_eq!(*b.current_state(), 2);
    assert!(b.redo());
    assert_eq!(*b.current_state(), 3);
    assert!(!b.redo());
}

#[test]
fn adding_after_undo_drops_redo_states() {
    let mut b = AssetBuffer::new(1);
    b.add_state(2);
    b.add_state(3);
    b.undo();
    b.undo();
    b.add_state(4);
    assert_eq!(b.history.iter().copied().collect::<Vec<_>>(), vec![1, 4]);
    assert!(!b.can_redo());
    assert!(b.undo());
    assert_eq!(*b.current_state(), 1);
}

#[test]
fn history_is_capped() {
    let mut b = AssetBuffer::new(0);
    for i in 1..=100 {
        b.add_state(i);
    }
    assert_eq!(b.history.len(), MAX_HISTORY);
    assert_eq!(*b.current_state(), 100);
    assert_eq!(b.history[0], 100 - 63);
    let mut undos = 0;
    while b.undo() {
        undos += 1;
    }
    assert_eq!(undos, MAX_HISTORY - 1);
    assert_eq!(*b.current_state(), 37);
}

#[test]
fn mark_saved_clears_modified() {
    let mut b = AssetBuffer::new("a");
    b.add_state("b");
    assert!(b.is_modified);
    b.mark_saved();
    assert!(!b.is_modified);
    assert_eq!(*b.current_state(), "b");
}

#[test]
fn buffer_error_messages() {
    let e = BufferError::Parse { path: "vfx/fire.hanabi.ron".to_string(), message: "bad".to_string() };
    assert_eq!(e.to_string(), "Parse error for vfx/fire.hanabi.ron: bad");
    let e = BufferError::File { path: "a".to_string(), message: "gone".to_string() };
    assert_eq!(e.to_string(), "File error for a: gone");
    let e = BufferError::Conversion { path: "b".to_string(), message: String::new() };
    assert_eq!(e.to_string(), "Conversion error for b: ");
}
