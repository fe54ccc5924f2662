use text_editor::{Document, EditorError};

fn loaded(text: &str) -> Document {
    Document::from_file(7, "notes/todo.txt".to_string(), Ok(text.to_string())).unwrap()
}

#[test]
fn untitled_document_starts_empty_and_clean() {
    let d = Document::new_untitled(12);
    assert_eq!(d.id, 12);
    assert_eq!(d.text, "");
    assert_eq!(d.title, "Untitled 12");
    assert!(d.path.is_none());
    assert!(!d.dirty);
}

#[test]
fn undo_chain_back_to_empty() {
    let mut d = Document::new_untitled(1);
    d.set_text("hello".to_string());
    d.set_text("hello world".to_string());
    d.undo();
    assert_eq!(d.text, "hello");
    d.undo();
    assert_eq!(d.text, "");
    d.undo();
    assert_eq!(d.text, "");
}

#[test]
fn undo_then_redo_restores_latest() {
    let mut d = Document::new_untitled(1);
    for t in ["a", "ab", "abc", "abcd"] {
        d.set_text(t.to_string());
    }
    d.undo();
    d.undo();
    d.undo();
    assert_eq!(d.text, "a");
    d.redo();
    assert_eq!(d.text, "ab");
    d.redo();
    d.redo();
    assert_eq!(d.text, "abcd");
    d.redo();
    assert_eq!(d.text, "abcd");
    d.undo();
    assert_eq!(d.text, "abc");
}

#[test]
fn setting_same_text_is_no_op() {
    let mut d = loaded("same");
    d.set_text("same".to_string());
    assert!(!d.dirty);
    d.undo();
    assert_eq!(d.text, "same");
    assert!(!d.dirty);
}

#[test]
fn edit_clears_redo() {
    let mut d = Document::new_untitled(1);
    d.set_text("one".to_string());
    d.set_text("two".to_string());
    d.undo();
    assert_eq!(d.text, "one");
    d.set_text("three".to_string());
    d.redo();
    assert_eq!(d.text, "three");
    d.undo();
    assert_eq!(d.text, "one");
}

#[test]
fn undo_and_redo_mark_dirty() {
    let mut d = loaded("x");
    d.set_text("y".to_string());
    assert_eq!(d.save(Ok(())), Ok(()));
    assert!(!d.dirty);
    d.undo();
    assert_eq!(d.text, "x");
    assert!(d.dirty);
}

#[test]
fn replace_all_with_empty_needle_does_nothing() {
    let mut d = loaded("some text");
    assert_eq!(d.replace_all("", "x"), 0);
    assert_eq!(d.text, "some text");
    assert!(!d.dirty);
}

#[test]
fn replace_all_in_loaded_file() {
    let mut d = loaded("foo bar foo");
    assert_eq!(d.replace_all("foo", "baz"), 2);
    assert_eq!(d.text, "baz bar baz");
    assert!(d.dirty);
}

#[test]
fn replace_all_counts_non_overlapping_from_left() {
    let mut d = loaded("aaaa");
    assert_eq!(d.replace_all("aa", "b"), 2);
    assert_eq!(d.text, "bb");
    let mut e = loaded("aaa");
    assert_eq!(e.replace_all("aa", "-"), 1);
    assert_eq!(e.text, "-a");
}

#[test]
fn replace_all_leaves_no_needle() {
    let mut d = loaded("cat, cat and a catalogue");
    assert_eq!(d.replace_all("cat", "dog"), 3);
    assert_eq!(d.text, "dog, dog and a dogalogue");
    assert!(!d.text.contains("cat"));
}

#[test]
fn replace_all_is_one_undo_step() {
    let mut d = loaded("x-x-x");
    assert_eq!(d.replace_all("x", "yy"), 3);
    assert_eq!(d.text, "yy-yy-yy");
    d.undo();
    assert_eq!(d.text, "x-x-x");
}

#[test]
fn replace_all_without_match_changes_nothing() {
    let mut d = loaded("abc");
    assert_eq!(d.replace_all("zz", "y"), 0);
    assert_eq!(d.text, "abc");
    assert!(!d.dirty);
    d.undo();
    assert_eq!(d.text, "abc");
}

#[test]
fn replace_all_non_ascii() {
    let mut d = loaded("ёлка и ёж");
    assert_eq!(d.replace_all("ё", "e"), 2);
    assert_eq!(d.text, "eлка и eж");
}

#[test]
fn save_without_path_changes_nothing() {
    let mut d = Document::new_untitled(2);
    d.set_text("draft".to_string());
    assert_eq!(d.save(Ok(())), Ok(()));
    assert!(d.dirty);
    assert!(d.path.is_none());
}

#[test]
fn save_with_path_clears_dirty() {
    let mut d = loaded("a");
    d.set_text("b".to_string());
    assert_eq!(d.save(Ok(())), Ok(()));
    assert!(!d.dirty);
}

#[test]
fn failed_save_keeps_dirty() {
    let mut d = loaded("a");
    d.set_text("b".to_string());
    let err = EditorError::Io("permission denied".to_string());
    assert_eq!(d.save(Err(err)), Err(EditorError::Io("permission denied".to_string())));
    assert!(d.dirty);
    assert_eq!(d.text, "b");
}

#[test]
fn save_as_sets_path_and_clears_dirty() {
    let mut d = Document::new_untitled(3);
    d.set_text("body".to_string());
    assert_eq!(d.save_as("out/body.txt".to_string(), Ok(())), Ok(()));
    assert_eq!(d.path.as_deref(), Some("out/body.txt"));
    assert_eq!(d.title, "body.txt");
    assert!(!d.dirty);
    assert_eq!(d.text, "body");
}

#[test]
fn failed_save_as_still_records_path() {
    let mut d = Document::new_untitled(3);
    d.set_text("body".to_string());
    let r = d.save_as("ro/body.txt".to_string(), Err(EditorError::Io("read-only".to_string())));
    assert_eq!(r, Err(EditorError::Io("read-only".to_string())));
    assert_eq!(d.path.as_deref(), Some("ro/body.txt"));
    assert_eq!(d.title, "body.txt");
    assert!(d.dirty);
}

#[test]
fn from_file_takes_base_name_as_title() {
    let d = loaded("content");
    assert_eq!(d.id, 7);
    assert_eq!(d.title, "todo.txt");
    assert_eq!(d.path.as_deref(), Some("notes/todo.txt"));
    assert_eq!(d.text, "content");
    assert!(!d.dirty);
}

#[test]
fn from_file_without_file_name_uses_generic_title() {
    let d = Document::from_file(4, "/".to_string(), Ok(String::new())).unwrap();
    assert_eq!(d.title, "Документ");
}

#[test]
fn from_file_passes_read_error_on() {
    let r = Document::from_file(4, "missing.txt".to_string(), Err(EditorError::Io("not found".to_string())));
    assert_eq!(r.err(), Some(EditorError::Io("not found".to_string())));
}

#[test]
fn redo_steps_forward_one_edit_at_a_time() {
    let mut d = Document::new_untitled(1);
    for t in ["t1", "t2", "t3", "t4", "t5"] {
        d.set_text(t.to_string());
    }
    for _ in 0..4 {
        d.undo();
    }
    assert_eq!(d.text, "t1");
    d.redo();
    assert_eq!(d.text, "t2");
    d.redo();
    assert_eq!(d.text, "t3");
}
