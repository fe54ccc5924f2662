use text_editor::naming::{autosave_file_name_for, untitled_title_for};
use text_editor::{AutosaveTask, DocumentSet, EditorError};

fn ids(set: &DocumentSet) -> Vec<usize> {
    set.documents().iter().map(|d| d.id).collect()
}

#[test]
fn new_session_has_one_untitled_document() {
    let set = DocumentSet::new(0);
    assert_eq!(ids(&set), vec![1]);
    assert_eq!(set.active_index(), 0);
    assert_eq!(set.current_doc().title, "Untitled 1");
}

#[test]
fn new_document_is_appended_and_active() {
    let mut set = DocumentSet::new(0);
    set.new_document();
    set.new_document();
    assert_eq!(ids(&set), vec![1, 2, 3]);
    assert_eq!(set.active_index(), 2);
    assert_eq!(set.current_doc().title, "Untitled 3");
}

#[test]
fn identities_are_not_reused_after_close() {
    let mut set = DocumentSet::new(0);
    set.new_document();
    assert_eq!(set.close_document(1), Ok(()));
    set.new_document();
    assert_eq!(ids(&set), vec![1, 3]);
}

#[test]
fn closing_the_only_document_is_refused() {
    let mut set = DocumentSet::new(0);
    set.set_text("keep".to_string());
    assert_eq!(set.close_document(0), Err(EditorError::LastDocument));
    assert_eq!(set.documents().len(), 1);
    assert_eq!(set.current_doc().text, "keep");
}

#[test]
fn closing_out_of_range_is_refused() {
    let mut set = DocumentSet::new(0);
    set.new_document();
    assert_eq!(set.close_document(2), Err(EditorError::IndexOutOfRange));
    assert_eq!(ids(&set), vec![1, 2]);
}

#[test]
fn closing_the_last_tab_while_active_moves_active_back() {
    let mut set = DocumentSet::new(0);
    set.new_document();
    set.new_document();
    assert_eq!(set.close_document(2), Ok(()));
    assert_eq!(set.active_index(), 1);
    assert_eq!(set.current_doc().id, 2);
}

#[test]
fn closing_before_active_keeps_position() {
    let mut set = DocumentSet::new(0);
    set.new_document();
    set.new_document();
    assert_eq!(set.set_active(1), Ok(()));
    assert_eq!(set.close_document(0), Ok(()));
    assert_eq!(set.active_index(), 1);
    assert_eq!(set.current_doc().id, 3);
}

#[test]
fn set_active_checks_bounds() {
    let mut set = DocumentSet::new(0);
    set.new_document();
    assert_eq!(set.set_active(0), Ok(()));
    assert_eq!(set.current_doc().id, 1);
    assert_eq!(set.set_active(5), Err(EditorError::IndexOutOfRange));
    assert_eq!(set.active_index(), 0);
}

#[test]
fn open_document_appends_loaded_file() {
    let mut set = DocumentSet::new(0);
    assert_eq!(set.open_document("docs/a.md".to_string(), Ok("# A".to_string())), Ok(()));
    assert_eq!(ids(&set), vec![1, 2]);
    assert_eq!(set.active_index(), 1);
    let d = set.current_doc();
    assert_eq!(d.title, "a.md");
    assert_eq!(d.text, "# A");
    assert!(!d.dirty);
}

#[test]
fn failed_open_leaves_session_unchanged() {
    let mut set = DocumentSet::new(0);
    let r = set.open_document("gone.txt".to_string(), Err(EditorError::Io("not found".to_string())));
    assert_eq!(r, Err(EditorError::Io("not found".to_string())));
    assert_eq!(ids(&set), vec![1]);
    set.new_document();
    assert_eq!(ids(&set), vec![1, 2]);
}

#[test]
fn edits_go_to_the_active_document() {
    let mut set = DocumentSet::new(0);
    set.new_document();
    set.set_text("second".to_string());
    assert_eq!(set.set_active(0), Ok(()));
    set.set_text("first".to_string());
    assert_eq!(set.replace_all("first", "1st"), 1);
    set.undo();
    assert_eq!(set.current_doc().text, "first");
    set.redo();
    assert_eq!(set.current_doc().text, "1st");
    assert_eq!(set.documents()[1].text, "second");
}

#[test]
fn save_and_save_as_on_active_document() {
    let mut set = DocumentSet::new(0);
    set.set_text("x".to_string());
    assert_eq!(set.save(Ok(())), Ok(()));
    assert!(set.current_doc().dirty);
    assert_eq!(set.save_as("x.txt".to_string(), Ok(())), Ok(()));
    assert!(!set.current_doc().dirty);
    assert_eq!(set.current_doc().path.as_deref(), Some("x.txt"));
    assert_eq!(set.current_doc().title, "x.txt");
}

#[test]
fn autosave_writes_scratch_files_for_untitled_documents() {
    let mut set = DocumentSet::new(0);
    set.new_document();
    set.new_document();
    set.new_document();
    set.new_document();
    assert_eq!(set.close_document(3), Ok(()));
    assert_eq!(set.close_document(1), Ok(()));
    assert_eq!(set.close_document(0), Ok(()));
    assert_eq!(ids(&set), vec![3, 5]);
    assert_eq!(set.set_active(0), Ok(()));
    set.set_text("three".to_string());
    assert_eq!(set.set_active(1), Ok(()));
    set.set_text("five".to_string());

    let tasks = set.autosave_sweep(60_000, 60_000);
    assert_eq!(tasks.len(), 2);
    let mut written = Vec::new();
    for task in &tasks {
        match task {
            AutosaveTask::Scratch { index, file_name } => {
                written.push((file_name.clone(), set.documents()[*index].text.clone()));
            }
            AutosaveTask::Save { .. } => panic!("untitled documents are not saved"),
        }
    }
    assert_eq!(
        written,
        vec![
            ("autosave_3.txt".to_string(), "three".to_string()),
            ("autosave_5.txt".to_string(), "five".to_string()),
        ]
    );
    assert!(set.documents().iter().all(|d| d.dirty));
}

#[test]
fn autosave_saves_documents_with_a_path_and_skips_clean_ones() {
    let mut set = DocumentSet::new(100);
    assert_eq!(set.open_document("a.txt".to_string(), Ok("a".to_string())), Ok(()));
    set.set_text("a2".to_string());
    assert_eq!(set.open_document("b.txt".to_string(), Ok("b".to_string())), Ok(()));
    let tasks = set.autosave_sweep(200, 100);
    assert_eq!(tasks.len(), 1);
    match &tasks[0] {
        AutosaveTask::Save { index } => {
            assert_eq!(*index, 1);
            assert_eq!(set.save_document(*index, Ok(())), Ok(()));
        }
        AutosaveTask::Scratch { .. } => panic!("a document with a path gets a real save"),
    }
    assert!(!set.documents()[1].dirty);
    assert_eq!(set.save_document(9, Ok(())), Err(EditorError::IndexOutOfRange));
}

#[test]
fn autosave_waits_for_the_interval() {
    let mut set = DocumentSet::new(1_000);
    set.set_text("pending".to_string());
    assert!(set.autosave_sweep(1_500, 1_000).is_empty());
    assert!(set.autosave_sweep(500, 1_000).is_empty());
    assert_eq!(set.autosave_sweep(2_000, 1_000).len(), 1);
    assert!(set.autosave_sweep(2_500, 1_000).is_empty());
    assert_eq!(set.autosave_sweep(3_000, 1_000).len(), 1);
}

#[test]
fn autosave_sweep_with_nothing_dirty_still_records_time() {
    let mut set = DocumentSet::new(0);
    assert!(set.autosave_sweep(10, 10).is_empty());
    set.set_text("now dirty".to_string());
    assert!(set.autosave_sweep(15, 10).is_empty());
    assert_eq!(set.autosave_sweep(20, 10).len(), 1);
}

#[test]
fn names_use_decimal_identities() {
    assert_eq!(untitled_title_for(0), "Untitled 0");
    assert_eq!(untitled_title_for(1234567890), "Untitled 1234567890");
    assert_eq!(autosave_file_name_for(42), "autosave_42.txt");
    assert_eq!(autosave_file_name_for(usize::MAX), format!("autosave_{}.txt", usize::MAX));
}
