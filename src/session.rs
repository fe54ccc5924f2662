use vstd::prelude::*;

use crate::document::{title_for_path, untitled, Document, DocumentView};
use crate::error::EditorError;
use crate::naming::{autosave_file_name, autosave_file_name_for};
use crate::search::{count_matches, replaced};

verus! {

/// The abstract state of a session.
pub struct SessionView {
    pub docs: Seq<DocumentView>,
    pub active: nat,
    pub next_id: nat,
    pub last_autosave: nat,
}

/// One write that an autosave sweep asks the front-end to perform.
pub enum AutosaveTask {
    /// Save the document at `index` to its own path, then report the outcome
    /// through `DocumentSet::save_document`.
    Save { index: usize },
    /// Write the text of the untitled document at `index` to the scratch
    /// file `file_name`. The document stays dirty whatever the outcome.
    Scratch { index: usize, file_name: String },
}

/// The abstract form of an autosave task.
pub enum AutosaveTaskView {
    Save { index: nat },
    Scratch { index: nat, file_name: Seq<char> },
}

impl View for AutosaveTask {
    type V = AutosaveTaskView;

    open spec fn view(&self) -> AutosaveTaskView {
        match self {
            AutosaveTask::Save { index } => AutosaveTaskView::Save { index: *index as nat },
            AutosaveTask::Scratch { index, file_name } => AutosaveTaskView::Scratch {
                index: *index as nat,
                file_name: file_name@,
            },
        }
    }
}

/// The task for the document `d` at position `i`, which is dirty.
pub open spec fn task_for(d: DocumentView, i: nat) -> AutosaveTaskView {
    if d.path is Some {
        AutosaveTaskView::Save { index: i }
    } else {
        AutosaveTaskView::Scratch { index: i, file_name: autosave_file_name(d.id) }
    }
}

/// The tasks of a sweep over `docs`: one for each dirty document, in tab
/// order.
pub open spec fn autosave_plan(docs: Seq<DocumentView>) -> Seq<AutosaveTaskView>
    decreases docs.len(),
{
    if docs.len() == 0 {
        Seq::empty()
    } else {
        let rest = autosave_plan(docs.drop_last());
        if docs.last().dirty {
            rest.push(task_for(docs.last(), (docs.len() - 1) as nat))
        } else {
            rest
        }
    }
}

/// Whether an autosave sweep at time `now` is due, `interval` after the last
/// one at `last`.
pub open spec fn autosave_due(now: nat, last: nat, interval: nat) -> bool {
    now >= last && now - last >= interval
}

impl SessionView {
    /// At least one document is open, the active index names one of them,
    /// and identities are distinct and below the next one to hand out.
    pub open spec fn wf(self) -> bool {
        &&& self.docs.len() >= 1
        &&& self.active < self.docs.len()
        &&& forall|i: int| 0 <= i < self.docs.len() ==> #[trigger] self.docs[i].id < self.next_id
        &&& forall|i: int, j: int|
            0 <= i < self.docs.len() && 0 <= j < self.docs.len() && i != j ==> #[trigger] self.docs[i].id
                != #[trigger] self.docs[j].id
    }

    /// The session with the active document replaced by `d`.
    pub open spec fn with_active(self, d: DocumentView) -> SessionView {
        SessionView { docs: self.docs.update(self.active as int, d), ..self }
    }

    /// The active document.
    pub open spec fn active_doc(self) -> DocumentView {
        self.docs[self.active as int]
    }
}

/// The ordered set of open documents of an editing session, the active one
/// among them, and the time of the last autosave sweep.
pub struct DocumentSet {
    docs: Vec<Document>,
    active: usize,
    next_id: usize,
    last_autosave: u64,
}

impl View for DocumentSet {
    type V = SessionView;

    closed spec fn view(&self) -> SessionView {
        SessionView {
            docs: self.docs@.map_values(|d: Document| d@),
            active: self.active as nat,
            next_id: self.next_id as nat,
            last_autosave: self.last_autosave as nat,
        }
    }
}

impl DocumentSet {
    /// A session holding one untitled document with identity 1, whose first
    /// autosave sweep falls due `now` plus the interval.
    pub fn new(now: u64) -> (r: DocumentSet)
        ensures
            r@.wf(),
            r@.docs.len() == 1,
            r@.docs[0] == untitled(1),
            r@.active == 0,
            r@.next_id == 2,
            r@.last_autosave == now,
    {
        let d = Document::new_untitled(1);
        let mut docs: Vec<Document> = Vec::new();
        docs.push(d);
        let r = DocumentSet { docs, active: 0, next_id: 2, last_autosave: now };
        assert(r@.docs =~= seq![d@]);
        r
    }

    /// The open documents, in tab order.
    pub fn documents(&self) -> (r: &Vec<Document>)
        ensures
            r@.map_values(|d: Document| d@) == self@.docs,
    {
        &self.docs
    }

    /// The position of the active document.
    pub fn active_index(&self) -> (r: usize)
        ensures
            r as nat == self@.active,
    {
        self.active
    }

    /// The identity that the next opened document will get.
    pub fn next_id(&self) -> (r: usize)
        ensures
            r as nat == self@.next_id,
    {
        self.next_id
    }

    /// The active document.
    pub fn current_doc(&self) -> (r: &Document)
        requires
            self@.wf(),
        ensures
            r@ == self@.active_doc(),
    {
        &self.docs[self.active]
    }

    /// Appends a document that carries the next identity, makes it active and
    /// moves the counter on.
    fn push_document(&mut self, d: Document)
        requires
            old(self)@.wf(),
            d@.id == old(self)@.next_id,
            old(self)@.next_id < usize::MAX,
        ensures
            final(self)@ == (SessionView {
                docs: old(self)@.docs.push(d@),
                active: old(self)@.docs.len(),
                next_id: old(self)@.next_id + 1,
                ..old(self)@
            }),
            final(self)@.wf(),
    {
        self.docs.push(d);
        self.active = self.docs.len() - 1;
        self.next_id = self.next_id + 1;
        assert(self@.docs =~= old(self)@.docs.push(d@));
    }

    /// Opens a new untitled document after the others and makes it active.
    pub fn new_document(&mut self)
        requires
            old(self)@.wf(),
            old(self)@.next_id < usize::MAX,
        ensures
            final(self)@ == (SessionView {
                docs: old(self)@.docs.push(untitled(old(self)@.next_id)),
                active: old(self)@.docs.len(),
                next_id: old(self)@.next_id + 1,
                ..old(self)@
            }),
            final(self)@.wf(),
    {
        let d = Document::new_untitled(self.next_id);
        self.push_document(d);
    }

    /// Opens the file at `path`, given the outcome of reading it as text: on
    /// success the loaded document is appended and made active; on failure
    /// the session is unchanged and the error is returned.
    pub fn open_document(&mut self, path: String, contents: Result<String, EditorError>) -> (r:
        Result<(), EditorError>)
        requires
            old(self)@.wf(),
            old(self)@.next_id < usize::MAX,
        ensures
            final(self)@.wf(),
            match contents {
                Ok(t) => r is Ok && final(self)@ == (SessionView {
                    docs: old(self)@.docs.push(
                        DocumentView {
                            id: old(self)@.next_id,
                            path: Some(path@),
                            title: title_for_path(path@),
                            text: t@,
                            undo: Seq::empty(),
                            redo: Seq::empty(),
                            dirty: false,
                        },
                    ),
                    active: old(self)@.docs.len(),
                    next_id: old(self)@.next_id + 1,
                    ..old(self)@
                }),
                Err(e) => r == Err::<(), EditorError>(e) && final(self)@ == old(self)@,
            },
    {
        match Document::from_file(self.next_id, path, contents) {
            Ok(d) => {
                self.push_document(d);
                Ok(())
            },
            Err(e) => Err(e),
        }
    }

    /// Closes the document at `index`. An index past the end is refused, and
    /// so is closing the only open document. The active position stays where
    /// it was unless that is now past the end, in which case the last
    /// document becomes active.
    pub fn close_document(&mut self, index: usize) -> (r: Result<(), EditorError>)
        requires
            old(self)@.wf(),
        ensures
            final(self)@.wf(),
            index >= old(self)@.docs.len() ==> r == Err::<(), EditorError>(
                EditorError::IndexOutOfRange,
            ) && final(self)@ == old(self)@,
            index < old(self)@.docs.len() && old(self)@.docs.len() == 1 ==> r == Err::<
                (),
                EditorError,
            >(EditorError::LastDocument) && final(self)@ == old(self)@,
            index < old(self)@.docs.len() && old(self)@.docs.len() > 1 ==> r is Ok && final(self)@
                == (SessionView {
                docs: old(self)@.docs.remove(index as int),
                active: if old(self)@.active < old(self)@.docs.len() - 1 {
                    old(self)@.active
                } else {
                    (old(self)@.docs.len() - 2) as nat
                },
                ..old(self)@
            }),
    {
        if index >= self.docs.len() {
            return Err(EditorError::IndexOutOfRange);
        }
        if self.docs.len() == 1 {
            return Err(EditorError::LastDocument);
        }
        let ghost before = self@;
        self.docs.remove(index);
        if self.active >= self.docs.len() {
            self.active = self.docs.len() - 1;
        }
        assert(self@.docs =~= before.docs.remove(index as int));
        assert forall|i: int| 0 <= i < self@.docs.len() implies #[trigger] self@.docs[i].id
            < self@.next_id by {
            if i >= index {
                assert(self@.docs[i] == before.docs[i + 1]);
            }
        }
        assert forall|i: int, j: int|
            0 <= i < self@.docs.len() && 0 <= j < self@.docs.len() && i != j implies #[trigger] self@.docs[i].id
                != #[trigger] self@.docs[j].id by {
            let i0 = if i < index { i } else { i + 1 };
            let j0 = if j < index { j } else { j + 1 };
            assert(self@.docs[i] == before.docs[i0]);
            assert(self@.docs[j] == before.docs[j0]);
        }
        Ok(())
    }

    /// Makes the document at `index` the active one; an index past the end
    /// is refused and changes nothing.
    pub fn set_active(&mut self, index: usize) -> (r: Result<(), EditorError>)
        requires
            old(self)@.wf(),
        ensures
            final(self)@.wf(),
            index < old(self)@.docs.len() ==> r is Ok && final(self)@ == (SessionView {
                active: index as nat,
                ..old(self)@
            }),
            index >= old(self)@.docs.len() ==> r == Err::<(), EditorError>(
                EditorError::IndexOutOfRange,
            ) && final(self)@ == old(self)@,
    {
        if index < self.docs.len() {
            self.active = index;
            Ok(())
        } else {
            Err(EditorError::IndexOutOfRange)
        }
    }

    /// Commits `new_text` as the text of the active document.
    pub fn set_text(&mut self, new_text: String)
        requires
            old(self)@.wf(),
        ensures
            final(self)@ == old(self)@.with_active(old(self)@.active_doc().set_text(new_text@)),
            final(self)@.wf(),
    {
        let i = self.active;
        self.docs[i].set_text(new_text);
        assert(self@.docs =~= old(self)@.docs.update(i as int, self@.docs[i as int]));
        assert(self@.docs[i as int].id == old(self)@.docs[i as int].id);
    }

    /// Steps the active document back once in its history.
    pub fn undo(&mut self)
        requires
            old(self)@.wf(),
        ensures
            final(self)@ == old(self)@.with_active(old(self)@.active_doc().undone()),
            final(self)@.wf(),
    {
        let i = self.active;
        self.docs[i].undo();
        assert(self@.docs =~= old(self)@.docs.update(i as int, self@.docs[i as int]));
    }

    /// Steps the active document forward once in its history.
    pub fn redo(&mut self)
        requires
            old(self)@.wf(),
        ensures
            final(self)@ == old(self)@.with_active(old(self)@.active_doc().redone()),
            final(self)@.wf(),
    {
        let i = self.active;
        self.docs[i].redo();
        assert(self@.docs =~= old(self)@.docs.update(i as int, self@.docs[i as int]));
    }

    /// Replaces every occurrence of `needle` in the active document as one
    /// edit and returns how many there were.
    pub fn replace_all(&mut self, needle: &str, replacement: &str) -> (r: usize)
        requires
            old(self)@.wf(),
        ensures
            final(self)@.wf(),
            needle@.len() == 0 ==> r == 0 && final(self)@ == old(self)@,
            needle@.len() > 0 ==> r as nat == count_matches(old(self)@.active_doc().text, needle@)
                && final(self)@ == old(self)@.with_active(
                old(self)@.active_doc().set_text(
                    replaced(old(self)@.active_doc().text, needle@, replacement@),
                ),
            ),
    {
        let i = self.active;
        let r = self.docs[i].replace_all(needle, replacement);
        assert(self@.docs =~= old(self)@.docs.update(i as int, self@.docs[i as int]));
        assert(old(self)@.docs.update(i as int, old(self)@.docs[i as int]) =~= old(self)@.docs);
        r
    }

    /// Completes a save of the active document, given the outcome of writing
    /// its text to its path (see `Document::save`).
    pub fn save(&mut self, written: Result<(), EditorError>) -> (r: Result<(), EditorError>)
        requires
            old(self)@.wf(),
        ensures
            final(self)@.wf(),
            final(self)@ == old(self)@.with_active(old(self)@.active_doc().saved(written is Ok)),
            r == (if old(self)@.active_doc().path is Some { written } else { Ok(()) }),
    {
        let i = self.active;
        let r = self.docs[i].save(written);
        assert(self@.docs =~= old(self)@.docs.update(i as int, self@.docs[i as int]));
        r
    }

    /// Gives the active document the path `path`, and the title that path
    /// gives, and completes a save there (see `Document::save_as`).
    pub fn save_as(&mut self, path: String, written: Result<(), EditorError>) -> (r: Result<
        (),
        EditorError,
    >)
        requires
            old(self)@.wf(),
        ensures
            final(self)@.wf(),
            final(self)@ == old(self)@.with_active(
                (DocumentView {
                    path: Some(path@),
                    title: title_for_path(path@),
                    ..old(self)@.active_doc()
                }).saved(written is Ok),
            ),
            r == written,
    {
        let i = self.active;
        let r = self.docs[i].save_as(path, written);
        assert(self@.docs =~= old(self)@.docs.update(i as int, self@.docs[i as int]));
        r
    }

    /// Completes a save of the document at `index`, given the outcome of
    /// writing its text to its path; an index past the end is refused.
    pub fn save_document(&mut self, index: usize, written: Result<(), EditorError>) -> (r: Result<
        (),
        EditorError,
    >)
        requires
            old(self)@.wf(),
        ensures
            final(self)@.wf(),
            index >= old(self)@.docs.len() ==> r == Err::<(), EditorError>(
                EditorError::IndexOutOfRange,
            ) && final(self)@ == old(self)@,
            index < old(self)@.docs.len() ==> final(self)@ == (SessionView {
                docs: old(self)@.docs.update(
                    index as int,
                    old(self)@.docs[index as int].saved(written is Ok),
                ),
                ..old(self)@
            }) && r == (if old(self)@.docs[index as int].path is Some {
                written
            } else {
                Ok(())
            }),
    {
        if index >= self.docs.len() {
            return Err(EditorError::IndexOutOfRange);
        }
        let r = self.docs[index].save(written);
        assert(self@.docs =~= old(self)@.docs.update(index as int, self@.docs[index as int]));
        r
    }

    /// Runs an autosave sweep at time `now` if `interval` has passed since
    /// the last one. A sweep returns, in tab order, one task for each dirty
    /// document: a real save for one with a path, a scratch write named
    /// after its identity for an untitled one, which stays dirty. The sweep
    /// time is recorded whether or not anything was dirty. When no sweep is
    /// due nothing changes and no task is returned.
    pub fn autosave_sweep(&mut self, now: u64, interval: u64) -> (r: Vec<AutosaveTask>)
        requires
            old(self)@.wf(),
        ensures
            final(self)@.wf(),
            autosave_due(now as nat, old(self)@.last_autosave, interval as nat) ==> r@.map_values(
                |t: AutosaveTask| t@,
            ) == autosave_plan(old(self)@.docs) && final(self)@ == (SessionView {
                last_autosave: now as nat,
                ..old(self)@
            }),
            !autosave_due(now as nat, old(self)@.last_autosave, interval as nat) ==> r@.len() == 0
                && final(self)@ == old(self)@,
    {
        let mut tasks: Vec<AutosaveTask> = Vec::new();
        if now < self.last_autosave || now - self.last_autosave < interval {
            return tasks;
        }
        let ghost docs = self@.docs;
        let mut i: usize = 0;
        while i < self.docs.len()
            invariant
                self@ == old(self)@,
                docs == self@.docs,
                i <= docs.len(),
                tasks@.map_values(|t: AutosaveTask| t@) == autosave_plan(docs.subrange(0, i as int)),
            decreases docs.len() - i,
        {
            let d = &self.docs[i];
            assert(docs.subrange(0, i + 1).drop_last() =~= docs.subrange(0, i as int));
            if d.is_dirty() {
                let task = if d.has_path() {
                    AutosaveTask::Save { index: i }
                } else {
                    AutosaveTask::Scratch { index: i, file_name: autosave_file_name_for(d.id()) }
                };
                tasks.push(task);
            }
            i = i + 1;
            assert(tasks@.map_values(|t: AutosaveTask| t@) =~= autosave_plan(docs.subrange(0, i as int)));
        }
        assert(docs.subrange(0, docs.len() as int) =~= docs);
        self.last_autosave = now;
        tasks
    }
}

} // verus!
