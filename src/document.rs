use vstd::prelude::*;

use crate::error::EditorError;
use crate::naming::{untitled_title, untitled_title_for};
use crate::search::{
    count_matches, count_occurrences, lemma_no_match_unchanged, replace_occurrences, replaced,
};

verus! {

/// The abstract state of a document: every field as a mathematical value.
pub struct DocumentView {
    pub id: nat,
    pub path: Option<Seq<char>>,
    pub title: Seq<char>,
    pub text: Seq<char>,
    pub undo: Seq<Seq<char>>,
    pub redo: Seq<Seq<char>>,
    pub dirty: bool,
}

/// One open text buffer with its identity, location, history and dirty flag.
pub struct Document {
    pub id: usize,
    pub path: Option<String>,
    pub title: String,
    pub text: String,
    undo_stack: Vec<String>,
    redo_stack: Vec<String>,
    pub dirty: bool,
}

/// The view of an optional string.
pub open spec fn opt_view(o: Option<String>) -> Option<Seq<char>> {
    match o {
        Some(s) => Some(s@),
        None => None,
    }
}

/// The views of a sequence of strings, in order.
pub open spec fn strings_view(v: Seq<String>) -> Seq<Seq<char>> {
    v.map_values(|s: String| s@)
}

impl View for Document {
    type V = DocumentView;

    closed spec fn view(&self) -> DocumentView {
        DocumentView {
            id: self.id as nat,
            path: opt_view(self.path),
            title: self.title@,
            text: self.text@,
            undo: strings_view(self.undo_stack@),
            redo: strings_view(self.redo_stack@),
            dirty: self.dirty,
        }
    }
}

impl DocumentView {
    /// The state after committing `t` as the new text: a change pushes the
    /// old text onto the undo history, clears the redo history and marks the
    /// document dirty; setting the text it already has changes nothing.
    pub open spec fn set_text(self, t: Seq<char>) -> DocumentView {
        if t == self.text {
            self
        } else {
            DocumentView {
                text: t,
                undo: self.undo.push(self.text),
                redo: Seq::empty(),
                dirty: true,
                ..self
            }
        }
    }

    /// The state after stepping back once in the history: the latest undo
    /// snapshot becomes the text and the text it replaces goes onto the redo
    /// history. With no undo history nothing changes.
    pub open spec fn undone(self) -> DocumentView {
        if self.undo.len() == 0 {
            self
        } else {
            DocumentView {
                text: self.undo.last(),
                undo: self.undo.drop_last(),
                redo: self.redo.push(self.text),
                dirty: true,
                ..self
            }
        }
    }

    /// The state after stepping forward once in the history, the mirror of
    /// `undone`.
    pub open spec fn redone(self) -> DocumentView {
        if self.redo.len() == 0 {
            self
        } else {
            DocumentView {
                text: self.redo.last(),
                undo: self.undo.push(self.text),
                redo: self.redo.drop_last(),
                dirty: true,
                ..self
            }
        }
    }

    /// The state after a save whose write of the text to the document's path
    /// succeeded (`written`) or failed. Only a successful write to an actual
    /// path makes the document clean.
    pub open spec fn saved(self, written: bool) -> DocumentView {
        if self.path is Some && written {
            DocumentView { dirty: false, ..self }
        } else {
            self
        }
    }
}

/// A new untitled document: empty, clean, with no path and no history.
pub open spec fn untitled(id: nat) -> DocumentView {
    DocumentView {
        id,
        path: None,
        title: untitled_title(id),
        text: Seq::empty(),
        undo: Seq::empty(),
        redo: Seq::empty(),
        dirty: false,
    }
}

/// The title of a document loaded from `path`: the final component of the
/// path, or a generic name when the path has none.
pub open spec fn title_for_path(path: Seq<char>) -> Seq<char> {
    match file_name_of(path) {
        Some(name) => name,
        None => seq!['Д', 'о', 'к', 'у', 'м', 'е', 'н', 'т'],
    }
}

/// The final component of a path, as `std::path::Path::file_name` finds it.
pub uninterp spec fn file_name_of(path: Seq<char>) -> Option<Seq<char>>;

/// Relies on `std::path::Path::file_name`: the final component of the path,
/// if there is one. A component of a path given as text is itself text, so
/// the lossy conversion back to a string keeps it as it is.
#[verifier::external_body]
fn base_name(path: &str) -> (r: Option<String>)
    ensures
        opt_view(r) == file_name_of(path@),
{
    match std::path::Path::new(path).file_name() {
        Some(name) => Some(name.to_string_lossy().into_owned()),
        None => None,
    }
}

/// The title for a document at `path`.
fn title_of_path(path: &str) -> (r: String)
    ensures
        r@ == title_for_path(path@),
{
    let title = match base_name(path) {
        Some(name) => name,
        None => String::from_str("Документ"),
    };
    proof {
        reveal_strlit("Документ");
    }
    assert(title@ =~= title_for_path(path@));
    title
}

impl Document {
    /// A new empty document with no path and no history.
    pub fn new_untitled(id: usize) -> (r: Document)
        ensures
            r@ == untitled(id as nat),
    {
        let r = Document {
            id,
            path: None,
            title: untitled_title_for(id),
            text: String::new(),
            undo_stack: Vec::new(),
            redo_stack: Vec::new(),
            dirty: false,
        };
        assert(strings_view(r.undo_stack@) =~= Seq::<Seq<char>>::empty());
        assert(strings_view(r.redo_stack@) =~= Seq::<Seq<char>>::empty());
        r
    }

    /// The document for the file at `path`, given the outcome of reading that
    /// file as text. A read error is passed on and no document is made.
    pub fn from_file(id: usize, path: String, contents: Result<String, EditorError>) -> (r: Result<
        Document,
        EditorError,
    >)
        ensures
            match contents {
                Ok(t) => r matches Ok(d) && d@ == (DocumentView {
                    id: id as nat,
                    path: Some(path@),
                    title: title_for_path(path@),
                    text: t@,
                    undo: Seq::empty(),
                    redo: Seq::empty(),
                    dirty: false,
                }),
                Err(e) => r == Err::<Document, EditorError>(e),
            },
    {
        match contents {
            Ok(text) => {
                let title = title_of_path(path.as_str());
                let d = Document {
                    id,
                    path: Some(path),
                    title,
                    text,
                    undo_stack: Vec::new(),
                    redo_stack: Vec::new(),
                    dirty: false,
                };
                assert(strings_view(d.undo_stack@) =~= Seq::<Seq<char>>::empty());
                assert(strings_view(d.redo_stack@) =~= Seq::<Seq<char>>::empty());
                Ok(d)
            },
            Err(e) => Err(e),
        }
    }

    /// Completes a save, given the outcome of writing the text to the
    /// document's path. A document without a path is not written and the
    /// save succeeds without any change; otherwise the outcome is returned
    /// and a successful write makes the document clean.
    pub fn save(&mut self, written: Result<(), EditorError>) -> (r: Result<(), EditorError>)
        ensures
            final(self)@ == old(self)@.saved(written is Ok),
            r == (if old(self)@.path is Some { written } else { Ok(()) }),
    {
        if self.path.is_some() {
            if written.is_ok() {
                self.dirty = false;
            }
            written
        } else {
            Ok(())
        }
    }

    /// Gives the document the path `path`, and the title that path gives,
    /// then completes a save there with the outcome `written` of writing the
    /// text to it.
    pub fn save_as(&mut self, path: String, written: Result<(), EditorError>) -> (r: Result<
        (),
        EditorError,
    >)
        ensures
            final(self)@ == (DocumentView {
                path: Some(path@),
                title: title_for_path(path@),
                ..old(self)@
            }).saved(written is Ok),
            r == written,
    {
        self.title = title_of_path(path.as_str());
        self.path = Some(path);
        self.save(written)
    }

    /// Replaces the text, recording the previous text in the undo history
    /// when the new text differs from it.
    pub fn set_text(&mut self, new_text: String)
        ensures
            final(self)@ == old(self)@.set_text(new_text@),
    {
        if new_text != self.text {
            let previous = self.text.clone();
            self.undo_stack.push(previous);
            self.redo_stack.clear();
            self.text = new_text;
            self.dirty = true;
            proof {
                assert(strings_view(self.undo_stack@) =~= old(self)@.undo.push(old(self)@.text));
                assert(strings_view(self.redo_stack@) =~= Seq::<Seq<char>>::empty());
            }
        }
    }

    /// Steps back once in the history, if there is anything to undo.
    pub fn undo(&mut self)
        ensures
            final(self)@ == old(self)@.undone(),
    {
        if let Some(prev) = self.undo_stack.pop() {
            let current = self.text.clone();
            self.redo_stack.push(current);
            self.text = prev;
            self.dirty = true;
            proof {
                assert(strings_view(self.undo_stack@) =~= old(self)@.undo.drop_last());
                assert(strings_view(self.redo_stack@) =~= old(self)@.redo.push(old(self)@.text));
            }
        }
    }

    /// Steps forward once in the history, if there is anything to redo.
    pub fn redo(&mut self)
        ensures
            final(self)@ == old(self)@.redone(),
    {
        if let Some(next) = self.redo_stack.pop() {
            let current = self.text.clone();
            self.undo_stack.push(current);
            self.text = next;
            self.dirty = true;
            proof {
                assert(strings_view(self.redo_stack@) =~= old(self)@.redo.drop_last());
                assert(strings_view(self.undo_stack@) =~= old(self)@.undo.push(old(self)@.text));
            }
        }
    }

    /// Replaces every non-overlapping occurrence of `needle`, scanning from
    /// the left, as one edit, and returns how many there were in the text
    /// before. An empty needle matches nowhere.
    pub fn replace_all(&mut self, needle: &str, replacement: &str) -> (r: usize)
        ensures
            needle@.len() == 0 ==> r == 0 && final(self)@ == old(self)@,
            needle@.len() > 0 ==> r as nat == count_matches(old(self)@.text, needle@)
                && final(self)@ == old(self)@.set_text(
                replaced(old(self)@.text, needle@, replacement@),
            ),
    {
        if needle.is_empty() {
            return 0;
        }
        let count = count_occurrences(self.text.as_str(), needle);
        if count > 0 {
            let new_text = replace_occurrences(self.text.as_str(), needle, replacement);
            self.set_text(new_text);
        } else {
            proof {
                lemma_no_match_unchanged(old(self)@.text, needle@, replacement@);
            }
        }
        count
    }

    /// The document's identity.
    pub fn id(&self) -> (r: usize)
        ensures
            r as nat == self@.id,
    {
        self.id
    }

    /// Whether the text has changes that no save has recorded.
    pub fn is_dirty(&self) -> (r: bool)
        ensures
            r == self@.dirty,
    {
        self.dirty
    }

    /// Whether the document has a path to be saved to.
    pub fn has_path(&self) -> (r: bool)
        ensures
            r == self@.path is Some,
    {
        self.path.is_some()
    }
}

} // verus!
