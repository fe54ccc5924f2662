use vstd::prelude::*;

use crate::document::{title_for_path, DocumentView};
use crate::search::{count_matches, lemma_replaced_has_no_match, occurs_at, replaced, shares_no_char};

verus! {

/// The state after committing each of `edits` in turn.
pub open spec fn edited(d: DocumentView, edits: Seq<Seq<char>>) -> DocumentView
    decreases edits.len(),
{
    if edits.len() == 0 {
        d
    } else {
        edited(d, edits.drop_last()).set_text(edits.last())
    }
}

/// The state after undoing `n` times.
pub open spec fn undone_times(d: DocumentView, n: nat) -> DocumentView
    decreases n,
{
    if n == 0 {
        d
    } else {
        undone_times(d.undone(), (n - 1) as nat)
    }
}

/// The state after redoing `n` times.
pub open spec fn redone_times(d: DocumentView, n: nat) -> DocumentView
    decreases n,
{
    if n == 0 {
        d
    } else {
        redone_times(d, (n - 1) as nat).redone()
    }
}

/// Each edit differs from the text it replaces, the first from `start`.
pub open spec fn changes_each_time(start: Seq<char>, edits: Seq<Seq<char>>) -> bool {
    forall|i: int|
        0 <= i < edits.len() ==> #[trigger] edits[i] != (if i == 0 {
            start
        } else {
            edits[i - 1]
        })
}

/// The two states have the same text and the same undo and redo histories.
pub open spec fn same_history(a: DocumentView, b: DocumentView) -> bool {
    a.text == b.text && a.undo == b.undo && a.redo == b.redo
}

/// After edits that each change the text, the undo history holds every text
/// that was replaced, oldest first, and the redo history is empty.
proof fn lemma_edited_history(d: DocumentView, edits: Seq<Seq<char>>)
    requires
        changes_each_time(d.text, edits),
    ensures
        edited(d, edits).undo == d.undo + (seq![d.text] + edits).take(edits.len() as int),
        edited(d, edits).text == (seq![d.text] + edits)[edits.len() as int],
        edits.len() > 0 ==> edited(d, edits).redo.len() == 0,
    decreases edits.len(),
{
    let full = seq![d.text] + edits;
    if edits.len() > 0 {
        let n = edits.len() - 1;
        let prefix = edits.drop_last();
        assert(changes_each_time(d.text, prefix)) by {
            assert forall|i: int| 0 <= i < prefix.len() implies #[trigger] prefix[i] != (if i == 0 {
                d.text
            } else {
                prefix[i - 1]
            }) by {
                assert(prefix[i] == edits[i]);
                if i > 0 {
                    assert(prefix[i - 1] == edits[i - 1]);
                }
            }
        }
        lemma_edited_history(d, prefix);
        let pfull = seq![d.text] + prefix;
        assert(pfull.take(n) =~= full.take(n));
        assert(pfull[n] == full[n]);
        assert(edits[n] != full[n]);
        assert(full.take(n).push(full[n]) =~= full.take(n + 1));
        assert(d.undo + full.take(n + 1) =~= (d.undo + full.take(n)).push(full[n]));
    } else {
        assert(full.take(0) =~= Seq::<Seq<char>>::empty());
        assert(d.undo + full.take(0) =~= d.undo);
    }
}

/// Undoing `k` times, within the undo history, lands on the text `k` steps
/// back in the history followed by the current text.
proof fn lemma_undone_text(s: DocumentView, k: nat)
    requires
        k <= s.undo.len(),
    ensures
        undone_times(s, k).text == s.undo.push(s.text)[s.undo.len() - k],
    decreases k,
{
    if k > 0 {
        let u = s.undone();
        lemma_undone_text(u, (k - 1) as nat);
        assert(u.undo.push(u.text) =~= s.undo);
    }
}

/// Redoing after undoing, as many times, restores the text and both
/// histories, as long as the undo history had that many entries.
proof fn lemma_redo_after_undo(s: DocumentView, k: nat)
    requires
        k <= s.undo.len(),
    ensures
        same_history(redone_times(undone_times(s, k), k), s),
    decreases k,
{
    if k > 0 {
        let u = s.undone();
        lemma_redo_after_undo(u, (k - 1) as nat);
        let x = redone_times(undone_times(u, (k - 1) as nat), (k - 1) as nat);
        assert(undone_times(s, k) == undone_times(u, (k - 1) as nat));
        assert(x.redo =~= s.redo.push(s.text));
        assert(x.undo.push(x.text) =~= s.undo);
        assert(x.redo.drop_last() =~= s.redo);
    }
}

/// Undo and redo are inverse. After a run of edits that each change the text,
/// undoing `k` of them (at most all) gives back the text as it was `k` edits
/// ago, and redoing as many times then restores the latest text and the
/// histories exactly.
pub proof fn law_undo_redo_inverse(d: DocumentView, edits: Seq<Seq<char>>, k: nat)
    requires
        changes_each_time(d.text, edits),
        k <= edits.len(),
    ensures
        undone_times(edited(d, edits), k).text == edited(
            d,
            edits.take(edits.len() - k),
        ).text,
        same_history(redone_times(undone_times(edited(d, edits), k), k), edited(d, edits)),
{
    let n = edits.len() as int;
    let s = edited(d, edits);
    let full = seq![d.text] + edits;
    lemma_edited_history(d, edits);
    let prefix = edits.take(n - k);
    assert(changes_each_time(d.text, prefix)) by {
        assert forall|i: int| 0 <= i < prefix.len() implies #[trigger] prefix[i] != (if i == 0 {
            d.text
        } else {
            prefix[i - 1]
        }) by {
            assert(prefix[i] == edits[i]);
            if i > 0 {
                assert(prefix[i - 1] == edits[i - 1]);
            }
        }
    }
    lemma_edited_history(d, prefix);
    assert((seq![d.text] + prefix)[n - k] == full[n - k]);
    lemma_undone_text(s, k);
    assert(s.undo.push(s.text) =~= d.undo + full);
    lemma_redo_after_undo(s, k);
}

/// Undoing once more is undoing once after the earlier undos, and each undo
/// within the history shortens it by one.
proof fn lemma_undone_times_step(s: DocumentView, j: nat)
    requires
        j <= s.undo.len(),
    ensures
        undone_times(s, j).undo.len() == s.undo.len() - j,
        j < s.undo.len() ==> undone_times(s, j + 1) == undone_times(s, j).undone(),
    decreases j,
{
    if j > 0 {
        lemma_undone_times_step(s.undone(), (j - 1) as nat);
        assert(undone_times(s, j) == undone_times(s.undone(), (j - 1) as nat));
        assert(undone_times(s, j + 1) == undone_times(s.undone(), j));
    } else {
        assert(undone_times(s, 1) == undone_times(s.undone(), 0));
    }
}

/// Redoing `m` times after `k` undos, with `m <= k`, gives the same text and
/// histories as undoing only `k - m` times.
proof fn lemma_redo_partway(s: DocumentView, k: nat, m: nat)
    requires
        k <= s.undo.len(),
        m <= k,
    ensures
        same_history(redone_times(undone_times(s, k), m), undone_times(s, (k - m) as nat)),
    decreases m,
{
    if m > 0 {
        lemma_redo_partway(s, k, (m - 1) as nat);
        let j = (k - m) as nat;
        lemma_undone_times_step(s, j);
        let y = undone_times(s, j);
        let x = redone_times(undone_times(s, k), (m - 1) as nat);
        assert(x.redo =~= y.redo.push(y.text));
        assert(x.undo.push(x.text) =~= y.undo);
        assert(x.redo.drop_last() =~= y.redo);
    }
}

/// Redo steps forward one edit at a time. After a run of edits that each
/// change the text, undoing `k` of them and then redoing `m <= k` of those
/// gives back the text as it was `k - m` edits before the latest.
pub proof fn law_redo_steps_forward(d: DocumentView, edits: Seq<Seq<char>>, k: nat, m: nat)
    requires
        changes_each_time(d.text, edits),
        k <= edits.len(),
        m <= k,
    ensures
        redone_times(undone_times(edited(d, edits), k), m).text == edited(
            d,
            edits.take(edits.len() - (k - m)),
        ).text,
{
    lemma_edited_history(d, edits);
    lemma_redo_partway(edited(d, edits), k, m);
    law_undo_redo_inverse(d, edits, (k - m) as nat);
}

/// Committing the text a document already has changes nothing: not the
/// dirty flag, not either history.
pub proof fn law_same_text_is_no_op(d: DocumentView)
    ensures
        d.set_text(d.text) == d,
{
}

/// Committing a text that differs from the current one empties the redo
/// history.
pub proof fn law_edit_clears_redo(d: DocumentView, t: Seq<char>)
    requires
        t != d.text,
    ensures
        d.set_text(t).redo.len() == 0,
        d.set_text(t).text == t,
{
}

/// After replace-all with a non-empty needle, the text holds no occurrence of
/// the needle, provided the replacement is non-empty and shares no character
/// with the needle.
pub proof fn law_replace_all_leaves_no_match(d: DocumentView, needle: Seq<char>, replacement: Seq<char>)
    requires
        needle.len() > 0,
        replacement.len() > 0,
        shares_no_char(needle, replacement),
    ensures
        forall|i: int|
            !occurs_at(d.set_text(replaced(d.text, needle, replacement)).text, needle, i),
        count_matches(d.set_text(replaced(d.text, needle, replacement)).text, needle) == 0,
{
    lemma_replaced_has_no_match(d.text, needle, replacement);
}

/// Saving a document that has no path changes nothing, whatever the outcome
/// handed in.
pub proof fn law_save_without_path_is_no_op(d: DocumentView, written: bool)
    requires
        d.path is None,
    ensures
        d.saved(written) == d,
{
}

/// After a successful save-as to `p`, the document's path is `p`, its title
/// is the one that `p` gives, and it is clean; its text and histories are
/// untouched.
pub proof fn law_save_as_records_path(d: DocumentView, p: Seq<char>)
    ensures
        ({
            let s = (DocumentView { path: Some(p), title: title_for_path(p), ..d }).saved(true);
            &&& s.path == Some(p)
            &&& s.title == title_for_path(p)
            &&& !s.dirty
            &&& same_history(s, d)
        }),
{
}

} // verus!
