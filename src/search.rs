use vstd::prelude::*;

verus! {

/// Whether `needle` occurs in `t` starting at position `i`.
pub open spec fn occurs_at(t: Seq<char>, needle: Seq<char>, i: int) -> bool {
    0 <= i && i + needle.len() <= t.len() && t.subrange(i, i + needle.len()) == needle
}

/// The number of occurrences of `needle` that a left-to-right scan finds in
/// `t` when each match resumes the scan just after itself (so matches never
/// overlap). An empty needle matches nowhere.
pub open spec fn count_matches(t: Seq<char>, needle: Seq<char>) -> nat
    decreases t.len(),
{
    if needle.len() == 0 || t.len() < needle.len() {
        0
    } else if occurs_at(t, needle, 0) {
        1 + count_matches(t.subrange(needle.len() as int, t.len() as int), needle)
    } else {
        count_matches(t.subrange(1, t.len() as int), needle)
    }
}

/// `t` with every occurrence of `needle` found by the scan of `count_matches`
/// replaced by `replacement`. An empty needle leaves `t` as it is.
pub open spec fn replaced(t: Seq<char>, needle: Seq<char>, replacement: Seq<char>) -> Seq<char>
    decreases t.len(),
{
    if needle.len() == 0 || t.len() < needle.len() {
        t
    } else if occurs_at(t, needle, 0) {
        replacement + replaced(t.subrange(needle.len() as int, t.len() as int), needle, replacement)
    } else {
        seq![t[0]] + replaced(t.subrange(1, t.len() as int), needle, replacement)
    }
}

/// Relies on `str::matches`: its iterator yields the disjoint matches of a
/// non-empty pattern from left to right, each search resuming after the
/// previous match.
#[verifier::external_body]
pub(crate) fn count_occurrences(text: &str, needle: &str) -> (r: usize)
    requires
        needle@.len() > 0,
    ensures
        r as nat == count_matches(text@, needle@),
{
    text.matches(needle).count()
}

/// Relies on `str::replace`: it replaces the matches of a non-empty pattern
/// that `str::matches` yields, copying the text between them unchanged.
#[verifier::external_body]
pub(crate) fn replace_occurrences(text: &str, needle: &str, replacement: &str) -> (r: String)
    requires
        needle@.len() > 0,
    ensures
        r@ == replaced(text@, needle@, replacement@),
{
    text.replace(needle, replacement)
}

/// A text in which the scan finds nothing is left as it is by replacement.
pub proof fn lemma_no_match_unchanged(t: Seq<char>, needle: Seq<char>, replacement: Seq<char>)
    requires
        count_matches(t, needle) == 0,
    ensures
        replaced(t, needle, replacement) == t,
    decreases t.len(),
{
    if needle.len() == 0 || t.len() < needle.len() {
    } else if occurs_at(t, needle, 0) {
    } else {
        let rest = t.subrange(1, t.len() as int);
        lemma_no_match_unchanged(rest, needle, replacement);
        assert(seq![t[0]] + rest =~= t);
    }
}

/// No character of `a` occurs in `b`.
pub open spec fn shares_no_char(a: Seq<char>, b: Seq<char>) -> bool {
    forall|i: int, j: int| 0 <= i < a.len() && 0 <= j < b.len() ==> a[i] != b[j]
}

/// A prefix of the replaced text made only of characters of the needle was
/// copied unchanged from the original text, when the replacement has a first
/// character that the needle lacks.
proof fn lemma_needle_char_prefix_kept(t: Seq<char>, needle: Seq<char>, replacement: Seq<char>, m: int)
    requires
        needle.len() > 0,
        replacement.len() > 0,
        shares_no_char(needle, replacement),
        0 <= m <= replaced(t, needle, replacement).len(),
        forall|j: int| 0 <= j < m ==> needle.contains(#[trigger] replaced(t, needle, replacement)[j]),
    ensures
        m <= t.len(),
        t.subrange(0, m) == replaced(t, needle, replacement).subrange(0, m),
    decreases t.len(),
{
    let res = replaced(t, needle, replacement);
    if t.len() < needle.len() {
    } else if occurs_at(t, needle, 0) {
        if m > 0 {
            assert(needle.contains(res[0]));
            let k = choose|k: int| 0 <= k < needle.len() && needle[k] == res[0];
            assert(res[0] == replacement[0]);
            assert(needle[k] != replacement[0]);
        }
        assert(t.subrange(0, m) =~= res.subrange(0, m));
    } else {
        let rest = t.subrange(1, t.len() as int);
        let rr = replaced(rest, needle, replacement);
        assert(res == seq![t[0]] + rr);
        if m > 0 {
            assert forall|j: int| 0 <= j < m - 1 implies needle.contains(#[trigger] rr[j]) by {
                assert(rr[j] == res[j + 1]);
            }
            lemma_needle_char_prefix_kept(rest, needle, replacement, m - 1);
            assert forall|k: int| 0 <= k < m implies t[k] == res[k] by {
                if k > 0 {
                    assert(rest.subrange(0, m - 1)[k - 1] == rr.subrange(0, m - 1)[k - 1]);
                }
            }
        }
        assert(t.subrange(0, m) =~= res.subrange(0, m));
    }
}

/// Replacing every match leaves no occurrence of the needle behind, provided
/// the replacement is non-empty and shares no character with the needle.
pub proof fn lemma_replaced_has_no_match(t: Seq<char>, needle: Seq<char>, replacement: Seq<char>)
    requires
        needle.len() > 0,
        replacement.len() > 0,
        shares_no_char(needle, replacement),
    ensures
        forall|i: int| !occurs_at(replaced(t, needle, replacement), needle, i),
        count_matches(replaced(t, needle, replacement), needle) == 0,
    decreases t.len(),
{
    let res = replaced(t, needle, replacement);
    let n = needle.len() as int;
    if t.len() < needle.len() {
    } else if occurs_at(t, needle, 0) {
        let rest = t.subrange(n, t.len() as int);
        let rr = replaced(rest, needle, replacement);
        lemma_replaced_has_no_match(rest, needle, replacement);
        assert(res == replacement + rr);
        assert forall|i: int| !occurs_at(res, needle, i) by {
            if occurs_at(res, needle, i) {
                if i < replacement.len() {
                    assert(res.subrange(i, i + n)[0] == needle[0]);
                    assert(res[i] == replacement[i]);
                } else {
                    assert(rr.subrange(i - replacement.len(), i - replacement.len() + n)
                        =~= res.subrange(i, i + n));
                    assert(occurs_at(rr, needle, i - replacement.len()));
                }
            }
        }
    } else {
        let rest = t.subrange(1, t.len() as int);
        let rr = replaced(rest, needle, replacement);
        lemma_replaced_has_no_match(rest, needle, replacement);
        assert(res == seq![t[0]] + rr);
        assert forall|i: int| !occurs_at(res, needle, i) by {
            if occurs_at(res, needle, i) {
                if i == 0 {
                    assert forall|j: int| 0 <= j < n implies needle.contains(#[trigger] res[j]) by {
                        assert(res.subrange(0, n)[j] == res[j]);
                        assert(needle[j] == res[j]);
                    }
                    lemma_needle_char_prefix_kept(t, needle, replacement, n);
                    assert(occurs_at(t, needle, 0));
                } else {
                    assert(rr.subrange(i - 1, i - 1 + n) =~= res.subrange(i, i + n));
                    assert(occurs_at(rr, needle, i - 1));
                }
            }
        }
    }
    lemma_count_zero_without_match(res, needle);
}

/// A text with no occurrence of the needle gives the scan nothing to count.
proof fn lemma_count_zero_without_match(t: Seq<char>, needle: Seq<char>)
    requires
        forall|i: int| !occurs_at(t, needle, i),
    ensures
        count_matches(t, needle) == 0,
    decreases t.len(),
{
    if needle.len() == 0 || t.len() < needle.len() {
    } else {
        let rest = t.subrange(1, t.len() as int);
        assert forall|i: int| !occurs_at(rest, needle, i) by {
            if occurs_at(rest, needle, i) {
                assert(t.subrange(i + 1, i + 1 + needle.len()) =~= rest.subrange(i, i + needle.len()));
                assert(occurs_at(t, needle, i + 1));
            }
        }
        lemma_count_zero_without_match(rest, needle);
    }
}

} // verus!
