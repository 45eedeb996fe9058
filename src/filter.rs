//! The substring filter over history entries.
use vstd::prelude::*;

verus! {

/// `q` occurs in `s` as a run of consecutive characters. The empty query occurs
/// in every string.
pub open spec fn has_substring(s: Seq<char>, q: Seq<char>) -> bool {
    exists|i: int| 0 <= i <= s.len() - q.len() && #[trigger] s.subrange(i, i + q.len()) == q
}

/// The entries that hold `q`, in their order in `entries`.
pub open spec fn filtered(entries: Seq<String>, q: Seq<char>) -> Seq<String>
    decreases entries.len(),
{
    if entries.len() == 0 {
        Seq::empty()
    } else {
        let kept = filtered(entries.drop_last(), q);
        if has_substring(entries.last()@, q) {
            kept.push(entries.last())
        } else {
            kept
        }
    }
}

/// `idx` picks, for each element of `a`, a position of `b` that holds it, with
/// the positions strictly increasing.
pub open spec fn embeds(idx: Seq<int>, a: Seq<String>, b: Seq<String>) -> bool {
    &&& idx.len() == a.len()
    &&& forall|i: int| 0 <= i < idx.len() ==> 0 <= #[trigger] idx[i] < b.len() && b[idx[i]] == a[i]
    &&& forall|i: int, j: int| 0 <= i < j < idx.len() ==> idx[i] < idx[j]
}

/// `a` is `b` with some elements left out and the rest kept in order.
pub open spec fn is_subsequence(a: Seq<String>, b: Seq<String>) -> bool {
    exists|idx: Seq<int>| #[trigger] embeds(idx, a, b)
}

/// Relies on `str::contains` with a `&str` pattern: true exactly when the
/// pattern occurs in the string as a substring.
#[verifier::external_body]
fn contains_text(s: &str, q: &str) -> (r: bool)
    ensures
        r == has_substring(s@, q@),
{
    s.contains(q)
}

/// Whether `entry` holds `query` (case-sensitive; the empty query matches).
pub fn matches_query(entry: &str, query: &str) -> (r: bool)
    ensures
        r == has_substring(entry@, query@),
{
    contains_text(entry, query)
}

/// The entries that hold `query`, in their original order.
pub fn filter_entries(entries: &Vec<String>, query: &str) -> (r: Vec<String>)
    ensures
        r@ == filtered(entries@, query@),
{
    let mut out: Vec<String> = Vec::new();
    let mut k: usize = 0;
    while k < entries.len()
        invariant
            k <= entries@.len(),
            out@ == filtered(entries@.subrange(0, k as int), query@),
        decreases entries@.len() - k,
    {
        let entry = &entries[k];
        assert(entries@.subrange(0, k + 1).drop_last() =~= entries@.subrange(0, k as int));
        if matches_query(entry.as_str(), query) {
            out.push(entry.clone());
        }
        k = k + 1;
    }
    assert(entries@.subrange(0, entries@.len() as int) =~= entries@);
    out
}

/// Positions in `entries` of the filtered entries, strictly increasing.
proof fn lemma_filtered_embedding(entries: Seq<String>, q: Seq<char>) -> (idx: Seq<int>)
    ensures
        embeds(idx, filtered(entries, q), entries),
    decreases entries.len(),
{
    if entries.len() == 0 {
        Seq::empty()
    } else {
        let prev = lemma_filtered_embedding(entries.drop_last(), q);
        if has_substring(entries.last()@, q) {
            prev.push(entries.len() - 1)
        } else {
            prev
        }
    }
}

/// Every filtered entry holds the query.
proof fn lemma_filtered_hold_query(entries: Seq<String>, q: Seq<char>)
    ensures
        forall|i: int|
            0 <= i < filtered(entries, q).len() ==> has_substring(
                #[trigger] filtered(entries, q)[i]@,
                q,
            ),
    decreases entries.len(),
{
    if entries.len() > 0 {
        lemma_filtered_hold_query(entries.drop_last(), q);
        let kept = filtered(entries.drop_last(), q);
        let all = filtered(entries, q);
        assert forall|i: int| 0 <= i < all.len() implies has_substring(#[trigger] all[i]@, q) by {
            if i < kept.len() {
                assert(all[i] == kept[i]);
            }
        }
    }
}

/// The empty query keeps every entry.
proof fn lemma_filtered_empty_query(entries: Seq<String>)
    ensures
        filtered(entries, Seq::empty()) == entries,
    decreases entries.len(),
{
    if entries.len() > 0 {
        lemma_filtered_empty_query(entries.drop_last());
        let s = entries.last()@;
        let e = Seq::<char>::empty();
        let z: int = 0;
        assert(s.subrange(z, z + e.len()) =~= e);
        assert(has_substring(s, Seq::empty()));
        assert(entries.drop_last().push(entries.last()) =~= entries);
    }
}

/// The filter keeps a subsequence of the entries in their original order,
/// every entry it keeps holds the query, and the empty query keeps them all.
pub proof fn lemma_filter_law(entries: Seq<String>, q: Seq<char>)
    ensures
        is_subsequence(filtered(entries, q), entries),
        forall|i: int|
            0 <= i < filtered(entries, q).len() ==> has_substring(
                #[trigger] filtered(entries, q)[i]@,
                q,
            ),
        filtered(entries, Seq::empty()) == entries,
{
    let idx = lemma_filtered_embedding(entries, q);
    assert(embeds(idx, filtered(entries, q), entries));
    lemma_filtered_hold_query(entries, q);
    lemma_filtered_empty_query(entries);
}

} // verus!
