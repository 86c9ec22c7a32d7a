use crate::snippet::SnippetView;
use crate::text::lower_of;
use crate::vault::{has_key, keys_unique, search_result, snippet_matches, without_key};
use vstd::prelude::*;

verus! {

/// Adding a snippet whose key is absent keeps the keys of a collection
/// unique; together with `add`, which refuses a present key and leaves the
/// collection as it was, no sequence of adds makes two snippets share a key.
pub proof fn add_keeps_keys_unique(c: Seq<SnippetView>, s: SnippetView)
    requires
        keys_unique(c),
        !has_key(c, s.key),
    ensures
        keys_unique(c.push(s)),
        c.push(s).len() == c.len() + 1,
{
    let d = c.push(s);
    assert forall|i: int, j: int| 0 <= i < j < d.len() implies #[trigger] d[i].key
        != #[trigger] d[j].key by {
        if j == c.len() {
            assert(d[i] == c[i]);
        } else {
            assert(d[i] == c[i] && d[j] == c[j]);
        }
    }
}

/// Deleting a key leaves no snippet of that key, and keeps exactly the
/// snippets of other keys, in their order.
pub proof fn delete_removes_exactly(c: Seq<SnippetView>, k: Seq<char>)
    ensures
        !has_key(without_key(c, k), k),
        forall|s: SnippetView| s.key != k ==> (#[trigger] without_key(c, k).contains(s) <==> c.contains(s)),
        without_key(c, k).len() <= c.len(),
{
    let pred = |s: SnippetView| s.key != k;
    assert(without_key(c, k) == c.filter(pred));
    c.lemma_filter_len(pred);
    assert forall|i: int| 0 <= i < without_key(c, k).len() implies #[trigger] without_key(c, k)[i].key != k by {
        c.lemma_filter_pred(pred, i);
    }
    assert forall|s: SnippetView| s.key != k implies (#[trigger] without_key(c, k).contains(s) <==> c.contains(s)) by {
        if without_key(c, k).contains(s) {
            c.lemma_filter_contains_rev(pred, s);
        }
        if c.contains(s) {
            let i = choose|i: int| 0 <= i < c.len() && c[i] == s;
            c.lemma_filter_contains(pred, i);
        }
    }
}

/// Deleting a key that no snippet has leaves the collection as it was.
pub proof fn delete_absent_key_keeps_all(c: Seq<SnippetView>, k: Seq<char>)
    requires
        !has_key(c, k),
    ensures
        without_key(c, k) == c,
    decreases c.len(),
{
    reveal(Seq::filter);
    if c.len() > 0 {
        let d = c.drop_last();
        assert forall|i: int| 0 <= i < d.len() implies #[trigger] d[i].key != k by {
            assert(d[i] == c[i]);
        }
        delete_absent_key_keeps_all(d, k);
        assert(c.last().key != k);
        assert(d.push(c.last()) =~= c);
    }
}

/// Two keywords with the same lowercase form find the same snippets, in the
/// same order: search does not see the case of its keyword.
pub proof fn search_ignores_keyword_case(c: Seq<SnippetView>, kw1: Seq<char>, kw2: Seq<char>)
    requires
        lower_of(kw1) == lower_of(kw2),
    ensures
        search_result(c, kw1) == search_result(c, kw2),
{
}

/// A snippet is found by a search exactly when it is in the collection and
/// the lowercased keyword occurs in its lowercased key, description or one of
/// its lowercased tags.
pub proof fn search_finds_exactly_the_matches(c: Seq<SnippetView>, kw: Seq<char>, s: SnippetView)
    ensures
        search_result(c, kw).contains(s) <==> (c.contains(s) && snippet_matches(lower_of(kw), s)),
{
    let kl = lower_of(kw);
    let pred = |x: SnippetView| snippet_matches(kl, x);
    assert(search_result(c, kw) == c.filter(pred));
    if search_result(c, kw).contains(s) {
        c.lemma_filter_contains_rev(pred, s);
        let i = choose|i: int| 0 <= i < c.filter(pred).len() && c.filter(pred)[i] == s;
        c.lemma_filter_pred(pred, i);
    }
    if c.contains(s) && snippet_matches(kl, s) {
        let i = choose|i: int| 0 <= i < c.len() && c[i] == s;
        c.lemma_filter_contains(pred, i);
    }
}

} // verus!
