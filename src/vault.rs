use crate::snippet::{collection_view, strings_view, Snippet, SnippetView};
use crate::text::{fields_match, lower_of, lowercase, lowered_fields_match};
use vstd::prelude::*;

verus! {

/// Some snippet of the collection has exactly this key.
pub open spec fn has_key(c: Seq<SnippetView>, k: Seq<char>) -> bool {
    exists|i: int| 0 <= i < c.len() && #[trigger] c[i].key == k
}

/// No two snippets of the collection share a key.
pub open spec fn keys_unique(c: Seq<SnippetView>) -> bool {
    forall|i: int, j: int| 0 <= i < j < c.len() ==> #[trigger] c[i].key != #[trigger] c[j].key
}

/// The lowercase form of each string of a list.
pub open spec fn lower_all(v: Seq<Seq<char>>) -> Seq<Seq<char>> {
    v.map_values(|t: Seq<char>| lower_of(t))
}

/// A snippet matches an already lowercased keyword when the keyword occurs
/// in its lowercased key, its lowercased description or one of its
/// lowercased tags.
pub open spec fn snippet_matches(keyword_lower: Seq<char>, s: SnippetView) -> bool {
    fields_match(keyword_lower, lower_of(s.key), lower_of(s.description), lower_all(s.tags))
}

/// The snippets that match an already lowercased keyword, in collection order.
pub open spec fn matching(c: Seq<SnippetView>, keyword_lower: Seq<char>) -> Seq<SnippetView> {
    c.filter(|s: SnippetView| snippet_matches(keyword_lower, s))
}

/// What a search for a keyword returns: the matches of its lowercase form.
pub open spec fn search_result(c: Seq<SnippetView>, keyword: Seq<char>) -> Seq<SnippetView> {
    matching(c, lower_of(keyword))
}

/// The collection with every snippet of this exact key taken out, the others
/// kept in order.
pub open spec fn without_key(c: Seq<SnippetView>, k: Seq<char>) -> Seq<SnippetView> {
    c.filter(|s: SnippetView| s.key != k)
}

/// The value of a snippet made of the given fields.
pub open spec fn snippet_of(
    key: Seq<char>,
    description: Seq<char>,
    command: Seq<char>,
    tags: Seq<String>,
) -> SnippetView {
    SnippetView { key, description, command, tags: strings_view(tags) }
}

/// An add was refused because the key is taken; it carries that key.
#[derive(Debug)]
pub struct DuplicateKeyError {
    pub key: String,
}

/// Whether some snippet of the collection has exactly this key.
pub fn contains_key(c: &Vec<Snippet>, key: &String) -> (r: bool)
    ensures
        r == has_key(collection_view(c@), key@),
{
    let mut i: usize = 0;
    while i < c.len()
        invariant
            0 <= i <= c.len(),
            forall|j: int| 0 <= j < i ==> #[trigger] c@[j].key@ != key@,
        decreases c.len() - i,
    {
        if c[i].key == *key {
            assert(collection_view(c@)[i as int].key == key@);
            return true;
        }
        i = i + 1;
    }
    assert forall|j: int| 0 <= j < c.len() implies #[trigger] collection_view(c@)[j].key != key@ by {
        assert(collection_view(c@)[j] == c@[j]@);
    }
    false
}

/// Appends a snippet of the given fields unless its key is already taken.
/// On success the new snippet is returned; on a taken key the collection is
/// left as it was.
pub fn add(
    c: &mut Vec<Snippet>,
    key: String,
    description: String,
    command: String,
    tags: Vec<String>,
) -> (r: Result<Snippet, DuplicateKeyError>)
    ensures
        r is Ok <==> !has_key(collection_view(old(c)@), key@),
        r matches Ok(s) ==> s@ == snippet_of(key@, description@, command@, tags@)
            && collection_view(final(c)@) == collection_view(old(c)@).push(s@)
            && final(c)@.len() == old(c)@.len() + 1,
        r matches Err(e) ==> e.key@ == key@ && *final(c) == *old(c),
{
    if contains_key(c, &key) {
        return Err(DuplicateKeyError { key });
    }
    let s = Snippet::new(key, description, command, tags);
    let kept = s.duplicate();
    let ghost before = c@;
    c.push(s);
    assert(collection_view(c@) =~= collection_view(before).push(kept@));
    Ok(kept)
}

/// Every snippet of the collection, in order.
pub fn list(c: &Vec<Snippet>) -> (r: Vec<Snippet>)
    ensures
        collection_view(r@) == collection_view(c@),
{
    let mut r: Vec<Snippet> = Vec::new();
    let mut i: usize = 0;
    while i < c.len()
        invariant
            0 <= i <= c.len(),
            collection_view(r@) == collection_view(c@.subrange(0, i as int)),
        decreases c.len() - i,
    {
        let s = c[i].duplicate();
        let ghost before = r@;
        r.push(s);
        assert(collection_view(r@) =~= collection_view(before).push(c@[i as int]@));
        assert(collection_view(c@.subrange(0, i + 1)) =~= collection_view(
            c@.subrange(0, i as int),
        ).push(c@[i as int]@));
        i = i + 1;
    }
    assert(c@.subrange(0, c.len() as int) =~= c@);
    r
}

/// The first snippet, in collection order, with exactly this key.
pub fn get(c: &Vec<Snippet>, key: &String) -> (r: Option<Snippet>)
    ensures
        r is Some <==> has_key(collection_view(c@), key@),
        r matches Some(s) ==> exists|i: int|
            0 <= i < c.len() && collection_view(c@)[i].key == key@ && s@ == collection_view(c@)[i]
                && forall|j: int| 0 <= j < i ==> #[trigger] collection_view(c@)[j].key != key@,
{
    let mut i: usize = 0;
    while i < c.len()
        invariant
            0 <= i <= c.len(),
            forall|j: int| 0 <= j < i ==> #[trigger] collection_view(c@)[j].key != key@,
        decreases c.len() - i,
    {
        assert(collection_view(c@)[i as int] == c@[i as int]@);
        if c[i].key == *key {
            let s = c[i].duplicate();
            assert(c@[i as int].key@ == key@);
            assert(collection_view(c@)[i as int].key == key@);
            assert(s@ == collection_view(c@)[i as int]);
            return Some(s);
        }
        i = i + 1;
    }
    None
}

/// The lowercase form of each string of a list, in order.
pub fn lowercase_all(v: &Vec<String>) -> (r: Vec<String>)
    ensures
        strings_view(r@) == lower_all(strings_view(v@)),
{
    let mut r: Vec<String> = Vec::new();
    let mut i: usize = 0;
    while i < v.len()
        invariant
            0 <= i <= v.len(),
            strings_view(r@) == lower_all(strings_view(v@.subrange(0, i as int))),
        decreases v.len() - i,
    {
        let t = lowercase(v[i].as_str());
        let ghost before = r@;
        r.push(t);
        assert(strings_view(r@) =~= strings_view(before).push(lower_of(v@[i as int]@)));
        assert(lower_all(strings_view(v@.subrange(0, i + 1))) =~= lower_all(
            strings_view(v@.subrange(0, i as int)),
        ).push(lower_of(v@[i as int]@)));
        i = i + 1;
    }
    assert(v@.subrange(0, v.len() as int) =~= v@);
    r
}

/// Whether a snippet matches an already lowercased keyword.
pub fn matches_lowered(keyword_lower: &str, s: &Snippet) -> (r: bool)
    ensures
        r == snippet_matches(keyword_lower@, s@),
{
    let key_lower = lowercase(s.key.as_str());
    let description_lower = lowercase(s.description.as_str());
    let tags_lower = lowercase_all(&s.tags);
    lowered_fields_match(keyword_lower, key_lower.as_str(), description_lower.as_str(), &tags_lower)
}

/// The snippets whose key, description or one of whose tags holds the
/// keyword, all compared in lowercase; collection order is kept.
pub fn search(c: &Vec<Snippet>, keyword: &str) -> (r: Vec<Snippet>)
    ensures
        collection_view(r@) == search_result(collection_view(c@), keyword@),
{
    let keyword_lower = lowercase(keyword);
    let ghost kl = keyword_lower@;
    let mut r: Vec<Snippet> = Vec::new();
    let mut i: usize = 0;
    while i < c.len()
        invariant
            0 <= i <= c.len(),
            kl == lower_of(keyword@),
            kl == keyword_lower@,
            collection_view(r@) == matching(collection_view(c@).subrange(0, i as int), kl),
        decreases c.len() - i,
    {
        let ghost done = collection_view(c@).subrange(0, i + 1);
        assert(done.drop_last() =~= collection_view(c@).subrange(0, i as int));
        assert(done.last() == c@[i as int]@);
        proof {
            reveal(Seq::filter);
        }
        if matches_lowered(keyword_lower.as_str(), &c[i]) {
            let s = c[i].duplicate();
            let ghost before = r@;
            r.push(s);
            assert(collection_view(r@) =~= collection_view(before).push(c@[i as int]@));
        }
        i = i + 1;
    }
    assert(collection_view(c@).subrange(0, c.len() as int) =~= collection_view(c@));
    r
}

/// The collection without the snippets of exactly this key, the others kept
/// in order, and whether any was taken out.
pub fn delete(c: Vec<Snippet>, key: &String) -> (r: (Vec<Snippet>, bool))
    ensures
        collection_view(r.0@) == without_key(collection_view(c@), key@),
        r.0@.len() == without_key(collection_view(c@), key@).len(),
        r.1 == has_key(collection_view(c@), key@),
{
    let mut kept: Vec<Snippet> = Vec::new();
    let mut removed = false;
    let mut i: usize = 0;
    while i < c.len()
        invariant
            0 <= i <= c.len(),
            collection_view(kept@) == without_key(collection_view(c@).subrange(0, i as int), key@),
            removed == has_key(collection_view(c@).subrange(0, i as int), key@),
        decreases c.len() - i,
    {
        let ghost done = collection_view(c@).subrange(0, i + 1);
        assert(done.drop_last() =~= collection_view(c@).subrange(0, i as int));
        assert(done.last() == c@[i as int]@);
        proof {
            reveal(Seq::filter);
        }
        if c[i].key == *key {
            assert(done[i as int].key == key@);
            removed = true;
        } else {
            let s = c[i].duplicate();
            let ghost before = kept@;
            kept.push(s);
            assert(collection_view(kept@) =~= collection_view(before).push(c@[i as int]@));
            assert forall|j: int| 0 <= j < done.len() && #[trigger] done[j].key == key@ implies j < i
                && collection_view(c@).subrange(0, i as int)[j].key == key@ by {}
        }
        i = i + 1;
    }
    assert(collection_view(c@).subrange(0, c.len() as int) =~= collection_view(c@));
    (kept, removed)
}

} // verus!
