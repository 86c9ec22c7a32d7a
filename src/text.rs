use crate::snippet::strings_view;
use vstd::prelude::*;

verus! {

/// What `str::to_lowercase` makes of a string: Unicode's lowercase mapping,
/// which depends on the string's characters alone, never on a locale.
pub uninterp spec fn lower_of(s: Seq<char>) -> Seq<char>;

/// `needle` occurs in `hay` as a run of consecutive characters.
pub open spec fn is_infix(needle: Seq<char>, hay: Seq<char>) -> bool {
    exists|i: int| 0 <= i && i + needle.len() <= hay.len() && #[trigger] hay.subrange(i, i + needle.len()) == needle
}

/// Relies on `str::to_lowercase`: the lowercase form of each character, in
/// order, independent of any locale.
#[verifier::external_body]
pub(crate) fn lowercase(s: &str) -> (r: String)
    ensures
        r@ == lower_of(s@),
{
    s.to_lowercase()
}

/// Relies on `str::contains` with a `&str` pattern: true exactly when the
/// pattern matches a sub-slice of the string.
#[verifier::external_body]
pub(crate) fn contains_str(hay: &str, needle: &str) -> (r: bool)
    ensures
        r == is_infix(needle@, hay@),
{
    hay.contains(needle)
}

/// Some tag of the list holds `needle`.
pub open spec fn some_tag_holds(needle: Seq<char>, tags: Seq<Seq<char>>) -> bool {
    exists|t: int| 0 <= t < tags.len() && is_infix(needle, #[trigger] tags[t])
}

/// The matching rule on forms that are already lowercased: the keyword occurs
/// in the key, in the description, or in one of the tags taken one by one.
pub open spec fn fields_match(
    keyword: Seq<char>,
    key: Seq<char>,
    description: Seq<char>,
    tags: Seq<Seq<char>>,
) -> bool {
    is_infix(keyword, key) || is_infix(keyword, description) || some_tag_holds(keyword, tags)
}

/// Whether a lowercased keyword occurs in the lowercased key, description or
/// one of the lowercased tags of a snippet.
pub fn lowered_fields_match(
    keyword: &str,
    key: &str,
    description: &str,
    tags: &Vec<String>,
) -> (r: bool)
    ensures
        r == fields_match(keyword@, key@, description@, strings_view(tags@)),
{
    if contains_str(key, keyword) {
        return true;
    }
    if contains_str(description, keyword) {
        return true;
    }
    let mut i: usize = 0;
    while i < tags.len()
        invariant
            0 <= i <= tags.len(),
            forall|j: int| 0 <= j < i ==> !is_infix(keyword@, #[trigger] tags@[j]@),
        decreases tags.len() - i,
    {
        if contains_str(tags[i].as_str(), keyword) {
            assert(strings_view(tags@)[i as int] == tags@[i as int]@);
            return true;
        }
        i = i + 1;
    }
    assert forall|t: int| 0 <= t < tags.len() implies !is_infix(
        keyword@,
        #[trigger] strings_view(tags@)[t],
    ) by {
        assert(strings_view(tags@)[t] == tags@[t]@);
    }
    false
}

} // verus!
