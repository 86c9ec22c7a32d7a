use vstd::prelude::*;

verus! {

/// The mathematical value of a snippet: its four fields as character sequences.
pub struct SnippetView {
    pub key: Seq<char>,
    pub description: Seq<char>,
    pub command: Seq<char>,
    pub tags: Seq<Seq<char>>,
}

/// The characters of each string of a list, in order.
pub open spec fn strings_view(v: Seq<String>) -> Seq<Seq<char>> {
    v.map_values(|t: String| t@)
}

/// One stored entry: a unique key, a description, the command it stands for,
/// and free-form tags in insertion order.
#[derive(Clone, Debug)]
pub struct Snippet {
    pub key: String,
    pub description: String,
    pub command: String,
    pub tags: Vec<String>,
}

impl View for Snippet {
    type V = SnippetView;

    open spec fn view(&self) -> SnippetView {
        SnippetView {
            key: self.key@,
            description: self.description@,
            command: self.command@,
            tags: strings_view(self.tags@),
        }
    }
}

/// The values of the snippets of a collection, in order.
pub open spec fn collection_view(c: Seq<Snippet>) -> Seq<SnippetView> {
    c.map_values(|s: Snippet| s@)
}

/// A copy of a list of strings.
pub fn copy_strings(v: &Vec<String>) -> (r: Vec<String>)
    ensures
        strings_view(r@) == strings_view(v@),
{
    let mut r: Vec<String> = Vec::new();
    let mut i: usize = 0;
    while i < v.len()
        invariant
            0 <= i <= v.len(),
            strings_view(r@) == strings_view(v@.subrange(0, i as int)),
        decreases v.len() - i,
    {
        r.push(v[i].clone());
        assert(strings_view(v@.subrange(0, i + 1)) =~= strings_view(v@.subrange(0, i as int)).push(
            v@[i as int]@,
        ));
        assert(strings_view(r@) =~= strings_view(v@.subrange(0, i as int)).push(v@[i as int]@));
        i = i + 1;
    }
    assert(v@.subrange(0, v.len() as int) =~= v@);
    r
}

impl Snippet {
    /// A snippet built from its four fields.
    pub fn new(key: String, description: String, command: String, tags: Vec<String>) -> (r: Snippet)
        ensures
            r.key@ == key@,
            r.description@ == description@,
            r.command@ == command@,
            r.tags@ == tags@,
            r@ == (SnippetView {
                key: key@,
                description: description@,
                command: command@,
                tags: strings_view(tags@),
            }),
    {
        Snippet { key, description, command, tags }
    }

    /// A copy of this snippet, equal to it field for field.
    pub fn duplicate(&self) -> (r: Snippet)
        ensures
            r@ == self@,
    {
        Snippet {
            key: self.key.clone(),
            description: self.description.clone(),
            command: self.command.clone(),
            tags: copy_strings(&self.tags),
        }
    }
}

} // verus!
