use dev_vault::snippet::Snippet;
use dev_vault::store::{resolve_load, StoreCorruptError};
use dev_vault::text::lowered_fields_match;
use dev_vault::vault::{
    add, contains_key, delete, get, list, lowercase_all, matches_lowered, search,
};

fn s(x: &str) -> String {
    x.to_string()
}

fn strings(xs: &[&str]) -> Vec<String> {
    xs.iter().map(|x| x.to_string()).collect()
}

fn snip(key: &str, description: &str, command: &str, tags: &[&str]) -> Snippet {
    Snippet::new(s(key), s(description), s(command), strings(tags))
}

fn keys(c: &[Snippet]) -> Vec<String> {
    c.iter().map(|x| x.key.clone()).collect()
}

fn store_abc() -> Vec<Snippet> {
    vec![
        snip("a", "first", "echo a", &[]),
        snip("b", "second", "echo b", &["x"]),
        snip("c", "third", "echo c", &["y", "z"]),
    ]
}

#[test]
fn empty_store_lists_nothing() {
    let c: Vec<Snippet> = Vec::new();
    assert!(list(&c).is_empty());
}

#[test]
fn list_keeps_every_field_and_order() {
    let c = store_abc();
    let l = list(&c);
    assert_eq!(keys(&l), strings(&["a", "b", "c"]));
    assert_eq!(l[2].description, "third");
    assert_eq!(l[2].command, "echo c");
    assert_eq!(l[2].tags, strings(&["y", "z"]));
}

#[test]
fn add_same_key_twice_is_refused() {
    let mut c: Vec<Snippet> = Vec::new();
    let first = add(
        &mut c,
        s("gitlog"),
        s("pretty git log"),
        s("git log --oneline --graph"),
        strings(&["git", "log"]),
    );
    let added = first.unwrap();
    assert_eq!(added.key, "gitlog");
    assert_eq!(added.command, "git log --oneline --graph");
    assert_eq!(c.len(), 1);
    let second = add(&mut c, s("gitlog"), s("other"), s("ls"), Vec::new());
    let err = second.unwrap_err();
    assert_eq!(err.key, "gitlog");
    assert_eq!(c.len(), 1);
    assert_eq!(c[0].description, "pretty git log");
}

#[test]
fn add_appends_at_the_end() {
    let mut c = store_abc();
    let r = add(&mut c, s("d"), s("fourth"), s("echo d"), strings(&["t", "t"]));
    assert!(r.is_ok());
    assert_eq!(keys(&c), strings(&["a", "b", "c", "d"]));
    assert_eq!(c[3].tags, strings(&["t", "t"]));
}

#[test]
fn add_keys_are_case_sensitive() {
    let mut c = store_abc();
    assert!(add(&mut c, s("A"), s("upper"), s("echo A"), Vec::new()).is_ok());
    assert_eq!(c.len(), 4);
}

#[test]
fn every_add_either_grows_or_leaves_unchanged() {
    let mut c: Vec<Snippet> = Vec::new();
    for k in ["p", "q", "p", "r", "q"] {
        let before = c.len();
        let present = contains_key(&c, &s(k));
        let r = add(&mut c, s(k), s("d"), s("c"), Vec::new());
        if present {
            assert!(r.is_err());
            assert_eq!(c.len(), before);
        } else {
            assert!(r.is_ok());
            assert_eq!(c.len(), before + 1);
        }
    }
    assert_eq!(keys(&c), strings(&["p", "q", "r"]));
}

#[test]
fn get_finds_by_exact_key() {
    let c = store_abc();
    assert_eq!(get(&c, &s("b")).unwrap().description, "second");
    assert!(get(&c, &s("B")).is_none());
    assert!(get(&c, &s("zz")).is_none());
}

#[test]
fn get_takes_first_of_repeated_key() {
    let c = vec![snip("k", "one", "1", &[]), snip("k", "two", "2", &[])];
    assert_eq!(get(&c, &s("k")).unwrap().description, "one");
}

#[test]
fn delete_middle_then_again() {
    let c = store_abc();
    let (c, removed) = delete(c, &s("b"));
    assert!(removed);
    assert_eq!(keys(&c), strings(&["a", "c"]));
    let (c, removed) = delete(c, &s("b"));
    assert!(!removed);
    assert_eq!(keys(&c), strings(&["a", "c"]));
    assert_eq!(c[1].tags, strings(&["y", "z"]));
}

#[test]
fn delete_removes_every_repeat_and_is_case_sensitive() {
    let c = vec![
        snip("k", "one", "1", &[]),
        snip("m", "mid", "2", &[]),
        snip("k", "two", "3", &[]),
    ];
    let (c, removed) = delete(c, &s("K"));
    assert!(!removed);
    assert_eq!(c.len(), 3);
    let (c, removed) = delete(c, &s("k"));
    assert!(removed);
    assert_eq!(keys(&c), strings(&["m"]));
}

#[test]
fn search_ignores_case() {
    let c = vec![
        snip("clean", "Docker Cleanup", "docker system prune", &[]),
        snip("other", "nothing", "ls", &[]),
    ];
    assert_eq!(keys(&search(&c, "docker")), strings(&["clean"]));
    assert_eq!(keys(&search(&c, "DOCKER")), strings(&["clean"]));
    assert!(search(&c, "xyz").is_empty());
}

#[test]
fn search_upper_and_lower_keyword_agree() {
    let c = vec![
        snip("FooBar", "x", "1", &[]),
        snip("b", "has foo inside", "2", &[]),
        snip("c", "none", "3", &["FOO"]),
        snip("d", "none", "foo in command only", &[]),
    ];
    let upper = keys(&search(&c, "FOO"));
    let lower = keys(&search(&c, "foo"));
    assert_eq!(upper, lower);
    assert_eq!(lower, strings(&["FooBar", "b", "c"]));
}

#[test]
fn search_looks_at_each_tag_alone() {
    let c = vec![snip("k", "d", "c", &["ab", "cd"])];
    assert!(search(&c, "bc").is_empty());
    assert_eq!(search(&c, "CD").len(), 1);
}

#[test]
fn search_empty_keyword_finds_all() {
    let c = store_abc();
    assert_eq!(keys(&search(&c, "")), strings(&["a", "b", "c"]));
}

#[test]
fn search_keeps_collection_order() {
    let c = vec![
        snip("z", "git push", "1", &[]),
        snip("a", "other", "2", &[]),
        snip("m", "GIT pull", "3", &[]),
    ];
    assert_eq!(keys(&search(&c, "Git")), strings(&["z", "m"]));
}

#[test]
fn matches_lowered_needs_lowercase_keyword() {
    let x = snip("Deploy", "Ship It", "make", &["Prod"]);
    assert!(matches_lowered("deploy", &x));
    assert!(matches_lowered("ship", &x));
    assert!(matches_lowered("prod", &x));
    assert!(!matches_lowered("make", &x));
}

#[test]
fn lowered_fields_match_on_given_forms() {
    let tags = strings(&["red", "green"]);
    assert!(lowered_fields_match("ee", "k", "d", &tags));
    assert!(lowered_fields_match("k", "k", "d", &tags));
    assert!(lowered_fields_match("", "", "", &Vec::new()));
    assert!(!lowered_fields_match("blue", "k", "d", &tags));
    assert!(!lowered_fields_match("K", "k", "d", &tags));
}

#[test]
fn lowercase_all_lowers_each() {
    assert_eq!(lowercase_all(&strings(&["AbC", "ÉTÉ", "x"])), strings(&["abc", "été", "x"]));
}

#[test]
fn duplicate_copies_fields() {
    let x = snip("k", "d", "c", &["t"]);
    let y = x.duplicate();
    assert_eq!(y.key, "k");
    assert_eq!(y.description, "d");
    assert_eq!(y.command, "c");
    assert_eq!(y.tags, strings(&["t"]));
}

#[test]
fn load_without_file_is_empty() {
    let r = resolve_load(false, None);
    assert!(r.unwrap().is_empty());
}

#[test]
fn load_keeps_what_was_read() {
    let r = resolve_load(true, Some(store_abc())).unwrap();
    assert_eq!(keys(&r), strings(&["a", "b", "c"]));
}

#[test]
fn load_of_unreadable_file_is_corrupt() {
    assert_eq!(resolve_load(true, None).unwrap_err(), StoreCorruptError {});
}
