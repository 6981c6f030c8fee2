use cache_bust::path::is_special;
use cache_bust::AssetPath;

fn path(absolute: bool, parts: &[&str]) -> AssetPath {
    AssetPath::new(absolute, parts.iter().map(|part| part.to_string()).collect())
}

#[test]
fn parse_splits_at_slashes() {
    assert_eq!(AssetPath::parse("greetings/hi.txt"), path(false, &["greetings", "hi.txt"]));
    assert_eq!(AssetPath::parse("/a/b"), path(true, &["a", "b"]));
    assert_eq!(AssetPath::parse("hello.txt"), path(false, &["hello.txt"]));
    assert_eq!(AssetPath::parse(""), path(false, &[]));
    assert_eq!(AssetPath::parse("/"), path(true, &[]));
}

#[test]
fn parse_passes_over_what_adds_nothing() {
    assert_eq!(AssetPath::parse("a//b"), path(false, &["a", "b"]));
    assert_eq!(AssetPath::parse("a/b/"), path(false, &["a", "b"]));
    assert_eq!(AssetPath::parse("a/./b"), path(false, &["a", "b"]));
    assert_eq!(AssetPath::parse("a/b/."), path(false, &["a", "b"]));
    assert_eq!(AssetPath::parse("./a/b"), path(false, &[".", "a", "b"]));
    assert_eq!(AssetPath::parse("/./a"), path(true, &["a"]));
    assert_eq!(AssetPath::parse("//a"), path(true, &["a"]));
    assert_eq!(AssetPath::parse("a/../b"), path(false, &["a", "..", "b"]));
    assert_eq!(AssetPath::parse("."), path(false, &["."]));
}

#[test]
fn render_joins_with_slashes() {
    assert_eq!(path(false, &["greetings", "hi.txt"]).render(), "greetings/hi.txt");
    assert_eq!(path(true, &["a", "b", "c"]).render(), "/a/b/c");
    assert_eq!(path(false, &["one"]).render(), "one");
    assert_eq!(path(false, &[]).render(), "");
    assert_eq!(path(true, &[]).render(), "/");
}

#[test]
fn render_undoes_parse() {
    for text in ["a/b/c.txt", "/a/b", "", "/", "./x", "a/../b"] {
        assert_eq!(AssetPath::parse(text).render(), text);
        assert_eq!(AssetPath::parse(&AssetPath::parse(text).render()), AssetPath::parse(text));
    }
}

#[test]
fn file_name_is_the_last_component() {
    assert_eq!(AssetPath::parse("a/b.txt").file_name(), Some("b.txt"));
    assert_eq!(AssetPath::parse("/b").file_name(), Some("b"));
    assert_eq!(AssetPath::parse("").file_name(), None);
    assert_eq!(AssetPath::parse("/").file_name(), None);
    assert_eq!(AssetPath::parse("a/..").file_name(), None);
    assert_eq!(AssetPath::parse(".").file_name(), None);
    assert_eq!(AssetPath::parse("...").file_name(), Some("..."));
}

#[test]
fn special_names() {
    assert!(is_special("."));
    assert!(is_special(".."));
    assert!(!is_special(""));
    assert!(!is_special("..."));
    assert!(!is_special("a"));
    assert!(!is_special(".a"));
}

#[test]
fn join_continues_or_replaces() {
    let base = AssetPath::parse("assets");
    assert_eq!(base.join(&AssetPath::parse("greetings/hi.txt")), AssetPath::parse("assets/greetings/hi.txt"));
    assert_eq!(base.join(&AssetPath::parse("/tmp/hi.txt")), AssetPath::parse("/tmp/hi.txt"));
    assert_eq!(AssetPath::parse("/srv").join(&AssetPath::parse("x")), AssetPath::parse("/srv/x"));
    assert_eq!(base.join(&AssetPath::parse("")), base);
}

#[test]
fn parent_child_and_with_file_name() {
    let file = AssetPath::parse("/a/b/c.txt");
    assert_eq!(file.parent(), AssetPath::parse("/a/b"));
    assert_eq!(AssetPath::parse("c").parent(), AssetPath::parse(""));
    assert_eq!(AssetPath::parse("").parent(), AssetPath::parse(""));
    assert_eq!(AssetPath::parse("/").parent(), AssetPath::parse("/"));
    assert_eq!(file.parent().child("d"), AssetPath::parse("/a/b/d"));
    assert_eq!(file.with_file_name("d.bin"), AssetPath::parse("/a/b/d.bin"));
    assert_eq!(AssetPath::parse("a/..").with_file_name("d"), AssetPath::parse("a/../d"));
    assert_eq!(AssetPath::parse("").with_file_name("d"), AssetPath::parse("d"));
}

#[test]
fn strip_drops_leading_components() {
    let file = AssetPath::parse("/a/b/c.txt");
    assert_eq!(file.strip(0), AssetPath::parse("a/b/c.txt"));
    assert_eq!(file.strip(2), AssetPath::parse("c.txt"));
    assert_eq!(file.strip(3), AssetPath::parse(""));
    assert_eq!(file.strip(4), AssetPath::parse(""));
}

#[test]
fn clone_and_flags() {
    let file = AssetPath::parse("/a/b");
    assert_eq!(file.clone(), file);
    assert!(file.is_absolute());
    assert!(!AssetPath::parse("a/b").is_absolute());
}
