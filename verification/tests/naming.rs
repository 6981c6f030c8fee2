use cache_bust::digest::content_hash;
use cache_bust::name::{embedded_hash, extension, extension_dot, file_stem, hashed_name};
use cache_bust::{hashed_file_name, AssetPath};

const ZERO_BYTES_HASH: &str = "e3b0c44298fc1c149afbf4c8996fb92427ae41e4649b934ca495991b7852b855";
const SOME_TEXT_HASH: &str = "4c2e9e6da31a64c70623619c449a040968cdbea85945bf384fa30ed2d5d24fa3";

#[test]
fn test_hello_txt() {
    let mut path = AssetPath::parse("/project");
    path = path.child("tests");
    path = path.child("hello.txt");
    let hashed_name = hashed_file_name(&path, b"Hello, world!\n");

    assert_eq!(
        hashed_name,
        "hello-d9014c4624844aa5bac314773d6b689ad467fa4e1d1a50a1b8a99d5a95f72ff5.txt"
    );
}

#[test]
fn test_hello() {
    let mut path = AssetPath::parse("/project");
    path = path.child("tests");
    path = path.child("hello");
    let hashed_name = hashed_file_name(&path, b"Hello there\n");

    assert_eq!(
        hashed_name,
        "hello-97f24948156c5ea491bda3d05d12b334c57409e3b746e73215585b2fe99fb098"
    );
}

#[test]
fn empty_file_gets_the_hash_of_zero_bytes() {
    let name = hashed_file_name(&AssetPath::parse("empty"), b"");
    assert_eq!(
        name,
        "empty-e3b0c44298fc1c149afbf4c8996fb92427ae41e4649b934ca495991b7852b855"
    );
}

#[test]
fn some_text_gets_its_hash() {
    let name = hashed_file_name(&AssetPath::parse("texts/some_text"), b"Some text");
    assert_eq!(
        name,
        "some_text-4c2e9e6da31a64c70623619c449a040968cdbea85945bf384fa30ed2d5d24fa3"
    );
}

#[test]
fn content_hash_is_sha256_in_lowercase_hex() {
    assert_eq!(content_hash(b""), ZERO_BYTES_HASH);
    assert_eq!(content_hash(b"Some text"), SOME_TEXT_HASH);
    assert_eq!(content_hash(b"Some text").len(), 64);
    assert_ne!(content_hash(b"Some text"), "Some text");
    assert!(content_hash(&[0xff, 0x00, 0xab])
        .chars()
        .all(|c| c.is_ascii_digit() || ('a'..='f').contains(&c)));
}

#[test]
fn same_name_and_content_give_the_same_name() {
    let here = AssetPath::parse("a/b/logo.png");
    let there = AssetPath::parse("/x/logo.png");
    let first = hashed_file_name(&here, b"pixels");
    assert_eq!(first, hashed_file_name(&here, b"pixels"));
    assert_eq!(first, hashed_file_name(&there, b"pixels"));
}

#[test]
fn one_changed_byte_changes_the_name() {
    let path = AssetPath::parse("logo.png");
    assert_ne!(
        hashed_file_name(&path, b"pixels"),
        hashed_file_name(&path, b"pixelt")
    );
}

#[test]
fn same_content_gives_the_same_hash_under_any_name() {
    let first = hashed_file_name(&AssetPath::parse("one.txt"), b"Some text");
    let second = hashed_file_name(&AssetPath::parse("dir/two"), b"Some text");
    assert_eq!(
        embedded_hash("one.txt", &first),
        Some(SOME_TEXT_HASH.to_string())
    );
    assert_eq!(
        embedded_hash("two", &second),
        Some(SOME_TEXT_HASH.to_string())
    );
}

#[test]
fn extension_is_kept_behind_the_hash() {
    assert_eq!(hashed_name("x.ext", "abc"), "x-abc.ext");
    assert_eq!(hashed_name("archive.tar.gz", "abc"), "archive.tar-abc.gz");
    assert_eq!(hashed_name("trailing.", "abc"), "trailing-abc.");
    assert_eq!(
        hashed_file_name(&AssetPath::parse("archive.tar.gz"), b""),
        "archive.tar-e3b0c44298fc1c149afbf4c8996fb92427ae41e4649b934ca495991b7852b855.gz"
    );
    assert_eq!(
        hashed_name(
            "circle.png",
            "f04a632bf7de8a58d730988671a9139d6f7b3b197bbc78b6c74a4542eaa4878d"
        ),
        "circle-f04a632bf7de8a58d730988671a9139d6f7b3b197bbc78b6c74a4542eaa4878d.png"
    );
}

#[test]
fn name_without_extension_gets_no_dot_behind_the_hash() {
    assert_eq!(hashed_name("x", "abc"), "x-abc");
    assert_eq!(hashed_name(".profile", "abc"), ".profile-abc");
    assert_eq!(hashed_name("", "abc"), "-abc");
}

#[test]
fn path_without_file_name_has_an_empty_stem() {
    assert_eq!(hashed_file_name(&AssetPath::parse(""), b""), format!("-{ZERO_BYTES_HASH}"));
    assert_eq!(hashed_file_name(&AssetPath::parse("a/.."), b""), format!("-{ZERO_BYTES_HASH}"));
}

#[test]
fn stem_and_extension_split_at_the_last_dot() {
    assert_eq!(extension_dot("hello.txt"), Some(5));
    assert_eq!(extension_dot("a.b.c"), Some(3));
    assert_eq!(extension_dot("hello"), None);
    assert_eq!(extension_dot(".profile"), None);
    assert_eq!(extension_dot(""), None);
    assert_eq!(file_stem("hello.txt"), "hello");
    assert_eq!(file_stem("a.b.c"), "a.b");
    assert_eq!(file_stem(".profile"), ".profile");
    assert_eq!(extension("hello.txt"), Some("txt"));
    assert_eq!(extension("hello."), Some(""));
    assert_eq!(extension("hello"), None);
    assert_eq!(extension(".profile"), None);
    assert_eq!(extension("é.ü"), Some("ü"));
}

#[test]
fn embedded_hash_reads_the_hash_back() {
    assert_eq!(embedded_hash("x.ext", "x-abc.ext"), Some("abc".to_string()));
    assert_eq!(embedded_hash("x", "x-abc"), Some("abc".to_string()));
    assert_eq!(embedded_hash("a.b.c", "a.b-0f.c"), Some("0f".to_string()));
    assert_eq!(embedded_hash("a-b.c", "a-b-0f.c"), Some("0f".to_string()));
    assert_eq!(embedded_hash("x", "x-"), Some("".to_string()));
    assert_eq!(embedded_hash("x.ext", "x-.ext"), Some("".to_string()));
    assert_eq!(embedded_hash("x", "x"), None);
    assert_eq!(embedded_hash("x.ext", "x.ext"), None);
    assert_eq!(embedded_hash("x.ext", "x.abc.ext"), None);
    assert_eq!(embedded_hash("x.ext", "y-abc.ext"), None);
    assert_eq!(embedded_hash("x.ext", "x-abc.txt"), None);
    assert_eq!(embedded_hash("x.ext", "x-abc"), None);
    assert_eq!(embedded_hash("long_name.ext", "l-a.ext"), None);
    assert_eq!(embedded_hash("x", ""), None);
}
