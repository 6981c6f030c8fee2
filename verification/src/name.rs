//! The naming rule: where the hash goes in a file name.
//!
//! A name is split at its last `.` into stem and extension, unless that `.`
//! is the name's first character: `.profile` has no extension. The hash goes
//! between the two, behind a `-`: `logo.png` becomes `logo-<hash>.png` and
//! `LICENSE` becomes `LICENSE-<hash>`.

use crate::digest::{content_hash, content_hash_of, HASH_LEN};
use crate::path::{has_no_slash, AssetPath, PathView};
use vstd::prelude::*;

verus! {

/// The character written between a file's stem and the hash.
pub const SEPARATOR: char = '-';

/// Index of the last `.` in `name`, or -1 where it has none.
pub open spec fn last_dot(name: Seq<char>) -> int
    decreases name.len(),
{
    if name.len() == 0 {
        -1
    } else if name.last() == '.' {
        name.len() - 1
    } else {
        last_dot(name.drop_last())
    }
}

/// Whether `name` ends in an extension: it has a `.` after its first
/// character.
pub open spec fn has_extension(name: Seq<char>) -> bool {
    last_dot(name) > 0
}

/// The name without its extension; the whole name where it has none.
pub open spec fn stem_of(name: Seq<char>) -> Seq<char> {
    if has_extension(name) {
        name.take(last_dot(name))
    } else {
        name
    }
}

/// What follows the last `.` of a name that has an extension.
pub open spec fn extension_of(name: Seq<char>) -> Option<Seq<char>> {
    if has_extension(name) {
        Some(name.skip(last_dot(name) + 1))
    } else {
        None
    }
}

/// `name` with `hash` put behind its stem: stem, separator, hash and, where
/// the name has an extension, a `.` and the extension.
pub open spec fn hashed_name_of(name: Seq<char>, hash: Seq<char>) -> Seq<char> {
    let front = stem_of(name).push(SEPARATOR) + hash;
    match extension_of(name) {
        Some(extension) => front.push('.') + extension,
        None => front,
    }
}

/// The name that the file at `path` gets when it holds `content`: its own
/// name with the hash of `content` put in.
pub open spec fn hashed_file_name_of(path: PathView, content: Seq<u8>) -> Seq<char> {
    hashed_name_of(path.file_name(), content_hash_of(content))
}

/// Number of characters that a hashed name holds behind the hash: the
/// extension of `name` and the `.` before it.
pub open spec fn tail_len(name: Seq<char>) -> int {
    match extension_of(name) {
        Some(extension) => extension.len() as int + 1,
        None => 0,
    }
}

/// The hash that `hashed` carries, where `hashed` was made from `name`:
/// what stands between the stem of `name` with the separator and the
/// extension of `name`. There is none where `hashed` does not begin and
/// end as hashed names of `name` do.
pub open spec fn embedded_hash_of(name: Seq<char>, hashed: Seq<char>) -> Option<Seq<char>> {
    let start = stem_of(name).len() as int + 1;
    let end = hashed.len() - tail_len(name);
    if start <= end && hashed_name_of(name, hashed.subrange(start, end)) == hashed {
        Some(hashed.subrange(start, end))
    } else {
        None
    }
}

/// Whether `hash` holds neither `.` nor the separator, so that it is told
/// apart from what stands around it in a name.
pub open spec fn stands_apart(hash: Seq<char>) -> bool {
    forall|i: int| 0 <= i < hash.len() ==> hash[i] != '.' && hash[i] != SEPARATOR
}

/// What `last_dot` finds: a `.` with none behind it, or -1 exactly where the
/// name has no `.` at all.
pub proof fn lemma_last_dot(name: Seq<char>)
    ensures
        -1 <= last_dot(name) < name.len(),
        last_dot(name) >= 0 ==> name[last_dot(name)] == '.',
        forall|i: int| last_dot(name) < i < name.len() ==> name[i] != '.',
    decreases name.len(),
{
    if name.len() > 0 && name.last() != '.' {
        let front = name.drop_last();
        lemma_last_dot(front);
        assert forall|i: int| last_dot(name) < i < name.len() implies name[i] != '.' by {
            if i < front.len() {
                assert(name[i] == front[i]);
            }
        }
    }
}

/// A `.` at `dot` with none behind it is the last one.
pub proof fn lemma_last_dot_is(name: Seq<char>, dot: int)
    requires
        0 <= dot < name.len(),
        name[dot] == '.',
        forall|i: int| dot < i < name.len() ==> name[i] != '.',
    ensures
        last_dot(name) == dot,
{
    lemma_last_dot(name);
}

/// Position of the `.` that starts the extension of `name`, if it has one.
pub fn extension_dot(name: &str) -> (dot: Option<usize>)
    ensures
        dot is Some <==> has_extension(name@),
        dot is Some ==> dot->0 == last_dot(name@),
{
    let len = name.unicode_len();
    let mut found: Option<usize> = None;
    let mut i: usize = 0;
    for c in it: name.chars()
        invariant
            i == it.index(),
            it.seq() == name@,
            len == name@.len(),
            match found {
                Some(j) => j == last_dot(name@.take(i as int)) && j > 0,
                None => last_dot(name@.take(i as int)) <= 0,
            },
    {
        proof {
            assert(name@.take(i + 1).drop_last() == name@.take(i as int));
        }
        if c == '.' {
            found = if i > 0 {
                Some(i)
            } else {
                None
            };
        }
        i = i + 1;
    }
    proof {
        assert(name@.take(i as int) == name@);
    }
    found
}

/// The stem of `name`: the name without its extension.
pub fn file_stem(name: &str) -> (stem: &str)
    ensures
        stem@ == stem_of(name@),
{
    match extension_dot(name) {
        Some(dot) => {
            proof {
                lemma_last_dot(name@);
            }
            name.substring_char(0, dot)
        },
        None => name,
    }
}

/// The extension of `name`, without its `.`, if it has one.
pub fn extension(name: &str) -> (ext: Option<&str>)
    ensures
        ext is Some <==> has_extension(name@),
        ext is Some ==> Some(ext->0@) == extension_of(name@),
{
    match extension_dot(name) {
        Some(dot) => {
            proof {
                lemma_last_dot(name@);
            }
            let len = name.unicode_len();
            Some(name.substring_char(dot + 1, len))
        },
        None => None,
    }
}

/// `name` with `hash` put between its stem and its extension.
pub fn hashed_name(name: &str, hash: &str) -> (hashed: String)
    ensures
        hashed@ == hashed_name_of(name@, hash@),
{
    let mut hashed = file_stem(name).to_owned();
    hashed.append("-");
    hashed.append(hash);
    proof {
        reveal_strlit("-");
        reveal_strlit(".");
    }
    match extension(name) {
        Some(ext) => {
            hashed.append(".");
            hashed.append(ext);
        },
        None => {},
    }
    hashed
}

/// The name for the file at `path` with the given `content`: its file name
/// with the SHA-256 digest of `content`, in lowercase hexadecimal, put
/// between stem and extension. Equal contents under equal names give equal
/// results. A path that does not end in a file's name counts as an empty
/// name.
pub fn hashed_file_name(path: &AssetPath, content: &[u8]) -> (hashed: String)
    ensures
        hashed@ == hashed_file_name_of(path@, content@),
        hashed@.len() == path@.file_name().len() + 1 + HASH_LEN,
{
    let hash = content_hash(content);
    proof {
        lemma_stem_and_extension(path@.file_name());
    }
    match path.file_name() {
        Some(name) => hashed_name(name, hash.as_str()),
        None => {
            proof {
                reveal_strlit("");
            }
            hashed_name("", hash.as_str())
        },
    }
}

/// The hash inside `hashed`, a name that was made from `name`; `None`
/// where `hashed` is no hashed name of `name`.
pub fn embedded_hash(name: &str, hashed: &str) -> (hash: Option<String>)
    ensures
        hash is Some <==> embedded_hash_of(name@, hashed@) is Some,
        hash is Some ==> Some(hash->0@) == embedded_hash_of(name@, hashed@),
{
    proof {
        lemma_stem_and_extension(name@);
    }
    let start: usize = file_stem(name).unicode_len();
    let tail: usize = name.unicode_len() - start;
    let len: usize = hashed.unicode_len();
    if len < tail || start >= len - tail {
        return None;
    }
    let end: usize = len - tail;
    let hash = hashed.substring_char(start + 1, end);
    let again = hashed_name(name, hash);
    if again == hashed.to_owned() {
        Some(hash.to_owned())
    } else {
        None
    }
}

/// A name `stem.ext` keeps stem and extension around the hash: it becomes
/// `stem-<hash>.ext`.
pub proof fn lemma_extension_kept(stem: Seq<char>, ext: Seq<char>, hash: Seq<char>)
    requires
        stem.len() > 0,
        forall|i: int| 0 <= i < ext.len() ==> ext[i] != '.',
    ensures
        hashed_name_of(stem.push('.') + ext, hash) == (stem.push(SEPARATOR) + hash).push('.') + ext,
{
    let name = stem.push('.') + ext;
    lemma_last_dot_is(name, stem.len() as int);
}

/// A name without extension gets the hash at its end and nothing more: `x`
/// becomes `x-<hash>`.
pub proof fn lemma_no_extension_added(name: Seq<char>, hash: Seq<char>)
    requires
        forall|i: int| 0 < i < name.len() ==> name[i] != '.',
    ensures
        hashed_name_of(name, hash) == name.push(SEPARATOR) + hash,
{
    lemma_last_dot(name);
}

/// The hash can be read back from a hashed name: the hash embedded in
/// the hashed name of `name` with `hash` is `hash`.
pub proof fn lemma_embedded_hash(name: Seq<char>, hash: Seq<char>)
    ensures
        embedded_hash_of(name, hashed_name_of(name, hash)) == Some(hash),
{
    let hashed = hashed_name_of(name, hash);
    let start = stem_of(name).len() as int + 1;
    assert(hashed.subrange(start, hashed.len() - tail_len(name)) =~= hash);
}

/// A name is its stem alone or stem, `.` and extension; the stem before an
/// extension is not empty, and the extension holds no `.`.
pub proof fn lemma_stem_and_extension(name: Seq<char>)
    ensures
        extension_of(name) is None ==> name == stem_of(name),
        extension_of(name) is Some ==> name == stem_of(name).push('.') + extension_of(name)->0,
        extension_of(name) is Some ==> stem_of(name).len() > 0,
        extension_of(name) is Some ==> forall|i: int|
            0 <= i < extension_of(name)->0.len() ==> extension_of(name)->0[i] != '.',
{
    lemma_last_dot(name);
}

/// A hashed name is as long as name, separator and hash together, and
/// holds a `/` only where name or hash do.
pub proof fn lemma_hashed_name_has_no_slash(name: Seq<char>, hash: Seq<char>)
    requires
        has_no_slash(name),
        has_no_slash(hash),
    ensures
        hashed_name_of(name, hash).len() == name.len() + 1 + hash.len(),
        has_no_slash(hashed_name_of(name, hash)),
{
    lemma_stem_and_extension(name);
    let stem = stem_of(name);
    let hashed = hashed_name_of(name, hash);
    assert forall|i: int| 0 <= i < hashed.len() implies hashed[i] != '/' by {
        if i < stem.len() {
            assert(hashed[i] == name[i]);
        } else if i > stem.len() + 1 + hash.len() {
            assert(hashed[i] == name[i - hash.len() - 1]);
        }
    }
}

/// Stem, separator and hash, written one after the other, are told apart
/// again: the separator is the last one in the text, since the hash holds
/// none. Equal texts have equal stems and equal hashes.
proof fn lemma_front_injective(
    first_stem: Seq<char>,
    first_hash: Seq<char>,
    second_stem: Seq<char>,
    second_hash: Seq<char>,
)
    requires
        stands_apart(first_hash),
        stands_apart(second_hash),
        first_stem.push(SEPARATOR) + first_hash == second_stem.push(SEPARATOR) + second_hash,
    ensures
        first_stem == second_stem,
        first_hash == second_hash,
{
    let first = first_stem.push(SEPARATOR) + first_hash;
    let second = second_stem.push(SEPARATOR) + second_hash;
    assert(first.len() == first_stem.len() + 1 + first_hash.len());
    assert(second.len() == second_stem.len() + 1 + second_hash.len());
    assert(first[first_stem.len() as int] == SEPARATOR);
    assert(second[second_stem.len() as int] == SEPARATOR);
    if first_stem.len() < second_stem.len() {
        assert(first[second_stem.len() as int] == first_hash[second_stem.len() - first_stem.len()
            - 1]);
    } else if first_stem.len() > second_stem.len() {
        assert(second[first_stem.len() as int] == second_hash[first_stem.len() - second_stem.len()
            - 1]);
    }
    assert(first.take(first_stem.len() as int) =~= first_stem);
    assert(second.take(second_stem.len() as int) =~= second_stem);
    assert(first.skip(first_stem.len() as int + 1) =~= first_hash);
    assert(second.skip(second_stem.len() as int + 1) =~= second_hash);
}

/// Different names stay different once hashed, and so do different hashes:
/// a hashed name comes from one name and one hash only. The hashes hold
/// neither `.` nor the separator, as hexadecimal text does not.
pub proof fn lemma_hashed_name_injective(
    first: Seq<char>,
    first_hash: Seq<char>,
    second: Seq<char>,
    second_hash: Seq<char>,
)
    requires
        stands_apart(first_hash),
        stands_apart(second_hash),
        hashed_name_of(first, first_hash) == hashed_name_of(second, second_hash),
    ensures
        first == second,
        first_hash == second_hash,
{
    lemma_stem_and_extension(first);
    lemma_stem_and_extension(second);
    let first_front = stem_of(first).push(SEPARATOR) + first_hash;
    let second_front = stem_of(second).push(SEPARATOR) + second_hash;
    let hashed = hashed_name_of(first, first_hash);
    match (extension_of(first), extension_of(second)) {
        (None, None) => {
            lemma_front_injective(stem_of(first), first_hash, stem_of(second), second_hash);
        },
        (Some(first_ext), Some(second_ext)) => {
            lemma_last_dot_behind_front(first, first_hash);
            lemma_last_dot_behind_front(second, second_hash);
            assert(hashed.take(first_front.len() as int) =~= first_front);
            assert(hashed.take(second_front.len() as int) =~= second_front);
            assert(hashed.skip(first_front.len() as int + 1) =~= first_ext);
            assert(hashed.skip(second_front.len() as int + 1) =~= second_ext);
            lemma_front_injective(stem_of(first), first_hash, stem_of(second), second_hash);
        },
        (None, Some(second_ext)) => {
            lemma_mixed_names_differ(first, first_hash, second, second_hash);
        },
        (Some(first_ext), None) => {
            lemma_mixed_names_differ(second, second_hash, first, first_hash);
        },
    }
}

/// In the hashed name of a name with an extension, the last `.` is the one
/// before the extension.
proof fn lemma_last_dot_behind_front(name: Seq<char>, hash: Seq<char>)
    requires
        has_extension(name),
        stands_apart(hash),
    ensures
        last_dot(hashed_name_of(name, hash)) == stem_of(name).len() + 1 + hash.len(),
{
    lemma_stem_and_extension(name);
    let front = stem_of(name).push(SEPARATOR) + hash;
    lemma_last_dot_is(front.push('.') + extension_of(name)->0, front.len() as int);
}

/// A name without extension and one with an extension never give the same
/// hashed name.
proof fn lemma_mixed_names_differ(
    plain: Seq<char>,
    plain_hash: Seq<char>,
    other: Seq<char>,
    other_hash: Seq<char>,
)
    requires
        !has_extension(plain),
        has_extension(other),
        stands_apart(plain_hash),
        stands_apart(other_hash),
    ensures
        hashed_name_of(plain, plain_hash) != hashed_name_of(other, other_hash),
{
    lemma_last_dot(plain);
    lemma_last_dot_behind_front(other, other_hash);
    let left = plain.push(SEPARATOR) + plain_hash;
    let dot = stem_of(other).len() as int + 1 + other_hash.len();
    if left == hashed_name_of(other, other_hash) {
        lemma_last_dot(left);
        assert(left[dot] == '.');
        if dot < plain.len() {
            assert(left[dot] == plain[dot]);
        } else if dot > plain.len() {
            assert(left[dot] == plain_hash[dot - plain.len() - 1]);
        }
        assert(false);
    }
}

/// The hash in a name depends on the content alone: files of equal content
/// carry equal hashes, whatever they are called.
pub proof fn lemma_same_content_same_hash(first: PathView, second: PathView, content: Seq<u8>)
    ensures
        embedded_hash_of(first.file_name(), hashed_file_name_of(first, content))
            == embedded_hash_of(second.file_name(), hashed_file_name_of(second, content)),
        embedded_hash_of(first.file_name(), hashed_file_name_of(first, content)) == Some(
            content_hash_of(content),
        ),
{
    lemma_embedded_hash(first.file_name(), content_hash_of(content));
    lemma_embedded_hash(second.file_name(), content_hash_of(content));
}

} // verus!
