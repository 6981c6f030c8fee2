//! Paths as lists of component names.
//!
//! A path is held as the names between its separators, outermost first, with
//! a flag for paths that start at the root. Directories are walked and files
//! are opened elsewhere; here a path is only taken apart and put together.

use vstd::prelude::*;

verus! {

/// A path: whether it starts at the root, and the names of its components.
#[derive(Debug, PartialEq, Eq)]
pub struct AssetPath {
    pub absolute: bool,
    pub parts: Vec<String>,
}

/// The mathematical value of an [`AssetPath`].
pub struct PathView {
    pub absolute: bool,
    pub parts: Seq<Seq<char>>,
}

/// The characters of each string of `parts`.
pub open spec fn names(parts: Seq<String>) -> Seq<Seq<char>> {
    Seq::new(parts.len(), |i: int| parts[i]@)
}

/// Whether `name` is `.` or `..`, which name a directory and never a file.
pub open spec fn is_special_name(name: Seq<char>) -> bool {
    name == seq!['.'] || name == seq!['.', '.']
}

/// The names of `parts` written one after the other with `/` between them.
pub open spec fn joined(parts: Seq<Seq<char>>) -> Seq<char>
    decreases parts.len(),
{
    if parts.len() == 0 {
        Seq::empty()
    } else if parts.len() == 1 {
        parts[0]
    } else {
        joined(parts.drop_last()).push('/') + parts.last()
    }
}

/// The pieces that the `/` characters of `text` cut it into, in order:
/// text with `n` of them has `n + 1` pieces, of which some may be empty.
pub open spec fn pieces(text: Seq<char>) -> Seq<Seq<char>>
    decreases text.len(),
{
    if text.len() == 0 {
        seq![Seq::empty()]
    } else {
        let front = pieces(text.drop_last());
        if text.last() == '/' {
            front.push(Seq::empty())
        } else {
            front.drop_last().push(front.last().push(text.last()))
        }
    }
}

/// Whether the piece at `index` is a component of the path: it is not empty,
/// and it is not `.`, which stands for the directory before it, unless the
/// path begins with it.
pub open spec fn is_component(piece: Seq<char>, index: int) -> bool {
    piece.len() > 0 && (piece != seq!['.'] || index == 0)
}

/// The pieces that are components, in order.
pub open spec fn components(pieces: Seq<Seq<char>>) -> Seq<Seq<char>>
    decreases pieces.len(),
{
    if pieces.len() == 0 {
        Seq::empty()
    } else {
        let front = components(pieces.drop_last());
        if is_component(pieces.last(), pieces.len() - 1) {
            front.push(pieces.last())
        } else {
            front
        }
    }
}

/// Whether `text` holds no `/`.
pub open spec fn has_no_slash(text: Seq<char>) -> bool {
    forall|i: int| 0 <= i < text.len() ==> text[i] != '/'
}

impl View for AssetPath {
    type V = PathView;

    open spec fn view(&self) -> PathView {
        PathView { absolute: self.absolute, parts: names(self.parts@) }
    }
}

/// The value of a path that may be missing.
pub open spec fn path_option_view(path: Option<AssetPath>) -> Option<PathView> {
    match path {
        Some(path) => Some(path@),
        None => None,
    }
}

impl PathView {
    /// Whether the path ends in the name of a file: it has a last component,
    /// and that is neither `.` nor `..`.
    pub open spec fn has_file_name(self) -> bool {
        self.parts.len() > 0 && !is_special_name(self.parts.last())
    }

    /// The last component where it names a file, else the empty name.
    pub open spec fn file_name(self) -> Seq<char> {
        if self.has_file_name() {
            self.parts.last()
        } else {
            Seq::empty()
        }
    }

    /// The path without its last component; a path without components is
    /// its own parent.
    pub open spec fn parent(self) -> PathView {
        if self.parts.len() > 0 {
            PathView { absolute: self.absolute, parts: self.parts.drop_last() }
        } else {
            self
        }
    }

    /// The path with one more component, `name`.
    pub open spec fn child(self, name: Seq<char>) -> PathView {
        PathView { absolute: self.absolute, parts: self.parts.push(name) }
    }

    /// `other` seen from this path: an absolute `other` stands for itself, a
    /// relative one continues this path.
    pub open spec fn join(self, other: PathView) -> PathView {
        if other.absolute {
            other
        } else {
            PathView { absolute: self.absolute, parts: self.parts + other.parts }
        }
    }

    /// The path with its file name replaced by `name`; where it has no file
    /// name, `name` is added as a new last component.
    pub open spec fn with_file_name(self, name: Seq<char>) -> PathView {
        if self.has_file_name() {
            self.parent().child(name)
        } else {
            self.child(name)
        }
    }

    /// The relative path made of the components after the first `count`.
    pub open spec fn strip(self, count: int) -> PathView {
        if 0 <= count <= self.parts.len() {
            PathView { absolute: false, parts: self.parts.skip(count) }
        } else {
            PathView { absolute: false, parts: Seq::empty() }
        }
    }

    /// The path that `text` stands for: absolute where `text` starts with
    /// `/`, with the pieces between its `/` characters as components. Doubled
    /// and trailing `/` add nothing, and neither does a `.` that is not at
    /// the start.
    pub open spec fn parse(text: Seq<char>) -> PathView {
        PathView {
            absolute: text.len() > 0 && text[0] == '/',
            parts: components(pieces(text)),
        }
    }

    /// The path in writing: its components with `/` between them, behind a
    /// `/` where the path is absolute.
    pub open spec fn text(self) -> Seq<char> {
        if self.absolute {
            seq!['/'] + joined(self.parts)
        } else {
            joined(self.parts)
        }
    }

    /// Whether the path is one that text can stand for: no component is
    /// empty or holds a `/`, and none is `.` but the first of a relative
    /// path.
    pub open spec fn is_normal(self) -> bool {
        forall|i: int|
            0 <= i < self.parts.len() ==> has_no_slash(#[trigger] self.parts[i]) && is_component(
                self.parts[i],
                if self.absolute {
                    i + 1
                } else {
                    i
                },
            )
    }

    /// Whether this path lies under `base`: it starts as `base` does and
    /// holds the components of `base` first.
    pub open spec fn is_under(self, base: PathView) -> bool {
        self.absolute == base.absolute && base.parts.is_prefix_of(self.parts)
    }
}

/// Whether `name` is `.` or `..`.
pub fn is_special(name: &str) -> (special: bool)
    ensures
        special == is_special_name(name@),
{
    let len = name.unicode_len();
    if len == 1 {
        let special = name.get_char(0) == '.';
        proof {
            if special {
                assert(name@ =~= seq!['.']);
            }
        }
        special
    } else if len == 2 {
        let special = name.get_char(0) == '.' && name.get_char(1) == '.';
        proof {
            if special {
                assert(name@ =~= seq!['.', '.']);
            }
        }
        special
    } else {
        false
    }
}

/// Whether `piece`, the piece at position `index` of a path's text, is a
/// component.
fn counts_as_component(piece: &str, index: usize) -> (counts: bool)
    ensures
        counts == is_component(piece@, index as int),
{
    let len = piece.unicode_len();
    if len == 0 {
        false
    } else if len == 1 && piece.get_char(0) == '.' {
        proof {
            assert(piece@ =~= seq!['.']);
        }
        index == 0
    } else {
        true
    }
}

/// Appends copies of `source[from..to]` to `target`.
fn extend_parts(target: &mut Vec<String>, source: &Vec<String>, from: usize, to: usize)
    requires
        from <= to <= source.len(),
    ensures
        names(final(target)@) == names(old(target)@) + names(source@).subrange(
            from as int,
            to as int,
        ),
{
    let mut i: usize = from;
    while i < to
        invariant
            from <= i <= to <= source.len(),
            names(target@) == names(old(target)@) + names(source@).subrange(from as int, i as int),
        decreases to - i,
    {
        let ghost before = target@;
        target.push(source[i].clone());
        proof {
            assert(names(target@) =~= names(before).push(source@[i as int]@));
            assert(names(source@).subrange(from as int, i + 1) =~= names(source@).subrange(
                from as int,
                i as int,
            ).push(source@[i as int]@));
        }
        i = i + 1;
    }
}

impl AssetPath {
    /// A path of the given components, outermost first.
    pub fn new(absolute: bool, parts: Vec<String>) -> (path: AssetPath)
        ensures
            path@ == (PathView { absolute, parts: names(parts@) }),
    {
        AssetPath { absolute, parts }
    }

    /// Reads a path from its text, with `/` as separator.
    pub fn parse(text: &str) -> (path: AssetPath)
        ensures
            path@ == PathView::parse(text@),
            path@.is_normal(),
    {
        let len = text.unicode_len();
        let mut parts: Vec<String> = Vec::new();
        let mut absolute = false;
        let mut start: usize = 0;
        let mut count: usize = 0;
        let mut i: usize = 0;
        for c in it: text.chars()
            invariant
                i == it.index(),
                it.seq() == text@,
                len == text@.len(),
                start <= i,
                count <= i,
                pieces(text@.take(i as int)).len() == count + 1,
                pieces(text@.take(i as int)).last() == text@.subrange(start as int, i as int),
                names(parts@) == components(pieces(text@.take(i as int)).drop_last()),
                absolute == (i > 0 && text@[0] == '/'),
        {
            let ghost seen = pieces(text@.take(i as int));
            proof {
                assert(text@.take(i + 1).drop_last() =~= text@.take(i as int));
            }
            if c == '/' {
                if i == 0 {
                    absolute = true;
                }
                let piece = text.substring_char(start, i);
                if counts_as_component(piece, count) {
                    parts.push(piece.to_owned());
                }
                proof {
                    assert(seen.push(Seq::empty()).drop_last() =~= seen);
                }
                count = count + 1;
                start = i + 1;
            } else {
                proof {
                    let grown = seen.drop_last().push(seen.last().push(c));
                    assert(grown.drop_last() =~= seen.drop_last());
                    assert(text@.subrange(start as int, i + 1) =~= text@.subrange(
                        start as int,
                        i as int,
                    ).push(c));
                }
            }
            i = i + 1;
        }
        let piece = text.substring_char(start, len);
        let ghost before = parts@;
        if counts_as_component(piece, count) {
            parts.push(piece.to_owned());
            proof {
                assert(names(parts@) =~= names(before).push(piece@));
            }
        }
        proof {
            assert(text@.take(len as int) =~= text@);
            lemma_parse_is_normal(text@);
        }
        AssetPath { absolute, parts }
    }

    /// Whether the path starts at the root.
    pub fn is_absolute(&self) -> (absolute: bool)
        ensures
            absolute == self@.absolute,
    {
        self.absolute
    }

    /// The last component, where it names a file.
    pub fn file_name(&self) -> (name: Option<&str>)
        ensures
            name is Some <==> self@.has_file_name(),
            name is Some ==> name->0@ == self@.file_name(),
    {
        let len = self.parts.len();
        if len == 0 {
            return None;
        }
        let last = self.parts[len - 1].as_str();
        if is_special(last) {
            None
        } else {
            Some(last)
        }
    }

    /// The path without its last component.
    pub fn parent(&self) -> (parent: AssetPath)
        ensures
            parent@ == self@.parent(),
    {
        let mut parts: Vec<String> = Vec::new();
        let len = self.parts.len();
        if len > 0 {
            extend_parts(&mut parts, &self.parts, 0, len - 1);
        }
        proof {
            assert(names(parts@) =~= self@.parent().parts);
        }
        AssetPath { absolute: self.absolute, parts }
    }

    /// The path with one more component.
    pub fn child(&self, name: &str) -> (child: AssetPath)
        ensures
            child@ == self@.child(name@),
    {
        let mut parts: Vec<String> = Vec::new();
        extend_parts(&mut parts, &self.parts, 0, self.parts.len());
        let ghost copied = parts@;
        parts.push(name.to_owned());
        proof {
            assert(names(copied) =~= names(self.parts@));
            assert(names(parts@) =~= names(copied).push(name@));
        }
        AssetPath { absolute: self.absolute, parts }
    }

    /// `other` seen from this path.
    pub fn join(&self, other: &AssetPath) -> (joined: AssetPath)
        ensures
            joined@ == self@.join(other@),
    {
        let mut parts: Vec<String> = Vec::new();
        if !other.absolute {
            extend_parts(&mut parts, &self.parts, 0, self.parts.len());
        }
        extend_parts(&mut parts, &other.parts, 0, other.parts.len());
        proof {
            assert(names(parts@) =~= self@.join(other@).parts);
        }
        AssetPath { absolute: self.absolute || other.absolute, parts }
    }

    /// The path with its file name replaced by `name`.
    pub fn with_file_name(&self, name: &str) -> (renamed: AssetPath)
        ensures
            renamed@ == self@.with_file_name(name@),
    {
        match self.file_name() {
            Some(_) => self.parent().child(name),
            None => self.child(name),
        }
    }

    /// The path in writing, with `/` as separator.
    pub fn render(&self) -> (text: String)
        ensures
            text@ == self@.text(),
    {
        let mut text = String::new();
        if self.absolute {
            text.append("/");
        }
        proof {
            reveal_strlit("/");
            assert(text@ =~= if self.absolute {
                seq!['/']
            } else {
                Seq::empty()
            });
        }
        let ghost lead = text@;
        let mut i: usize = 0;
        while i < self.parts.len()
            invariant
                i <= self.parts.len(),
                text@ == lead + joined(names(self.parts@).take(i as int)),
            decreases self.parts.len() - i,
        {
            let ghost before = names(self.parts@).take(i as int);
            let ghost after = names(self.parts@).take(i + 1);
            if i > 0 {
                text.append("/");
            }
            text.append(self.parts[i].as_str());
            proof {
                reveal_strlit("/");
                assert(after.drop_last() =~= before);
            }
            i = i + 1;
        }
        proof {
            assert(names(self.parts@).take(i as int) =~= names(self.parts@));
        }
        text
    }

    /// The relative path made of the components after the first `count`.
    pub fn strip(&self, count: usize) -> (rest: AssetPath)
        ensures
            rest@ == self@.strip(count as int),
    {
        let mut parts: Vec<String> = Vec::new();
        let len = self.parts.len();
        if count <= len {
            extend_parts(&mut parts, &self.parts, count, len);
        }
        proof {
            assert(names(parts@) =~= self@.strip(count as int).parts);
        }
        AssetPath { absolute: false, parts }
    }
}

impl Clone for AssetPath {
    fn clone(&self) -> (copy: AssetPath)
        ensures
            copy@ == self@,
    {
        let mut parts: Vec<String> = Vec::new();
        extend_parts(&mut parts, &self.parts, 0, self.parts.len());
        proof {
            assert(names(parts@) =~= names(self.parts@));
        }
        AssetPath { absolute: self.absolute, parts }
    }
}

/// Cutting text into pieces loses nothing: there is at least one piece, no
/// piece holds a `/`, and the pieces with `/` between them are the text.
pub proof fn lemma_pieces(text: Seq<char>)
    ensures
        pieces(text).len() >= 1,
        forall|i: int| 0 <= i < pieces(text).len() ==> has_no_slash(#[trigger] pieces(text)[i]),
        joined(pieces(text)) == text,
    decreases text.len(),
{
    if text.len() > 0 {
        let init = text.drop_last();
        let front = pieces(init);
        lemma_pieces(init);
        assert(text =~= init.push(text.last()));
        if text.last() == '/' {
            assert(front.push(Seq::empty()).drop_last() =~= front);
        } else if front.len() > 1 {
            let grown = front.drop_last().push(front.last().push(text.last()));
            assert(grown.drop_last() =~= front.drop_last());
        }
    }
}

/// Text without `/` that follows other text lengthens the last piece.
proof fn lemma_pieces_append(text: Seq<char>, more: Seq<char>)
    requires
        has_no_slash(more),
    ensures
        pieces(text + more) == pieces(text).drop_last().push(pieces(text).last() + more),
    decreases more.len(),
{
    lemma_pieces(text);
    if more.len() > 0 {
        let init = more.drop_last();
        lemma_pieces_append(text, init);
        assert((text + more).drop_last() =~= text + init);
        assert(pieces(text + init).last().push(more.last()) =~= pieces(text).last() + more);
    }
}

/// Names without `/`, written with `/` between them, are cut into the same
/// names again.
pub proof fn lemma_pieces_of_joined(parts: Seq<Seq<char>>)
    requires
        parts.len() >= 1,
        forall|i: int| 0 <= i < parts.len() ==> has_no_slash(#[trigger] parts[i]),
    ensures
        pieces(joined(parts)) == parts,
    decreases parts.len(),
{
    let none = Seq::<char>::empty();
    if parts.len() == 1 {
        lemma_pieces_append(none, parts[0]);
    } else {
        let init = parts.drop_last();
        lemma_pieces_of_joined(init);
        let lead = joined(init).push('/');
        assert(lead.drop_last() =~= joined(init));
        lemma_pieces_append(lead, parts.last());
    }
}

/// Names written with `/` between them start with the first name.
pub proof fn lemma_joined_starts(parts: Seq<Seq<char>>)
    requires
        parts.len() >= 1,
    ensures
        parts[0].is_prefix_of(joined(parts)),
    decreases parts.len(),
{
    if parts.len() > 1 {
        lemma_joined_starts(parts.drop_last());
    }
}

/// An empty name in front of others shows as a leading `/`.
proof fn lemma_joined_after_empty(parts: Seq<Seq<char>>)
    requires
        parts.len() >= 1,
    ensures
        joined(seq![Seq::<char>::empty()] + parts) == seq!['/'] + joined(parts),
    decreases parts.len(),
{
    let none = Seq::<char>::empty();
    let all = seq![none] + parts;
    if parts.len() == 1 {
        assert(all.drop_last() =~= seq![none]);
        assert(joined(seq![none]) =~= none);
    } else {
        lemma_joined_after_empty(parts.drop_last());
        assert(all.drop_last() =~= seq![none] + parts.drop_last());
    }
}

/// Pieces that all count are all kept.
proof fn lemma_components_keep_all(pieces: Seq<Seq<char>>)
    requires
        forall|i: int| 0 <= i < pieces.len() ==> is_component(#[trigger] pieces[i], i),
    ensures
        components(pieces) == pieces,
    decreases pieces.len(),
{
    if pieces.len() > 0 {
        lemma_components_keep_all(pieces.drop_last());
    }
}

/// Behind an empty first piece, pieces that all count are all kept, and the
/// empty one is not.
proof fn lemma_components_after_empty(parts: Seq<Seq<char>>)
    requires
        forall|i: int| 0 <= i < parts.len() ==> is_component(#[trigger] parts[i], i + 1),
    ensures
        components(seq![Seq::<char>::empty()] + parts) == parts,
    decreases parts.len(),
{
    let none = Seq::<char>::empty();
    let all = seq![none] + parts;
    if parts.len() == 0 {
        assert(all.drop_last() =~= Seq::<Seq<char>>::empty());
        assert(components(Seq::<Seq<char>>::empty()) =~= Seq::<Seq<char>>::empty());
    } else {
        lemma_components_after_empty(parts.drop_last());
        assert(all.drop_last() =~= seq![none] + parts.drop_last());
    }
}

/// Whether `part` is a piece that counts where it stands, at position `at`
/// among the pieces or behind it.
spec fn is_kept_piece(pieces: Seq<Seq<char>>, part: Seq<char>, at: int) -> bool {
    exists|j: int| at <= j < pieces.len() && #[trigger] is_component(pieces[j], j) && pieces[j] == part
}

/// Each component is one of the pieces, one that counts where it stands,
/// and stands no later among the components than among the pieces.
proof fn lemma_components_origin(pieces: Seq<Seq<char>>)
    ensures
        components(pieces).len() <= pieces.len(),
        forall|k: int|
            0 <= k < components(pieces).len() ==> is_kept_piece(
                pieces,
                #[trigger] components(pieces)[k],
                k,
            ),
    decreases pieces.len(),
{
    if pieces.len() > 0 {
        let init = pieces.drop_last();
        lemma_components_origin(init);
        assert forall|k: int| 0 <= k < components(pieces).len() implies is_kept_piece(
            pieces,
            #[trigger] components(pieces)[k],
            k,
        ) by {
            let j = if k < components(init).len() {
                choose|j: int|
                    k <= j < init.len() && #[trigger] is_component(init[j], j) && init[j]
                        == components(init)[k]
            } else {
                pieces.len() - 1
            };
            assert(is_component(pieces[j], j) && pieces[j] == components(pieces)[k]);
        }
    }
}

/// Writing a path and reading it again gives the path: nothing is lost in
/// writing, for every path that text can stand for.
pub proof fn lemma_parse_text(path: PathView)
    requires
        path.is_normal(),
    ensures
        PathView::parse(path.text()) == path,
{
    let none = Seq::<char>::empty();
    let parts = path.parts;
    let text = path.text();
    if parts.len() == 0 {
        lemma_components_after_empty(parts);
        assert(pieces(none) =~= seq![none]);
        if path.absolute {
            assert(text.drop_last() =~= none);
            assert(seq![none].push(none).drop_last() =~= seq![none]);
        }
    } else if path.absolute {
        let all = seq![none] + parts;
        lemma_joined_after_empty(parts);
        assert forall|i: int| 0 <= i < all.len() implies has_no_slash(#[trigger] all[i]) by {
            assert(i == 0 || all[i] == parts[i - 1]);
        }
        lemma_pieces_of_joined(all);
        lemma_components_after_empty(parts);
    } else {
        lemma_pieces_of_joined(parts);
        lemma_components_keep_all(parts);
        lemma_joined_starts(parts);
        assert(text[0] == parts[0][0]);
    }
}

/// Reading gives paths that text can stand for, whatever the text.
pub proof fn lemma_parse_is_normal(text: Seq<char>)
    ensures
        PathView::parse(text).is_normal(),
{
    let path = PathView::parse(text);
    let cut = pieces(text);
    lemma_pieces(text);
    lemma_components_origin(cut);
    lemma_joined_starts(cut);
    assert forall|i: int| 0 <= i < path.parts.len() implies has_no_slash(#[trigger] path.parts[i])
        && is_component(
        path.parts[i],
        if path.absolute {
            i + 1
        } else {
            i
        },
    ) by {
        let j = choose|j: int|
            i <= j < cut.len() && #[trigger] is_component(cut[j], j) && cut[j] == path.parts[i];
        if path.parts[i] == seq!['.'] {
            assert(j == 0 && cut[0][0] == text[0]);
        }
    }
}

} // verus!
