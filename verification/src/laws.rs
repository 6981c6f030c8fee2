//! What holds of every run, whatever the files are.

use crate::asset::{asset_of, is_rooted, local_path, local_text, AssetError};
use crate::cache_bust::{regular_files, ConfigView, EntryView, FileActionView};
use crate::digest::{content_hash_of, lemma_hash_is_plain, lemma_hex_injective, sha256};
use crate::name::{
    hashed_file_name_of, lemma_hashed_name_has_no_slash, lemma_hashed_name_injective,
};
use crate::path::{
    has_no_slash, is_component, lemma_joined_starts, lemma_parse_is_normal, lemma_parse_text,
    PathView,
};
use vstd::prelude::*;

verus! {

/// Whether `path` is the path of a file below the directory `dir`.
pub open spec fn is_file_below(path: PathView, dir: PathView) -> bool {
    path.is_under(dir) && path.parts.len() > dir.parts.len() && path.has_file_name()
}

/// The name of a file depends on what the file is called and on what it
/// holds, and on nothing else: not on the directory it is in.
pub proof fn lemma_name_from_name_and_content(first: PathView, second: PathView, content: Seq<u8>)
    requires
        first.file_name() == second.file_name(),
    ensures
        hashed_file_name_of(first, content) == hashed_file_name_of(second, content),
{
}

/// Two files get the same name only where they are called the same and
/// their contents have the same digest: a change of content that changes
/// the digest changes the name.
pub proof fn lemma_same_name_same_digest(
    first: PathView,
    first_content: Seq<u8>,
    second: PathView,
    second_content: Seq<u8>,
)
    requires
        hashed_file_name_of(first, first_content) == hashed_file_name_of(second, second_content),
    ensures
        first.file_name() == second.file_name(),
        sha256(first_content) == sha256(second_content),
{
    lemma_hash_is_plain(sha256(first_content));
    lemma_hash_is_plain(sha256(second_content));
    lemma_hashed_name_injective(
        first.file_name(),
        content_hash_of(first_content),
        second.file_name(),
        content_hash_of(second_content),
    );
    lemma_hex_injective(sha256(first_content), sha256(second_content));
}

/// The regular files are the entries that are regular files: every such
/// entry is among them, and each of them is such an entry.
pub proof fn lemma_regular_files(entries: Seq<EntryView>)
    ensures
        forall|i: int|
            0 <= i < entries.len() && entries[i].is_file ==> regular_files(entries).contains(
                #[trigger] entries[i],
            ),
        forall|j: int|
            0 <= j < regular_files(entries).len() ==> entries.contains(
                #[trigger] regular_files(entries)[j],
            ) && regular_files(entries)[j].is_file,
{
    let is_file = |entry: EntryView| entry.is_file;
    assert forall|i: int| 0 <= i < entries.len() && entries[i].is_file implies regular_files(
        entries,
    ).contains(#[trigger] entries[i]) by {
        entries.lemma_filter_contains(is_file, i);
    }
    assert forall|j: int| 0 <= j < regular_files(entries).len() implies entries.contains(
        #[trigger] regular_files(entries)[j],
    ) && regular_files(entries)[j].is_file by {
        let file = regular_files(entries)[j];
        entries.lemma_filter_contains_rev(is_file, file);
    }
}

/// A whole directory gives one action for each regular file among its
/// entries and no other: the actions are those of the regular files, in
/// their order.
pub proof fn lemma_actions_match_files(config: ConfigView, entries: Seq<EntryView>)
    ensures
        config.dir_actions(entries).len() == regular_files(entries).len(),
        forall|j: int|
            0 <= j < regular_files(entries).len() ==> #[trigger] config.dir_actions(entries)[j]
                == config.hashed_entry_action(regular_files(entries)[j]),
{
}

/// Copying keeps a file in its directory: the file `name` in the
/// directories `subdir` below the source directory goes to the same
/// directories below the output directory, which are made for it, and
/// gets the name `hashed` there. The file itself stays where it is.
pub proof fn lemma_copy_mirrors(
    config: ConfigView,
    subdir: Seq<Seq<char>>,
    name: Seq<char>,
    hashed: Seq<char>,
)
    requires
        config.out_dir is Some,
    ensures
        ({
            let entry = PathView {
                absolute: config.in_dir.absolute,
                parts: (config.in_dir.parts + subdir).push(name),
            };
            let out_dir = config.out_dir->0;
            let dir = PathView { absolute: out_dir.absolute, parts: out_dir.parts + subdir };
            config.entry_action(entry, hashed) == (FileActionView::Copy {
                dir,
                from: entry,
                to: dir.child(hashed),
            })
        }),
{
    let entry = PathView {
        absolute: config.in_dir.absolute,
        parts: (config.in_dir.parts + subdir).push(name),
    };
    let rest = entry.strip(config.in_dir.parts.len() as int);
    assert(rest.parent().parts =~= subdir);
}

/// Renaming keeps a file in its directory: the file `name` in `dir` is
/// renamed to `hashed` in `dir`.
pub proof fn lemma_rename_stays(config: ConfigView, dir: PathView, name: Seq<char>, hashed: Seq<char>)
    requires
        config.out_dir is None,
        dir.child(name).has_file_name(),
    ensures
        config.entry_action(dir.child(name), hashed) == (FileActionView::Rename {
            from: dir.child(name),
            to: dir.child(hashed),
        }),
{
    assert(dir.child(name).parent().parts =~= dir.parts);
}

/// The new place of a file ends in the new name.
pub proof fn lemma_target_name(config: ConfigView, entry: PathView, hashed: Seq<char>)
    ensures
        config.entry_action(entry, hashed).target().parts.len() > 0,
        config.entry_action(entry, hashed).target().parts.last() == hashed,
        config.file_action(entry, hashed).target().parts.len() > 0,
        config.file_action(entry, hashed).target().parts.last() == hashed,
{
}

/// Two files below the source directory never go to the same place: the
/// new place of a file tells which file it was.
pub proof fn lemma_distinct_files_distinct_targets(
    config: ConfigView,
    first: EntryView,
    second: EntryView,
)
    requires
        is_file_below(first.path, config.in_dir),
        is_file_below(second.path, config.in_dir),
        first.path != second.path,
    ensures
        config.hashed_entry_action(first).target() != config.hashed_entry_action(second).target(),
{
    let first_target = config.hashed_entry_action(first).target();
    let second_target = config.hashed_entry_action(second).target();
    if first_target == second_target {
        lemma_target_name(config, first.path, hashed_file_name_of(first.path, first.content));
        lemma_target_name(config, second.path, hashed_file_name_of(second.path, second.content));
        lemma_hash_is_plain(sha256(first.content));
        lemma_hash_is_plain(sha256(second.content));
        lemma_hashed_name_injective(
            first.path.file_name(),
            content_hash_of(first.content),
            second.path.file_name(),
            content_hash_of(second.content),
        );
        let skipped = config.in_dir.parts.len() as int;
        let first_dirs = first.path.parts.drop_last();
        let second_dirs = second.path.parts.drop_last();
        match config.out_dir {
            Some(out_dir) => {
                let first_sub = first.path.strip(skipped).parent().parts;
                let second_sub = second.path.strip(skipped).parent().parts;
                assert(first_target.parts.drop_last() =~= out_dir.parts + first_sub);
                assert(second_target.parts.drop_last() =~= out_dir.parts + second_sub);
                assert(first_sub =~= (out_dir.parts + first_sub).skip(out_dir.parts.len() as int));
                assert(second_sub =~= (out_dir.parts + second_sub).skip(out_dir.parts.len() as int));
                assert(first_dirs =~= config.in_dir.parts + first_sub);
                assert(second_dirs =~= config.in_dir.parts + second_sub);
            },
            None => {
                assert(first_target.parts.drop_last() =~= first_dirs);
                assert(second_target.parts.drop_last() =~= second_dirs);
            },
        }
        assert(first.path.parts =~= first_dirs.push(first.path.file_name()));
        assert(second.path.parts =~= second_dirs.push(second.path.file_name()));
        assert(false);
    }
}

/// A copying run mirrors the source directory. An output directory that
/// is there is removed first, and one that is not there is not. Where the
/// regular files among the entries lie below the source directory, each at
/// a place of its own, there is then one action for each of them and no
/// other; the action copies the file into the directory below the output
/// directory that corresponds to its own, under its hashed name; and no
/// two files are copied to the same place.
pub proof fn lemma_copy_run_mirrors_tree(
    config: ConfigView,
    out_dir_is_dir: bool,
    entries: Seq<EntryView>,
)
    requires
        config.out_dir is Some,
        forall|i: int|
            0 <= i < entries.len() && (#[trigger] entries[i]).is_file ==> is_file_below(
                entries[i].path,
                config.in_dir,
            ),
        forall|i: int, j: int|
            0 <= i < j < entries.len() && (#[trigger] entries[i]).is_file && (
            #[trigger] entries[j]).is_file ==> entries[i].path != entries[j].path,
    ensures
        out_dir_is_dir ==> config.dir_plan(out_dir_is_dir, entries).remove == config.out_dir,
        !out_dir_is_dir ==> config.dir_plan(out_dir_is_dir, entries).remove is None,
        config.dir_plan(out_dir_is_dir, entries).actions == config.dir_actions(entries),
        config.dir_actions(entries).len() == regular_files(entries).len(),
        forall|j: int|
            0 <= j < regular_files(entries).len() ==> ({
                let file = regular_files(entries)[j];
                let depth = config.in_dir.parts.len() as int;
                let subdir = file.path.parts.subrange(depth, file.path.parts.len() - 1);
                let out_dir = config.out_dir->0;
                let dir = PathView { absolute: out_dir.absolute, parts: out_dir.parts + subdir };
                &&& entries.contains(file)
                &&& file.path.parts == (config.in_dir.parts + subdir).push(file.path.file_name())
                &&& #[trigger] config.dir_actions(entries)[j] == (FileActionView::Copy {
                    dir,
                    from: file.path,
                    to: dir.child(hashed_file_name_of(file.path, file.content)),
                })
            }),
        forall|j: int, k: int|
            0 <= j < k < config.dir_actions(entries).len() ==> (#[trigger] config.dir_actions(
                entries,
            )[j]).target() != (#[trigger] config.dir_actions(entries)[k]).target(),
{
    let files = regular_files(entries);
    let actions = config.dir_actions(entries);
    let depth = config.in_dir.parts.len() as int;
    lemma_actions_match_files(config, entries);
    lemma_regular_files(entries);
    lemma_files_distinct(entries);
    assert forall|j: int| 0 <= j < files.len() implies {
        let file = files[j];
        let subdir = file.path.parts.subrange(depth, file.path.parts.len() - 1);
        let out_dir = config.out_dir->0;
        let dir = PathView { absolute: out_dir.absolute, parts: out_dir.parts + subdir };
        &&& entries.contains(file)
        &&& file.path.parts == (config.in_dir.parts + subdir).push(file.path.file_name())
        &&& #[trigger] actions[j] == (FileActionView::Copy {
            dir,
            from: file.path,
            to: dir.child(hashed_file_name_of(file.path, file.content)),
        })
    } by {
        let file = files[j];
        let subdir = file.path.parts.subrange(depth, file.path.parts.len() - 1);
        assert(file.path.parts =~= (config.in_dir.parts + subdir).push(file.path.file_name()));
        lemma_copy_mirrors(
            config,
            subdir,
            file.path.file_name(),
            hashed_file_name_of(file.path, file.content),
        );
    }
    assert forall|j: int, k: int| 0 <= j < k < actions.len() implies (#[trigger] actions[j]).target()
        != (#[trigger] actions[k]).target() by {
        lemma_distinct_files_distinct_targets(config, files[j], files[k]);
    }
}

/// Where no two regular entries have the same path, no two of the regular
/// files have.
proof fn lemma_files_distinct(entries: Seq<EntryView>)
    requires
        forall|i: int, j: int|
            0 <= i < j < entries.len() && (#[trigger] entries[i]).is_file && (
            #[trigger] entries[j]).is_file ==> entries[i].path != entries[j].path,
    ensures
        forall|j: int, k: int|
            0 <= j < k < regular_files(entries).len() ==> (#[trigger] regular_files(
                entries,
            )[j]).path != (#[trigger] regular_files(entries)[k]).path,
    decreases entries.len(),
{
    reveal(Seq::filter);
    let files = regular_files(entries);
    if entries.len() > 0 {
        let init = entries.drop_last();
        assert forall|i: int, j: int|
            0 <= i < j < init.len() && (#[trigger] init[i]).is_file && (
            #[trigger] init[j]).is_file implies init[i].path != init[j].path by {
            assert(init[i] == entries[i] && init[j] == entries[j]);
        }
        lemma_files_distinct(init);
        lemma_regular_files(init);
        assert forall|j: int, k: int| 0 <= j < k < files.len() implies (#[trigger] files[j]).path != (
        #[trigger] files[k]).path by {
            if k == regular_files(init).len() {
                let earlier = regular_files(init)[j];
                let a = choose|a: int| 0 <= a < init.len() && init[a] == earlier;
                assert(entries[a] == files[j] && entries.last() == files[k]);
            }
        }
    }
}

/// A file that is gone leaves nothing behind: the next run removes the
/// output directory that the run before left, and no action for the
/// entries that are still there puts a file where the file that is gone
/// would have been put.
pub proof fn lemma_gone_file_has_no_target(
    config: ConfigView,
    entries: Seq<EntryView>,
    gone: EntryView,
)
    requires
        is_file_below(gone.path, config.in_dir),
        forall|i: int|
            0 <= i < entries.len() && (#[trigger] entries[i]).is_file ==> is_file_below(
                entries[i].path,
                config.in_dir,
            ) && entries[i].path != gone.path,
    ensures
        config.dir_plan(true, entries).remove == config.out_dir,
        config.dir_plan(true, entries).actions == config.dir_actions(entries),
        forall|j: int|
            0 <= j < config.dir_actions(entries).len() ==> (#[trigger] config.dir_actions(
                entries,
            )[j]).target() != config.hashed_entry_action(gone).target(),
{
    lemma_actions_match_files(config, entries);
    lemma_regular_files(entries);
    assert forall|j: int| 0 <= j < config.dir_actions(entries).len() implies (
    #[trigger] config.dir_actions(entries)[j]).target() != config.hashed_entry_action(
        gone,
    ).target() by {
        lemma_distinct_files_distinct_targets(config, regular_files(entries)[j], gone);
    }
}

/// Renaming in place and copying give a file the same name: for one file
/// with one content, the new place ends in the same hashed name either way,
/// for a single file and for a file of a whole directory.
pub proof fn lemma_in_place_and_copy_agree(
    renaming: ConfigView,
    copying: ConfigView,
    file: PathView,
    content: Seq<u8>,
)
    requires
        renaming.out_dir is None,
        copying.out_dir is Some,
        renaming.in_dir == copying.in_dir,
    ensures
        renaming.hashed_file_action(file, content).target().parts.last()
            == copying.hashed_file_action(file, content).target().parts.last(),
        renaming.hashed_file_action(file, content).source() == copying.hashed_file_action(
            file,
            content,
        ).source(),
        ({
            let entry = EntryView { path: file, is_file: true, content };
            &&& renaming.hashed_entry_action(entry).target().parts.last()
                == copying.hashed_entry_action(entry).target().parts.last()
            &&& renaming.hashed_entry_action(entry).target().parts.last() == hashed_file_name_of(
                file,
                content,
            )
            &&& renaming.hashed_entry_action(entry).source() == copying.hashed_entry_action(
                entry,
            ).source()
        }),
{
}

/// A rewritten asset path reads back as the path it was made from, with
/// the hashed name in place of the file's name: the directories stay, the
/// leading `/` stays, and nothing else is added.
pub proof fn lemma_rewritten_path_reads_back(literal: Seq<char>, content: Seq<u8>)
    requires
        local_path(literal).has_file_name(),
    ensures
        asset_of(literal, content, false) is Ok,
        is_rooted(asset_of(literal, content, false)->Ok_0) == is_rooted(literal),
        local_path(asset_of(literal, content, false)->Ok_0) == local_path(literal).with_file_name(
            hashed_file_name_of(local_path(literal), content),
        ),
{
    let local = local_path(literal);
    let hash = content_hash_of(content);
    let name = hashed_file_name_of(local, content);
    let renamed = local.with_file_name(name);
    let rewritten = asset_of(literal, content, false)->Ok_0;
    lemma_parse_is_normal(local_text(literal));
    lemma_hash_is_plain(sha256(content));
    lemma_hashed_name_has_no_slash(local.file_name(), hash);
    assert(renamed.is_normal());
    lemma_parse_text(renamed);
    lemma_joined_starts(renamed.parts);
    if is_rooted(literal) {
        assert(rewritten.skip(1) =~= renamed.text());
    }
}

/// Source text and disk agree on the name of an asset: the path that
/// source text gets for an asset names the file by the very name that the
/// asset is given when it is hashed, as a single file at that place under
/// the source directory or as one of the files of the source directory.
pub proof fn lemma_source_text_and_run_agree(
    config: ConfigView,
    literal: Seq<char>,
    entry: EntryView,
)
    requires
        local_path(literal).has_file_name(),
        entry.path.file_name() == local_path(literal).file_name(),
    ensures
        asset_of(literal, entry.content, false) is Ok,
        local_path(asset_of(literal, entry.content, false)->Ok_0).parts.last()
            == config.hashed_entry_action(entry).target().parts.last(),
        local_path(asset_of(literal, entry.content, false)->Ok_0).parts.last()
            == config.hashed_file_action(local_path(literal), entry.content).target().parts.last(),
{
    let local = local_path(literal);
    lemma_rewritten_path_reads_back(literal, entry.content);
    assert(config.source_path(local).file_name() == local.file_name());
}

/// Where hashing is skipped, source text keeps the path it has: a path
/// that names a file and is written as paths are written here comes back
/// unchanged, whatever the file holds.
pub proof fn lemma_skipped_hashing_keeps_path(literal: Seq<char>, content: Seq<u8>)
    requires
        local_path(literal).has_file_name(),
        local_path(literal).text() == local_text(literal),
    ensures
        asset_of(literal, content, true) == Ok::<Seq<char>, AssetError>(literal),
{
    let local = local_path(literal);
    assert(local.with_file_name(local.file_name()).parts =~= local.parts);
    if literal.len() > 0 && literal[0] == '/' {
        assert(seq!['/'] + literal.skip(1) =~= literal);
    }
}

} // verus!
