//! Asset paths in source text.
//!
//! Source text names an asset by its place under the assets directory, as
//! `images/logo.png` or `/images/logo.png`. Here such a path is rewritten to
//! the name that the asset has once it is hashed, `images/logo-<hash>.png`,
//! without touching any file: the caller reads the asset and hands in what
//! it holds.

use crate::name::{hashed_file_name, hashed_file_name_of};
use crate::path::{path_option_view, AssetPath, PathView};
use vstd::prelude::*;

verus! {

/// Why an asset path cannot be rewritten.
#[derive(Clone, Copy, Debug, PartialEq, Eq)]
pub enum AssetError {
    /// The path does not end in the name of a file.
    NoFileName,
}

/// Whether an asset path is written with a leading `/`.
pub open spec fn is_rooted(literal: Seq<char>) -> bool {
    literal.len() > 0 && literal[0] == '/'
}

/// The asset path without its leading `/`, if it has one.
pub open spec fn local_text(literal: Seq<char>) -> Seq<char> {
    if is_rooted(literal) {
        literal.skip(1)
    } else {
        literal
    }
}

/// The place of the asset under the assets directory.
pub open spec fn local_path(literal: Seq<char>) -> PathView {
    PathView::parse(local_text(literal))
}

/// The assets directory of the crate at `manifest_dir`: the directory
/// `chosen`, seen from the crate's directory, or `assets` in the crate's
/// directory where none was chosen.
pub open spec fn assets_dir_of(manifest_dir: PathView, chosen: Option<PathView>) -> PathView {
    match chosen {
        Some(dir) => manifest_dir.join(dir),
        None => manifest_dir.child("assets"@),
    }
}

/// The asset path with the file's name replaced by `name`; the leading `/`
/// stays where there is one.
pub open spec fn renamed_asset(literal: Seq<char>, name: Seq<char>) -> Result<
    Seq<char>,
    AssetError,
> {
    let local = local_path(literal);
    if !local.has_file_name() {
        Err(AssetError::NoFileName)
    } else {
        let text = local.with_file_name(name).text();
        Ok(
            if is_rooted(literal) {
                seq!['/'] + text
            } else {
                text
            },
        )
    }
}

/// The asset path as source text sees it, for an asset that holds
/// `content`: with the hashed name in place of the file's name, or, where
/// hashing is skipped, with the file's own name.
pub open spec fn asset_of(literal: Seq<char>, content: Seq<u8>, skip_hashing: bool) -> Result<
    Seq<char>,
    AssetError,
> {
    let local = local_path(literal);
    if skip_hashing {
        renamed_asset(literal, local.file_name())
    } else {
        renamed_asset(literal, hashed_file_name_of(local, content))
    }
}

/// The value of a rewritten path or of the reason why there is none.
pub open spec fn rewritten_view(rewritten: Result<String, AssetError>) -> Result<
    Seq<char>,
    AssetError,
> {
    match rewritten {
        Ok(text) => Ok(text@),
        Err(error) => Err(error),
    }
}

/// Whether hashing is skipped: the switch is on exactly where its value is
/// `1`.
pub fn skips_hashing(switch: Option<&str>) -> (skip: bool)
    ensures
        skip <==> switch is Some && switch->0@ == "1"@,
{
    proof {
        reveal_strlit("1");
    }
    match switch {
        Some(value) => {
            let skip = value.unicode_len() == 1 && value.get_char(0) == '1';
            proof {
                if skip {
                    assert(value@ =~= "1"@);
                }
            }
            skip
        },
        None => false,
    }
}

/// The place of the asset `literal` under the assets directory.
pub fn asset_path(literal: &str) -> (local: AssetPath)
    ensures
        local@ == local_path(literal@),
{
    let len = literal.unicode_len();
    if len > 0 && literal.get_char(0) == '/' {
        AssetPath::parse(literal.substring_char(1, len))
    } else {
        AssetPath::parse(literal)
    }
}

/// The assets directory of the crate at `manifest_dir`.
pub fn assets_dir(manifest_dir: &AssetPath, chosen: Option<AssetPath>) -> (dir: AssetPath)
    ensures
        dir@ == assets_dir_of(manifest_dir@, path_option_view(chosen)),
{
    match chosen {
        Some(dir) => manifest_dir.join(&dir),
        None => manifest_dir.child("assets"),
    }
}

/// The file to read for the asset `literal`, with the assets directory at
/// `assets_dir`.
pub fn asset_file(assets_dir: &AssetPath, literal: &str) -> (file: AssetPath)
    ensures
        file@ == assets_dir@.join(local_path(literal@)),
{
    assets_dir.join(&asset_path(literal))
}

/// The asset path `literal` with the file's name replaced by `name`.
pub fn rename_asset(literal: &str, name: &str) -> (rewritten: Result<String, AssetError>)
    ensures
        rewritten is Ok <==> local_path(literal@).has_file_name(),
        rewritten_view(rewritten) == renamed_asset(literal@, name@),
{
    let local = asset_path(literal);
    if local.file_name().is_none() {
        return Err(AssetError::NoFileName);
    }
    let renamed = local.with_file_name(name);
    let len = literal.unicode_len();
    let mut text = String::new();
    if len > 0 && literal.get_char(0) == '/' {
        text.append("/");
    }
    text.append(renamed.render().as_str());
    proof {
        reveal_strlit("/");
        assert(text@ =~= if is_rooted(literal@) {
            seq!['/'] + renamed@.text()
        } else {
            renamed@.text()
        });
    }
    Ok(text)
}

/// Rewrites the asset path `literal` for an asset that holds `content`:
/// the file's name gives way to its hashed name, and the rest of the path
/// stays. Where `skip_hashing` is set the file keeps its name. A path that
/// names no file is refused either way.
pub fn asset(literal: &str, content: &[u8], skip_hashing: bool) -> (rewritten: Result<
    String,
    AssetError,
>)
    ensures
        rewritten is Ok <==> local_path(literal@).has_file_name(),
        rewritten_view(rewritten) == asset_of(literal@, content@, skip_hashing),
{
    let local = asset_path(literal);
    if skip_hashing {
        match local.file_name() {
            Some(name) => rename_asset(literal, name),
            None => Err(AssetError::NoFileName),
        }
    } else {
        let hashed = hashed_file_name(&local, content);
        rename_asset(literal, hashed.as_str())
    }
}

} // verus!
