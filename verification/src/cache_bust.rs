//! A run's settings, and what a run does to each file.
//!
//! A [`CacheBustBuilder`] collects settings and checks them. The
//! [`CacheBust`] it builds decides, for a single file or for the entries of a
//! source directory, which file is copied or renamed to which place. The
//! caller looks at the file system, hands in what it found, and carries the
//! decisions out.

use crate::name::{hashed_file_name, hashed_file_name_of};
use crate::path::{path_option_view, AssetPath, PathView};
use vstd::prelude::*;

verus! {

/// How a warning line starts: as an instruction to cargo inside a build
/// script, as a tagged line elsewhere.
pub open spec fn warn_prefix_of(is_build_script: bool) -> Seq<char> {
    if is_build_script {
        "cargo::warn="@
    } else {
        "[cache_bust/warning] "@
    }
}

/// The start of a warning line.
pub fn warn_prefix(is_build_script: bool) -> (prefix: &'static str)
    ensures
        prefix@ == warn_prefix_of(is_build_script),
{
    if is_build_script {
        "cargo::warn="
    } else {
        "[cache_bust/warning] "
    }
}

/// `text` between double quotes, written as it is: nothing in it is
/// escaped.
pub open spec fn quoted(text: Seq<char>) -> Seq<char> {
    seq!['"'] + text + seq!['"']
}

/// Why settings were refused.
#[derive(Debug, PartialEq, Eq)]
pub enum CacheBustBuilderError {
    /// No source directory was given, and there was no crate directory to
    /// take `assets` from.
    InDirNotSet,
    /// The source directory is not a directory.
    InDirNotADirectory(AssetPath),
    /// Neither an output directory nor renaming in place was asked for.
    OutDirNotSet,
    /// The output directory is a file.
    OutDirIsAFile(AssetPath),
}

/// The mathematical value of a [`CacheBustBuilderError`].
pub enum BuilderErrorView {
    InDirNotSet,
    InDirNotADirectory(PathView),
    OutDirNotSet,
    OutDirIsAFile(PathView),
}

impl BuilderErrorView {
    /// The error in words. A path is written between double quotes as
    /// [`PathView::text`] gives it; quotes and backslashes in its names are
    /// not escaped.
    pub open spec fn message(self) -> Seq<char> {
        match self {
            BuilderErrorView::InDirNotSet => "in_dir must be set"@,
            BuilderErrorView::InDirNotADirectory(in_dir) => quoted(in_dir.text())
                + " is not a directory"@,
            BuilderErrorView::OutDirNotSet => "out_dir must be specified or in_place set to true"@,
            BuilderErrorView::OutDirIsAFile(out_dir) => quoted(out_dir.text())
                + " is already a file"@,
        }
    }
}

impl View for CacheBustBuilderError {
    type V = BuilderErrorView;

    open spec fn view(&self) -> BuilderErrorView {
        match self {
            CacheBustBuilderError::InDirNotSet => BuilderErrorView::InDirNotSet,
            CacheBustBuilderError::InDirNotADirectory(in_dir) => {
                BuilderErrorView::InDirNotADirectory(in_dir@)
            },
            CacheBustBuilderError::OutDirNotSet => BuilderErrorView::OutDirNotSet,
            CacheBustBuilderError::OutDirIsAFile(out_dir) => BuilderErrorView::OutDirIsAFile(
                out_dir@,
            ),
        }
    }
}

/// `path` between double quotes, followed by `rest`.
fn quoted_path_and(path: &AssetPath, rest: &str) -> (text: String)
    ensures
        text@ == quoted(path@.text()) + rest@,
{
    let mut text = String::new();
    text.append("\"");
    text.append(path.render().as_str());
    text.append("\"");
    text.append(rest);
    proof {
        reveal_strlit("\"");
    }
    text
}

impl CacheBustBuilderError {
    /// The error in words. A path is written between double quotes, with
    /// `/` between its components and its names as they are: quotes and
    /// backslashes in a name are not escaped.
    pub fn message(&self) -> (text: String)
        ensures
            text@ == self@.message(),
    {
        match self {
            CacheBustBuilderError::InDirNotSet => "in_dir must be set".to_owned(),
            CacheBustBuilderError::InDirNotADirectory(in_dir) => quoted_path_and(
                in_dir,
                " is not a directory",
            ),
            CacheBustBuilderError::OutDirNotSet => {
                "out_dir must be specified or in_place set to true".to_owned()
            },
            CacheBustBuilderError::OutDirIsAFile(out_dir) => quoted_path_and(
                out_dir,
                " is already a file",
            ),
        }
    }
}

/// Settings for a [`CacheBust`], set one by one.
#[derive(Debug)]
pub struct CacheBustBuilder {
    in_dir: Option<AssetPath>,
    out_dir: Option<AssetPath>,
    in_place: bool,
    is_build_script: bool,
    enable_logging: bool,
}

/// The mathematical value of a [`CacheBustBuilder`].
pub struct BuilderView {
    pub in_dir: Option<PathView>,
    pub out_dir: Option<PathView>,
    pub in_place: bool,
    pub is_build_script: bool,
    pub enable_logging: bool,
}

/// The mathematical value of a [`CacheBust`]. Without an output directory
/// files are renamed where they are.
pub struct ConfigView {
    pub in_dir: PathView,
    pub out_dir: Option<PathView>,
    pub is_build_script: bool,
    pub enable_logging: bool,
}

impl BuilderView {
    /// The settings before any was set, in a crate at `manifest_dir` or
    /// outside any crate: the source directory is the crate's `assets`,
    /// the run counts as a build script where there is a crate, files are
    /// not renamed in place, and logging is on.
    pub open spec fn initial(manifest_dir: Option<PathView>) -> BuilderView {
        BuilderView {
            in_dir: match manifest_dir {
                Some(dir) => Some(dir.child("assets"@)),
                None => None,
            },
            out_dir: None,
            in_place: false,
            is_build_script: manifest_dir is Some,
            enable_logging: true,
        }
    }

    /// Whether an output directory was given in vain: files are renamed in
    /// place.
    pub open spec fn ignores_out_dir(self) -> bool {
        self.in_place && self.out_dir is Some
    }

    /// Whether the settings are in order: there is a source directory and
    /// it is a directory, and files are renamed in place or go to an output
    /// directory that is not a file.
    pub open spec fn is_valid(self, in_dir_is_dir: bool, out_dir_is_file: bool) -> bool {
        &&& self.in_dir is Some
        &&& in_dir_is_dir
        &&& self.in_place || (self.out_dir is Some && !out_dir_is_file)
    }

    /// What building gives, where `in_dir_is_dir` tells whether the source
    /// directory is a directory and `out_dir_is_file` whether the output
    /// directory is a file. The first fault found is reported: a missing
    /// source directory, one that is no directory, a missing output
    /// directory where files are not renamed in place, an output directory
    /// that is a file.
    pub open spec fn outcome(self, in_dir_is_dir: bool, out_dir_is_file: bool) -> Result<
        ConfigView,
        BuilderErrorView,
    > {
        match self.in_dir {
            None => Err(BuilderErrorView::InDirNotSet),
            Some(in_dir) => {
                if !in_dir_is_dir {
                    Err(BuilderErrorView::InDirNotADirectory(in_dir))
                } else if self.in_place {
                    Ok(
                        ConfigView {
                            in_dir,
                            out_dir: None,
                            is_build_script: self.is_build_script,
                            enable_logging: self.enable_logging,
                        },
                    )
                } else {
                    match self.out_dir {
                        None => Err(BuilderErrorView::OutDirNotSet),
                        Some(out_dir) => {
                            if out_dir_is_file {
                                Err(BuilderErrorView::OutDirIsAFile(out_dir))
                            } else {
                                Ok(
                                    ConfigView {
                                        in_dir,
                                        out_dir: Some(out_dir),
                                        is_build_script: self.is_build_script,
                                        enable_logging: self.enable_logging,
                                    },
                                )
                            }
                        },
                    }
                }
            },
        }
    }
}

impl View for CacheBustBuilder {
    type V = BuilderView;

    closed spec fn view(&self) -> BuilderView {
        BuilderView {
            in_dir: path_option_view(self.in_dir),
            out_dir: path_option_view(self.out_dir),
            in_place: self.in_place,
            is_build_script: self.is_build_script,
            enable_logging: self.enable_logging,
        }
    }
}

/// A copy of a path that may be missing.
fn clone_path_option(path: &Option<AssetPath>) -> (copy: Option<AssetPath>)
    ensures
        path_option_view(copy) == path_option_view(*path),
{
    match path {
        Some(path) => Some(path.clone()),
        None => None,
    }
}

impl Clone for CacheBustBuilder {
    fn clone(&self) -> (copy: CacheBustBuilder)
        ensures
            copy@ == self@,
    {
        CacheBustBuilder {
            in_dir: clone_path_option(&self.in_dir),
            out_dir: clone_path_option(&self.out_dir),
            in_place: self.in_place,
            is_build_script: self.is_build_script,
            enable_logging: self.enable_logging,
        }
    }
}

/// The value of what building gave.
pub open spec fn built_view(built: Result<CacheBust, CacheBustBuilderError>) -> Result<
    ConfigView,
    BuilderErrorView,
> {
    match built {
        Ok(cache_bust) => Ok(cache_bust@),
        Err(error) => Err(error@),
    }
}

impl CacheBustBuilder {
    /// Settings as they are before any is set. `manifest_dir` is the
    /// directory of the crate that is being built, if there is one.
    pub fn new(manifest_dir: Option<AssetPath>) -> (builder: CacheBustBuilder)
        ensures
            builder@ == BuilderView::initial(path_option_view(manifest_dir)),
    {
        let is_build_script = manifest_dir.is_some();
        let in_dir = match manifest_dir {
            Some(dir) => Some(dir.child("assets")),
            None => None,
        };
        CacheBustBuilder {
            in_dir,
            out_dir: None,
            in_place: false,
            is_build_script,
            enable_logging: true,
        }
    }

    /// Sets the directory whose files are hashed. Needed, unless it is
    /// the `assets` directory of a crate being built.
    pub fn in_dir(self, path: AssetPath) -> (builder: CacheBustBuilder)
        ensures
            builder@ == (BuilderView { in_dir: Some(path@), ..self@ }),
    {
        let mut builder = self;
        builder.in_dir = Some(path);
        builder
    }

    /// Sets the directory that the hashed files are copied to. Without
    /// effect where files are renamed in place; one of the two is needed.
    pub fn out_dir(self, path: AssetPath) -> (builder: CacheBustBuilder)
        ensures
            builder@ == (BuilderView { out_dir: Some(path@), ..self@ }),
    {
        let mut builder = self;
        builder.out_dir = Some(path);
        builder
    }

    /// Sets whether files are renamed where they are, not copied.
    pub fn in_place(self, in_place: bool) -> (builder: CacheBustBuilder)
        ensures
            builder@ == (BuilderView { in_place, ..self@ }),
    {
        let mut builder = self;
        builder.in_place = in_place;
        builder
    }

    /// Sets whether the run is part of a build script, which is told of
    /// every path that the result depends on.
    pub fn is_build_script(self, is_build_script: bool) -> (builder: CacheBustBuilder)
        ensures
            builder@ == (BuilderView { is_build_script, ..self@ }),
    {
        let mut builder = self;
        builder.is_build_script = is_build_script;
        builder
    }

    /// Sets whether each copied or renamed file is reported.
    pub fn enable_logging(self, enable_logging: bool) -> (builder: CacheBustBuilder)
        ensures
            builder@ == (BuilderView { enable_logging, ..self@ }),
    {
        let mut builder = self;
        builder.enable_logging = enable_logging;
        builder
    }

    /// The source directory as set so far; the caller finds out whether it
    /// is a directory.
    pub fn source_dir(&self) -> (dir: Option<&AssetPath>)
        ensures
            dir is Some <==> self@.in_dir is Some,
            dir is Some ==> Some(dir->0@) == self@.in_dir,
    {
        match &self.in_dir {
            Some(dir) => Some(dir),
            None => None,
        }
    }

    /// The output directory as set so far; the caller finds out whether it
    /// is a file.
    pub fn output_dir(&self) -> (dir: Option<&AssetPath>)
        ensures
            dir is Some <==> self@.out_dir is Some,
            dir is Some ==> Some(dir->0@) == self@.out_dir,
    {
        match &self.out_dir {
            Some(dir) => Some(dir),
            None => None,
        }
    }

    /// The warning that belongs to these settings: one line where an
    /// output directory was given although files are renamed in place,
    /// and the source directory is in order.
    pub fn warning(&self, in_dir_is_dir: bool) -> (line: Option<String>)
        ensures
            line is Some <==> self@.in_dir is Some && in_dir_is_dir && self@.ignores_out_dir(),
            line is Some ==> line->0@ == warn_prefix_of(self@.is_build_script)
                + "in_place is set to true, ignoring out_dir"@,
    {
        if self.in_dir.is_some() && in_dir_is_dir && self.in_place && self.out_dir.is_some() {
            let mut line = warn_prefix(self.is_build_script).to_owned();
            line.append("in_place is set to true, ignoring out_dir");
            Some(line)
        } else {
            None
        }
    }

    /// Checks the settings and builds a [`CacheBust`] from them.
    /// `in_dir_is_dir` tells whether the source directory is a directory
    /// (`false` where none is set), `out_dir_is_file` whether the output
    /// directory is a file (`false` where none is set).
    pub fn try_build(self, in_dir_is_dir: bool, out_dir_is_file: bool) -> (built: Result<
        CacheBust,
        CacheBustBuilderError,
    >)
        ensures
            built is Ok <==> self@.is_valid(in_dir_is_dir, out_dir_is_file),
            built_view(built) == self@.outcome(in_dir_is_dir, out_dir_is_file),
    {
        let in_dir = match self.in_dir {
            Some(in_dir) => in_dir,
            None => {
                return Err(CacheBustBuilderError::InDirNotSet);
            },
        };
        if !in_dir_is_dir {
            return Err(CacheBustBuilderError::InDirNotADirectory(in_dir));
        }
        let out_dir = if self.in_place {
            None
        } else {
            match self.out_dir {
                Some(out_dir) => {
                    if out_dir_is_file {
                        return Err(CacheBustBuilderError::OutDirIsAFile(out_dir));
                    }
                    Some(out_dir)
                },
                None => {
                    return Err(CacheBustBuilderError::OutDirNotSet);
                },
            }
        };
        Ok(
            CacheBust {
                in_dir,
                out_dir,
                is_build_script: self.is_build_script,
                enable_logging: self.enable_logging,
            },
        )
    }

    /// Builds a [`CacheBust`] from settings that are in order.
    pub fn build(self, in_dir_is_dir: bool, out_dir_is_file: bool) -> (cache_bust: CacheBust)
        requires
            self@.is_valid(in_dir_is_dir, out_dir_is_file),
        ensures
            Ok::<ConfigView, BuilderErrorView>(cache_bust@) == self@.outcome(
                in_dir_is_dir,
                out_dir_is_file,
            ),
    {
        match self.try_build(in_dir_is_dir, out_dir_is_file) {
            Ok(cache_bust) => cache_bust,
            Err(_) => {
                proof {
                    assert(false);
                }
                unreached()
            },
        }
    }
}

/// What is done to one file.
#[derive(Debug, PartialEq, Eq)]
pub enum FileAction {
    /// Directory `dir` is made, with every directory above it that is
    /// missing, and the file `from` is copied to `to`, which lies in `dir`.
    Copy { dir: AssetPath, from: AssetPath, to: AssetPath },
    /// The file `from` is renamed to `to`, in the directory it is in.
    Rename { from: AssetPath, to: AssetPath },
}

/// The mathematical value of a [`FileAction`].
pub enum FileActionView {
    Copy { dir: PathView, from: PathView, to: PathView },
    Rename { from: PathView, to: PathView },
}

impl FileActionView {
    /// The file as it was.
    pub open spec fn source(self) -> PathView {
        match self {
            FileActionView::Copy { from, .. } => from,
            FileActionView::Rename { from, .. } => from,
        }
    }

    /// The file under its new name.
    pub open spec fn target(self) -> PathView {
        match self {
            FileActionView::Copy { to, .. } => to,
            FileActionView::Rename { to, .. } => to,
        }
    }
}

impl View for FileAction {
    type V = FileActionView;

    open spec fn view(&self) -> FileActionView {
        match self {
            FileAction::Copy { dir, from, to } => FileActionView::Copy {
                dir: dir@,
                from: from@,
                to: to@,
            },
            FileAction::Rename { from, to } => FileActionView::Rename { from: from@, to: to@ },
        }
    }
}

impl FileAction {
    /// The file as it was.
    pub fn source(&self) -> (path: &AssetPath)
        ensures
            path@ == self@.source(),
    {
        match self {
            FileAction::Copy { from, .. } => from,
            FileAction::Rename { from, .. } => from,
        }
    }

    /// The file under its new name.
    pub fn target(&self) -> (path: &AssetPath)
        ensures
            path@ == self@.target(),
    {
        match self {
            FileAction::Copy { to, .. } => to,
            FileAction::Rename { to, .. } => to,
        }
    }
}

/// The values of a list of actions.
pub open spec fn action_views(actions: Seq<FileAction>) -> Seq<FileActionView> {
    actions.map_values(|action: FileAction| action@)
}

/// What was found at one place under the source directory.
#[derive(Debug, PartialEq, Eq)]
pub struct TreeEntry {
    /// Where it was found; the path starts with that of the source
    /// directory.
    pub path: AssetPath,
    /// Whether it is a regular file.
    pub is_file: bool,
    /// What the file holds; empty for anything but a regular file.
    pub content: Vec<u8>,
}

/// The mathematical value of a [`TreeEntry`].
pub struct EntryView {
    pub path: PathView,
    pub is_file: bool,
    pub content: Seq<u8>,
}

impl View for TreeEntry {
    type V = EntryView;

    open spec fn view(&self) -> EntryView {
        EntryView { path: self.path@, is_file: self.is_file, content: self.content@ }
    }
}

/// What is done for a whole source directory, in this order.
#[derive(Debug, PartialEq, Eq)]
pub struct DirPlan {
    /// The directory that is removed first, with all that is in it.
    pub remove: Option<AssetPath>,
    /// What is then done to the files, one after the other.
    pub actions: Vec<FileAction>,
}

/// The mathematical value of a [`DirPlan`].
pub struct DirPlanView {
    pub remove: Option<PathView>,
    pub actions: Seq<FileActionView>,
}

impl View for DirPlan {
    type V = DirPlanView;

    open spec fn view(&self) -> DirPlanView {
        DirPlanView { remove: path_option_view(self.remove), actions: action_views(self.actions@) }
    }
}

/// The values of a list of entries.
pub open spec fn entry_views(entries: Seq<TreeEntry>) -> Seq<EntryView> {
    entries.map_values(|entry: TreeEntry| entry@)
}

/// The entries that are regular files, in the order they came in.
pub open spec fn regular_files(entries: Seq<EntryView>) -> Seq<EntryView> {
    entries.filter(|entry: EntryView| entry.is_file)
}

impl ConfigView {
    /// The directory that is removed before a whole source directory is
    /// copied: the output directory, where there is one and it exists.
    pub open spec fn stale_out_dir(self, out_dir_is_dir: bool) -> Option<PathView> {
        if out_dir_is_dir {
            self.out_dir
        } else {
            None
        }
    }

    /// Where a single file is read from: a relative `file` is looked up in
    /// the source directory, an absolute one is taken as it is.
    pub open spec fn source_path(self, file: PathView) -> PathView {
        self.in_dir.join(file)
    }

    /// The directory that a single file is copied into: for a relative
    /// `file` the output directory followed by the directories of `file`,
    /// for an absolute one the output directory itself.
    pub open spec fn file_target_dir(self, out_dir: PathView, file: PathView) -> PathView {
        if file.absolute {
            out_dir
        } else {
            out_dir.join(file).parent()
        }
    }

    /// What is done to a single file that gets the name `hashed`.
    pub open spec fn file_action(self, file: PathView, hashed: Seq<char>) -> FileActionView {
        let from = self.source_path(file);
        match self.out_dir {
            Some(out_dir) => {
                let dir = self.file_target_dir(out_dir, file);
                FileActionView::Copy { dir, from, to: dir.child(hashed) }
            },
            None => FileActionView::Rename { from, to: from.with_file_name(hashed) },
        }
    }

    /// What is done to a single file that holds `content`.
    pub open spec fn hashed_file_action(self, file: PathView, content: Seq<u8>) -> FileActionView {
        self.file_action(file, hashed_file_name_of(self.source_path(file), content))
    }

    /// The directories between the source directory and the file at
    /// `entry`, as a relative path.
    pub open spec fn entry_subdir(self, entry: PathView) -> PathView {
        entry.strip(self.in_dir.parts.len() as int).parent()
    }

    /// What is done to the file found at `entry` under the source
    /// directory, which gets the name `hashed`.
    pub open spec fn entry_action(self, entry: PathView, hashed: Seq<char>) -> FileActionView {
        match self.out_dir {
            Some(out_dir) => {
                let dir = out_dir.join(self.entry_subdir(entry));
                FileActionView::Copy { dir, from: entry, to: dir.child(hashed) }
            },
            None => FileActionView::Rename { from: entry, to: entry.with_file_name(hashed) },
        }
    }

    /// What is done to the regular file at `entry`.
    pub open spec fn hashed_entry_action(self, entry: EntryView) -> FileActionView {
        self.entry_action(entry.path, hashed_file_name_of(entry.path, entry.content))
    }

    /// What is done for a whole source directory with these entries: one
    /// action for each regular file, in the order of the entries, and
    /// nothing for anything else.
    pub open spec fn dir_actions(self, entries: Seq<EntryView>) -> Seq<FileActionView> {
        regular_files(entries).map_values(|entry: EntryView| self.hashed_entry_action(entry))
    }

    /// A whole run over a source directory with these entries: the output
    /// directory is removed where it exists, so that nothing of an earlier
    /// run is left in it, and then each regular file is copied or renamed.
    pub open spec fn dir_plan(self, out_dir_is_dir: bool, entries: Seq<EntryView>) -> DirPlanView {
        DirPlanView {
            remove: self.stale_out_dir(out_dir_is_dir),
            actions: self.dir_actions(entries),
        }
    }
}

/// Puts content hashes into file names, by copying the files to an output
/// directory or by renaming them where they are.
#[derive(Debug)]
pub struct CacheBust {
    in_dir: AssetPath,
    out_dir: Option<AssetPath>,
    is_build_script: bool,
    enable_logging: bool,
}

impl View for CacheBust {
    type V = ConfigView;

    closed spec fn view(&self) -> ConfigView {
        ConfigView {
            in_dir: self.in_dir@,
            out_dir: path_option_view(self.out_dir),
            is_build_script: self.is_build_script,
            enable_logging: self.enable_logging,
        }
    }
}

impl CacheBust {
    /// A builder with nothing set yet; see [`CacheBustBuilder::new`].
    pub fn builder(manifest_dir: Option<AssetPath>) -> (builder: CacheBustBuilder)
        ensures
            builder@ == BuilderView::initial(path_option_view(manifest_dir)),
    {
        CacheBustBuilder::new(manifest_dir)
    }

    /// The directory whose files are hashed.
    pub fn source_dir(&self) -> (dir: &AssetPath)
        ensures
            dir@ == self@.in_dir,
    {
        &self.in_dir
    }

    /// The directory that hashed files are copied to; `None` where files
    /// are renamed in place.
    pub fn output_dir(&self) -> (dir: Option<&AssetPath>)
        ensures
            dir is Some <==> self@.out_dir is Some,
            dir is Some ==> Some(dir->0@) == self@.out_dir,
    {
        match &self.out_dir {
            Some(dir) => Some(dir),
            None => None,
        }
    }

    /// Whether the run is part of a build script.
    pub fn runs_in_build_script(&self) -> (is_build_script: bool)
        ensures
            is_build_script == self@.is_build_script,
    {
        self.is_build_script
    }

    /// Whether each copied or renamed file is reported.
    pub fn logs(&self) -> (enable_logging: bool)
        ensures
            enable_logging == self@.enable_logging,
    {
        self.enable_logging
    }

    /// The directory that a run over the whole source directory removes
    /// first, with all that is in it: the output directory where it
    /// exists. `out_dir_is_dir` tells whether the output directory is
    /// there (`false` without one).
    pub fn stale_out_dir(&self, out_dir_is_dir: bool) -> (dir: Option<&AssetPath>)
        ensures
            dir is Some <==> self@.stale_out_dir(out_dir_is_dir) is Some,
            dir is Some ==> Some(dir->0@) == self@.stale_out_dir(out_dir_is_dir),
    {
        if out_dir_is_dir {
            self.output_dir()
        } else {
            None
        }
    }

    /// Where the single file `file` is read from.
    pub fn source_path(&self, file: &AssetPath) -> (path: AssetPath)
        ensures
            path@ == self@.source_path(file@),
    {
        self.in_dir.join(file)
    }

    /// What is done to the single file `file` that gets the name `hashed`.
    /// Nothing else in the output directory is touched.
    pub fn place_file(&self, file: &AssetPath, hashed: &str) -> (action: FileAction)
        ensures
            action@ == self@.file_action(file@, hashed@),
    {
        let from = self.source_path(file);
        match &self.out_dir {
            Some(out_dir) => {
                let dir = if file.is_absolute() {
                    out_dir.clone()
                } else {
                    out_dir.join(file).parent()
                };
                let to = dir.child(hashed);
                FileAction::Copy { dir, from, to }
            },
            None => {
                let to = from.with_file_name(hashed);
                FileAction::Rename { from, to }
            },
        }
    }

    /// Hashes `content`, which is what the single file `file` holds, and
    /// says what is done to the file: it is renamed where it is, or copied
    /// to the output directory. A relative `file` keeps its directories
    /// there; an absolute one is copied into the output directory itself.
    /// The action's target is the file's new place.
    pub fn hash_file(&self, file: &AssetPath, content: &[u8]) -> (action: FileAction)
        ensures
            action@ == self@.hashed_file_action(file@, content@),
    {
        let path = self.source_path(file);
        let hashed = hashed_file_name(&path, content);
        self.place_file(file, hashed.as_str())
    }

    /// What is done to the file found at `entry` under the source
    /// directory, which gets the name `hashed`.
    pub fn place_entry(&self, entry: &AssetPath, hashed: &str) -> (action: FileAction)
        ensures
            action@ == self@.entry_action(entry@, hashed@),
    {
        match &self.out_dir {
            Some(out_dir) => {
                let subdir = entry.strip(self.in_dir.parts.len()).parent();
                let dir = out_dir.join(&subdir);
                let to = dir.child(hashed);
                FileAction::Copy { dir, from: entry.clone(), to }
            },
            None => {
                let to = entry.with_file_name(hashed);
                FileAction::Rename { from: entry.clone(), to }
            },
        }
    }

    /// Hashes what `entry` holds, where it is a regular file, and says what
    /// is done to it; there is nothing to do for an entry that is no
    /// regular file.
    pub fn hash_entry(&self, entry: &TreeEntry) -> (action: Option<FileAction>)
        ensures
            action is Some <==> entry@.is_file,
            action is Some ==> action->0@ == self@.hashed_entry_action(entry@),
    {
        if entry.is_file {
            let hashed = hashed_file_name(&entry.path, entry.content.as_slice());
            Some(self.place_entry(&entry.path, hashed.as_str()))
        } else {
            None
        }
    }

    /// Hashes every regular file among `entries`, which is what was found
    /// under the source directory, and says what the run does. First the
    /// output directory is removed, where `out_dir_is_dir` says that it
    /// is there, so that it holds nothing but what this run puts there.
    /// Then each regular file is copied into the output directory, below
    /// the same directories as under the source directory, or renamed
    /// where it is. Entries that are no regular files are passed over.
    pub fn hash_dir(&self, out_dir_is_dir: bool, entries: &Vec<TreeEntry>) -> (plan: DirPlan)
        ensures
            plan@ == self@.dir_plan(out_dir_is_dir, entry_views(entries@)),
    {
        let remove = match self.stale_out_dir(out_dir_is_dir) {
            Some(dir) => Some(dir.clone()),
            None => None,
        };
        let mut actions: Vec<FileAction> = Vec::new();
        let mut i: usize = 0;
        proof {
            reveal(Seq::filter);
        }
        while i < entries.len()
            invariant
                i <= entries.len(),
                action_views(actions@) == self@.dir_actions(entry_views(entries@).take(i as int)),
            decreases entries.len() - i,
        {
            let entry = &entries[i];
            let ghost seen = entry_views(entries@).take(i as int);
            let ghost next = entry_views(entries@).take(i + 1);
            proof {
                reveal(Seq::filter);
                assert(next.drop_last() =~= seen);
            }
            if let Some(action) = self.hash_entry(entry) {
                actions.push(action);
                proof {
                    assert(self@.dir_actions(next) =~= self@.dir_actions(seen).push(
                        self@.hashed_entry_action(entry@),
                    ));
                }
            }
            i = i + 1;
        }
        proof {
            assert(entry_views(entries@).take(i as int) =~= entry_views(entries@));
        }
        DirPlan { remove, actions }
    }
}

} // verus!
