use cache_bust::cache_bust::warn_prefix;
use cache_bust::{AssetPath, CacheBust, CacheBustBuilder, CacheBustBuilderError};

fn crate_dir() -> Option<AssetPath> {
    Some(AssetPath::parse("/project"))
}

#[test]
fn no_out_dir() {
    let error = CacheBust::builder(crate_dir()).try_build(true, false).unwrap_err();
    assert_eq!(error, CacheBustBuilderError::OutDirNotSet);
    assert_eq!(error.message(), "out_dir must be specified or in_place set to true");
}

#[test]
fn in_dir_not_a_dir() {
    let file = AssetPath::parse("/project/assets").child("hello.txt");

    let error = CacheBust::builder(crate_dir())
        .in_dir(file.clone())
        .in_place(true)
        .try_build(false, false)
        .unwrap_err();
    assert_eq!(error, CacheBustBuilderError::InDirNotADirectory(file));
    assert!(error.message().contains("is not a directory"));
    assert_eq!(error.message(), "\"/project/assets/hello.txt\" is not a directory");
}

#[test]
fn in_dir_is_needed_outside_a_crate() {
    let error = CacheBust::builder(None)
        .out_dir(AssetPath::parse("out"))
        .try_build(false, false)
        .unwrap_err();
    assert_eq!(error, CacheBustBuilderError::InDirNotSet);
    assert_eq!(error.message(), "in_dir must be set");
}

#[test]
fn out_dir_must_not_be_a_file() {
    let error = CacheBust::builder(crate_dir())
        .out_dir(AssetPath::parse("out/file"))
        .try_build(true, true)
        .unwrap_err();
    assert_eq!(error, CacheBustBuilderError::OutDirIsAFile(AssetPath::parse("out/file")));
    assert_eq!(error.message(), "\"out/file\" is already a file");
}

#[test]
fn first_fault_is_reported() {
    let builder = CacheBustBuilder::new(None);
    assert_eq!(builder.try_build(false, true).unwrap_err(), CacheBustBuilderError::InDirNotSet);
    let builder = CacheBustBuilder::new(crate_dir());
    assert_eq!(
        builder.try_build(false, true).unwrap_err(),
        CacheBustBuilderError::InDirNotADirectory(AssetPath::parse("/project/assets"))
    );
    let builder = CacheBustBuilder::new(crate_dir());
    assert_eq!(builder.try_build(true, true).unwrap_err(), CacheBustBuilderError::OutDirNotSet);
}

#[test]
fn defaults_inside_a_crate() {
    let builder = CacheBust::builder(crate_dir());
    assert_eq!(builder.source_dir(), Some(&AssetPath::parse("/project/assets")));
    assert_eq!(builder.output_dir(), None);
    let cache_bust = builder.out_dir(AssetPath::parse("out")).build(true, false);
    assert_eq!(cache_bust.source_dir(), &AssetPath::parse("/project/assets"));
    assert_eq!(cache_bust.output_dir(), Some(&AssetPath::parse("out")));
    assert!(cache_bust.runs_in_build_script());
    assert!(cache_bust.logs());
}

#[test]
fn defaults_outside_a_crate() {
    let builder = CacheBust::builder(None);
    assert_eq!(builder.source_dir(), None);
    let cache_bust = builder
        .in_dir(AssetPath::parse("files"))
        .in_place(true)
        .build(true, false);
    assert_eq!(cache_bust.source_dir(), &AssetPath::parse("files"));
    assert_eq!(cache_bust.output_dir(), None);
    assert!(!cache_bust.runs_in_build_script());
    assert!(cache_bust.logs());
}

#[test]
fn settings_are_taken_over() {
    let cache_bust = CacheBust::builder(crate_dir())
        .in_dir(AssetPath::parse("in"))
        .out_dir(AssetPath::parse("out"))
        .is_build_script(false)
        .enable_logging(false)
        .in_place(false)
        .try_build(true, false)
        .unwrap();
    assert_eq!(cache_bust.source_dir(), &AssetPath::parse("in"));
    assert_eq!(cache_bust.output_dir(), Some(&AssetPath::parse("out")));
    assert!(!cache_bust.runs_in_build_script());
    assert!(!cache_bust.logs());
}

#[test]
fn in_place_ignores_the_output_directory() {
    let builder = CacheBust::builder(None)
        .in_dir(AssetPath::parse("in"))
        .out_dir(AssetPath::parse("out"))
        .in_place(true);
    assert_eq!(
        builder.warning(true),
        Some("[cache_bust/warning] in_place is set to true, ignoring out_dir".to_string())
    );
    assert_eq!(builder.warning(false), None);
    let copy = builder.clone();
    let cache_bust = builder.try_build(true, true).unwrap();
    assert_eq!(cache_bust.output_dir(), None);
    assert_eq!(
        copy.is_build_script(true).warning(true),
        Some("cargo::warn=in_place is set to true, ignoring out_dir".to_string())
    );
}

#[test]
fn no_warning_without_a_clash() {
    let copying = CacheBust::builder(crate_dir()).out_dir(AssetPath::parse("out"));
    assert_eq!(copying.warning(true), None);
    let renaming = CacheBust::builder(crate_dir()).in_place(true);
    assert_eq!(renaming.warning(true), None);
    let unset = CacheBust::builder(None).out_dir(AssetPath::parse("out")).in_place(true);
    assert_eq!(unset.warning(true), None);
}

#[test]
fn warning_lines_start_as_the_context_asks() {
    assert_eq!(warn_prefix(true), "cargo::warn=");
    assert_eq!(warn_prefix(false), "[cache_bust/warning] ");
}
