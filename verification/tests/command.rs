use runix::command::{
    Build, Bundle, Develop, Eval, FlakeInit, FlakeMetadata, FlakeRefArg, NixCopy, PathInfo, Run,
    Shell, StoreGc, StoreSign, TemplateFlag,
};
use runix::flake_ref::FlakeRef;

#[test]
fn the_words_that_select_a_command() {
    assert_eq!(Build::subcommand(), ["build"]);
    assert_eq!(FlakeInit::subcommand(), ["flake", "init"]);
    assert_eq!(FlakeMetadata::subcommand(), ["flake", "metadata"]);
    assert_eq!(Develop::subcommand(), ["develop"]);
    assert_eq!(Eval::subcommand(), ["eval"]);
    assert_eq!(Run::subcommand(), ["run"]);
    assert_eq!(Shell::subcommand(), ["shell"]);
    assert_eq!(Bundle::subcommand(), ["bundle"]);
    assert_eq!(StoreGc::subcommand(), ["store", "gc"]);
    assert_eq!(NixCopy::subcommand(), ["copy"]);
    assert_eq!(PathInfo::subcommand(), ["path-info"]);
    assert_eq!(StoreSign::subcommand(), ["store", "sign"]);
    assert_eq!(TemplateFlag::flag(), "--template");
}

#[test]
fn a_flake_reference_is_passed_in_its_canonical_spelling() {
    let arg = FlakeRefArg(FlakeRef::from_str("nixpkgs/unstable").unwrap());
    assert_eq!(arg.to_args(), ["flake:nixpkgs/unstable"]);
    let arg = FlakeRefArg(FlakeRef::from_str("git+ssh://host/repo?shallow=true").unwrap());
    assert_eq!(arg.to_args(), ["git+ssh://host/repo?shallow=true"]);
}

#[test]
fn a_command_starts_without_arguments() {
    let metadata = FlakeMetadata::default();
    assert!(metadata.flake_ref.is_none());
    assert!(metadata.eval.words.is_empty());
    let build = Build::default();
    assert!(build.installables.is_empty());
}
