//! The commands of the `nix` command line, each as the groups of arguments
//! it takes and the words that select it.

use crate::flake_ref::{render_flake_ref, FlakeRef};
use std::collections::HashMap;
use vstd::prelude::*;

verus! {

/// A group of arguments, held as the words it adds to the command line.
#[derive(Debug, Default, Clone, PartialEq, Eq)]
pub struct ArgGroup {
    pub words: Vec<String>,
}

/// Something to build or run, held as the string that names it.
#[derive(Debug, Default, Clone, PartialEq, Eq)]
pub struct Installable {
    pub name: String,
}

/// The views of a list of words.
pub open spec fn words_of(words: Seq<&'static str>) -> Seq<Seq<char>> {
    words.map_values(|w: &'static str| w@)
}

fn one_word(first: &'static str) -> (words: Vec<&'static str>)
    ensures
        words_of(words@) == seq![first@],
{
    let mut words: Vec<&'static str> = Vec::new();
    words.push(first);
    assert(words_of(words@) =~= seq![first@]);
    words
}

fn two_words(first: &'static str, second: &'static str) -> (words: Vec<&'static str>)
    ensures
        words_of(words@) == seq![first@, second@],
{
    let mut words: Vec<&'static str> = Vec::new();
    words.push(first);
    words.push(second);
    assert(words_of(words@) =~= seq![first@, second@]);
    words
}

/// `nix build`.
#[derive(Debug, Default, Clone)]
pub struct Build {
    pub flake: ArgGroup,
    pub eval: ArgGroup,
    pub source: ArgGroup,
    pub installables: Vec<Installable>,
    pub build: ArgGroup,
}

impl Build {
    /// The words that select the command.
    pub fn subcommand() -> (words: Vec<&'static str>)
        ensures
            words_of(words@) == seq!["build"@],
    {
        one_word("build")
    }
}

/// One element of what `nix build --json` prints.
#[derive(Debug, Clone)]
pub struct BuildOutEntry {
    pub drv_path: String,
    pub outputs: HashMap<String, String>,
}

/// What `nix build --json` prints.
pub type BuildOut = Vec<BuildOutEntry>;

/// `nix flake init`.
#[derive(Debug, Default, Clone)]
pub struct FlakeInit {
    pub flake: ArgGroup,
    pub eval: ArgGroup,
    pub installables: Vec<Installable>,
    pub template: Option<TemplateFlag>,
}

impl FlakeInit {
    /// The words that select the command.
    pub fn subcommand() -> (words: Vec<&'static str>)
        ensures
            words_of(words@) == seq!["flake"@, "init"@],
    {
        two_words("flake", "init")
    }
}

/// The flag `--template <TEMPLATE>` of `nix flake init`.
#[derive(Debug, Clone)]
pub struct TemplateFlag(pub Installable);

impl TemplateFlag {
    /// The flag as it is written on the command line.
    pub fn flag() -> (r: &'static str)
        ensures
            r@ == "--template"@,
    {
        "--template"
    }
}

/// The flake reference that `nix flake metadata` takes.
#[derive(Debug, Clone)]
pub struct FlakeRefArg(pub FlakeRef);

impl FlakeRefArg {
    /// The words that the argument adds to the command line: the canonical
    /// spelling of the reference, and no flag before it.
    pub fn to_args(&self) -> (words: Vec<String>)
        ensures
            words@.len() == 1,
            words@[0]@ == render_flake_ref(self.0@),
    {
        let mut words: Vec<String> = Vec::new();
        words.push(self.0.to_string());
        words
    }
}

/// `nix flake metadata`.
#[derive(Debug, Default, Clone)]
pub struct FlakeMetadata {
    pub eval: ArgGroup,
    pub flake: ArgGroup,
    pub flake_ref: Option<FlakeRefArg>,
}

impl FlakeMetadata {
    /// The words that select the command.
    pub fn subcommand() -> (words: Vec<&'static str>)
        ensures
            words_of(words@) == seq!["flake"@, "metadata"@],
    {
        two_words("flake", "metadata")
    }
}

/// `nix develop`.
#[derive(Debug, Default, Clone)]
pub struct Develop {
    pub flake: ArgGroup,
    pub eval: ArgGroup,
    pub source: ArgGroup,
    pub installable: Option<Installable>,
    pub develop_args: ArgGroup,
}

impl Develop {
    /// The words that select the command.
    pub fn subcommand() -> (words: Vec<&'static str>)
        ensures
            words_of(words@) == seq!["develop"@],
    {
        one_word("develop")
    }
}

/// `nix eval`.
#[derive(Debug, Default, Clone)]
pub struct Eval {
    pub flake: ArgGroup,
    pub eval: ArgGroup,
    pub source: ArgGroup,
    pub eval_args: ArgGroup,
}

impl Eval {
    /// The words that select the command.
    pub fn subcommand() -> (words: Vec<&'static str>)
        ensures
            words_of(words@) == seq!["eval"@],
    {
        one_word("eval")
    }
}

/// `nix run`.
#[derive(Debug, Default, Clone)]
pub struct Run {
    pub flake: ArgGroup,
    pub eval: ArgGroup,
    pub source: ArgGroup,
    pub installable: Option<Installable>,
}

impl Run {
    /// The words that select the command.
    pub fn subcommand() -> (words: Vec<&'static str>)
        ensures
            words_of(words@) == seq!["run"@],
    {
        one_word("run")
    }
}

/// `nix shell`.
#[derive(Debug, Default, Clone)]
pub struct Shell {
    pub flake: ArgGroup,
    pub eval: ArgGroup,
    pub source: ArgGroup,
    pub installables: Vec<Installable>,
}

impl Shell {
    /// The words that select the command.
    pub fn subcommand() -> (words: Vec<&'static str>)
        ensures
            words_of(words@) == seq!["shell"@],
    {
        one_word("shell")
    }
}

/// `nix bundle`.
#[derive(Debug, Default, Clone)]
pub struct Bundle {
    pub flake: ArgGroup,
    pub eval: ArgGroup,
    pub source: ArgGroup,
    pub installable: Option<Installable>,
    pub bundle_args: ArgGroup,
}

impl Bundle {
    /// The words that select the command.
    pub fn subcommand() -> (words: Vec<&'static str>)
        ensures
            words_of(words@) == seq!["bundle"@],
    {
        one_word("bundle")
    }
}

/// `nix store gc`. It takes no arguments but its own.
#[derive(Debug, Default, Clone)]
pub struct StoreGc {
    pub store_gc: ArgGroup,
}

impl StoreGc {
    /// The words that select the command.
    pub fn subcommand() -> (words: Vec<&'static str>)
        ensures
            words_of(words@) == seq!["store"@, "gc"@],
    {
        two_words("store", "gc")
    }
}

/// `nix copy`. The name sets it apart from the trait `Copy`.
#[derive(Debug, Default, Clone)]
pub struct NixCopy {
    pub copy_args: ArgGroup,
    pub eval: ArgGroup,
    pub flake: ArgGroup,
    pub installables: Vec<Installable>,
}

impl NixCopy {
    /// The words that select the command.
    pub fn subcommand() -> (words: Vec<&'static str>)
        ensures
            words_of(words@) == seq!["copy"@],
    {
        one_word("copy")
    }
}

/// `nix path-info`.
#[derive(Debug, Default, Clone)]
pub struct PathInfo {
    pub eval: ArgGroup,
    pub flake: ArgGroup,
    pub source: ArgGroup,
    pub installables: Vec<Installable>,
    pub path_info: ArgGroup,
}

impl PathInfo {
    /// The words that select the command.
    pub fn subcommand() -> (words: Vec<&'static str>)
        ensures
            words_of(words@) == seq!["path-info"@],
    {
        one_word("path-info")
    }
}

/// `nix store sign`.
#[derive(Debug, Clone)]
pub struct StoreSign {
    pub store_sign: ArgGroup,
    pub installables: Vec<Installable>,
    pub eval: ArgGroup,
    pub flake: ArgGroup,
}

impl StoreSign {
    /// The words that select the command.
    pub fn subcommand() -> (words: Vec<&'static str>)
        ensures
            words_of(words@) == seq!["store"@, "sign"@],
    {
        two_words("store", "sign")
    }
}

} // verus!
