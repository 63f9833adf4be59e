//! Flake references: the sum of all variants, and the dispatcher that reads
//! a string as the one variant whose grammar it matches.

pub mod attributes;
pub mod boolean;
pub mod file;
pub mod git;
pub mod git_service;
pub mod identifier;
pub mod indirect;
pub mod laws;
pub mod locator;
pub mod path;
pub mod protocol;
pub mod record;
pub mod record_laws;
pub mod timestamp;

use crate::flake_ref::attributes::instants_read_back;
use crate::flake_ref::file::{
    bare_header, file_header, file_well_formed, parse_as, parse_file_based, qualified_header,
    read_bare_header, read_qualified_header, render_file_based, Application, FileBasedView,
    FileHeader, FileRef, ParseFileError, TarballRef,
};
use crate::flake_ref::git::{
    git_header, git_well_formed, parse_git, parse_git_based, read_git_header, render_git, GitRef,
    GitView, ParseGitError,
};
use crate::flake_ref::git_service::{
    git_service_well_formed, parse_git_service, parse_service_based, read_service_header,
    render_git_service, service_header, GitServiceRef, GitServiceView, ParseGitServiceError,
    Service,
};
use crate::flake_ref::indirect::{
    flake_rest, indirect_well_formed, is_bare_indirect, parse_indirect, parse_indirect_rest,
    read_flake_rest, render_indirect, IndirectRef, IndirectView, ParseIndirectError,
};
use crate::flake_ref::laws::{lemma_invalid_means_no_shape, lemma_parsed_is_well_formed};
use crate::flake_ref::path::{
    parse_path, parse_path_rest, path_rest, path_well_formed, read_path_rest, render_path,
    ParsePathRefError, PathRef, PathView,
};
use crate::flake_ref::protocol::Transport;
use crate::text::to_chars;
use url::Url;
use vstd::prelude::*;

verus! {

/// What every variant of a flake reference offers: a test of the shape of a
/// string, the grammar that reads it, and the canonical spelling.
pub trait FlakeRefSource: Sized + View {
    /// Why a string of the variant's shape may fail its grammar.
    type ParseErr;

    /// Whether `s` has the shape of the variant.
    spec fn recognizes(s: Seq<char>) -> bool;

    /// What the grammar of the variant makes of `s`.
    spec fn parsed(s: Seq<char>) -> Result<Self::V, Self::ParseErr>;

    /// The canonical spelling of a reference of the variant.
    spec fn rendered(v: Self::V) -> Seq<char>;

    /// Whether `maybe_ref` has the shape of the variant. This decides which
    /// grammar the dispatcher applies; it does not say that the grammar
    /// accepts the string.
    fn parses(maybe_ref: &str) -> (r: bool)
        ensures
            r == Self::recognizes(maybe_ref@),
    ;

    /// Reads a reference of the variant.
    fn parse(s: &str) -> (r: Result<Self, Self::ParseErr>)
        ensures
            match r {
                Ok(v) => Self::parsed(s@) == Ok::<Self::V, Self::ParseErr>(v@),
                Err(e) => Self::parsed(s@) == Err::<Self::V, Self::ParseErr>(e),
            },
    ;

    /// The canonical spelling.
    fn render(&self) -> (r: String)
        ensures
            r@ == Self::rendered(self@),
    ;
}

/// The variants that are spelled as a URL: a scheme, `//` and a location.
pub trait FromUrl {

}

impl FromUrl for FileRef {

}

impl FromUrl for TarballRef {

}

impl FromUrl for GitRef {

}

impl FlakeRefSource for FileRef {
    type ParseErr = ParseFileError;

    open spec fn recognizes(s: Seq<char>) -> bool {
        file_header(s) matches Some(h) && h.application == Application::File
    }

    open spec fn parsed(s: Seq<char>) -> Result<FileBasedView, ParseFileError> {
        parse_as(s, Application::File)
    }

    open spec fn rendered(v: FileBasedView) -> Seq<char> {
        render_file_based(Application::File, v)
    }

    fn parses(maybe_ref: &str) -> (r: bool) {
        FileRef::parses(maybe_ref)
    }

    fn parse(s: &str) -> (r: Result<FileRef, ParseFileError>) {
        FileRef::from_str(s)
    }

    fn render(&self) -> (r: String) {
        self.to_string()
    }
}

impl FlakeRefSource for TarballRef {
    type ParseErr = ParseFileError;

    open spec fn recognizes(s: Seq<char>) -> bool {
        file_header(s) matches Some(h) && h.application == Application::Tarball
    }

    open spec fn parsed(s: Seq<char>) -> Result<FileBasedView, ParseFileError> {
        parse_as(s, Application::Tarball)
    }

    open spec fn rendered(v: FileBasedView) -> Seq<char> {
        render_file_based(Application::Tarball, v)
    }

    fn parses(maybe_ref: &str) -> (r: bool) {
        TarballRef::parses(maybe_ref)
    }

    fn parse(s: &str) -> (r: Result<TarballRef, ParseFileError>) {
        TarballRef::from_str(s)
    }

    fn render(&self) -> (r: String) {
        self.to_string()
    }
}

impl FlakeRefSource for GitServiceRef {
    type ParseErr = ParseGitServiceError;

    open spec fn recognizes(s: Seq<char>) -> bool {
        service_header(s) is Some
    }

    open spec fn parsed(s: Seq<char>) -> Result<GitServiceView, ParseGitServiceError> {
        parse_git_service(s)
    }

    open spec fn rendered(v: GitServiceView) -> Seq<char> {
        render_git_service(v)
    }

    fn parses(maybe_ref: &str) -> (r: bool) {
        GitServiceRef::parses(maybe_ref)
    }

    fn parse(s: &str) -> (r: Result<GitServiceRef, ParseGitServiceError>) {
        GitServiceRef::from_str(s)
    }

    fn render(&self) -> (r: String) {
        self.to_string()
    }
}

impl FlakeRefSource for PathRef {
    type ParseErr = ParsePathRefError;

    open spec fn recognizes(s: Seq<char>) -> bool {
        path_rest(s) is Some
    }

    open spec fn parsed(s: Seq<char>) -> Result<PathView, ParsePathRefError> {
        parse_path(s)
    }

    open spec fn rendered(v: PathView) -> Seq<char> {
        render_path(v)
    }

    fn parses(maybe_ref: &str) -> (r: bool) {
        PathRef::parses(maybe_ref)
    }

    fn parse(s: &str) -> (r: Result<PathRef, ParsePathRefError>) {
        PathRef::from_str(s)
    }

    fn render(&self) -> (r: String) {
        self.to_string()
    }
}

impl FlakeRefSource for GitRef {
    type ParseErr = ParseGitError;

    open spec fn recognizes(s: Seq<char>) -> bool {
        git_header(s) is Some
    }

    open spec fn parsed(s: Seq<char>) -> Result<GitView, ParseGitError> {
        parse_git(s)
    }

    open spec fn rendered(v: GitView) -> Seq<char> {
        render_git(v)
    }

    fn parses(maybe_ref: &str) -> (r: bool) {
        GitRef::parses(maybe_ref)
    }

    fn parse(s: &str) -> (r: Result<GitRef, ParseGitError>) {
        GitRef::from_str(s)
    }

    fn render(&self) -> (r: String) {
        self.to_string()
    }
}

impl FlakeRefSource for IndirectRef {
    type ParseErr = ParseIndirectError;

    open spec fn recognizes(s: Seq<char>) -> bool {
        flake_rest(s) is Some || is_bare_indirect(s)
    }

    open spec fn parsed(s: Seq<char>) -> Result<IndirectView, ParseIndirectError> {
        parse_indirect(s)
    }

    open spec fn rendered(v: IndirectView) -> Seq<char> {
        render_indirect(v)
    }

    fn parses(maybe_ref: &str) -> (r: bool) {
        IndirectRef::parses(maybe_ref)
    }

    fn parse(s: &str) -> (r: Result<IndirectRef, ParseIndirectError>) {
        IndirectRef::from_str(s)
    }

    fn render(&self) -> (r: String) {
        self.to_string()
    }
}

/// A flake reference: exactly one of the variants.
#[derive(Debug, Clone, PartialEq, Eq)]
pub enum FlakeRef {
    FileFile(FileRef),
    FileHTTP(FileRef),
    FileHTTPS(FileRef),
    TarballFile(TarballRef),
    TarballHTTP(TarballRef),
    TarballHTTPS(TarballRef),
    Github(GitServiceRef),
    Gitlab(GitServiceRef),
    Path(PathRef),
    GitPath(GitRef),
    GitSsh(GitRef),
    GitHttps(GitRef),
    GitHttp(GitRef),
    Indirect(IndirectRef),
}

/// The model of a [`FlakeRef`]: the kind of reference and its fields. The
/// transport and the service are fields of the variant's record.
pub enum FlakeRefView {
    File(FileBasedView),
    Tarball(FileBasedView),
    GitService(GitServiceView),
    Path(PathView),
    Git(GitView),
    Indirect(IndirectView),
}

impl FlakeRefView {
    /// Whether the reference can be spelled and read back: what the grammar
    /// of its variant asks of its fields.
    pub open spec fn well_formed(self) -> bool {
        match self {
            FlakeRefView::File(r) => file_well_formed(Application::File, r),
            FlakeRefView::Tarball(r) => file_well_formed(Application::Tarball, r),
            FlakeRefView::GitService(r) => git_service_well_formed(r),
            FlakeRefView::Path(r) => path_well_formed(r),
            FlakeRefView::Git(r) => git_well_formed(r),
            FlakeRefView::Indirect(r) => indirect_well_formed(r),
        }
    }

    /// Whether the date parser reads every instant among the attributes
    /// back from its decimal spelling.
    pub open spec fn instants_read_back(self) -> bool {
        match self {
            FlakeRefView::File(r) => instants_read_back(r.attributes),
            FlakeRefView::Tarball(r) => instants_read_back(r.attributes),
            FlakeRefView::GitService(r) => instants_read_back(r.attributes),
            FlakeRefView::Path(r) => instants_read_back(r.attributes),
            FlakeRefView::Git(r) => instants_read_back(r.attributes),
            FlakeRefView::Indirect(_) => true,
        }
    }
}

impl View for FlakeRef {
    type V = FlakeRefView;

    open spec fn view(&self) -> FlakeRefView {
        match self {
            FlakeRef::FileFile(r) => FlakeRefView::File(r@),
            FlakeRef::FileHTTP(r) => FlakeRefView::File(r@),
            FlakeRef::FileHTTPS(r) => FlakeRefView::File(r@),
            FlakeRef::TarballFile(r) => FlakeRefView::Tarball(r@),
            FlakeRef::TarballHTTP(r) => FlakeRefView::Tarball(r@),
            FlakeRef::TarballHTTPS(r) => FlakeRefView::Tarball(r@),
            FlakeRef::Github(r) => FlakeRefView::GitService(r@),
            FlakeRef::Gitlab(r) => FlakeRefView::GitService(r@),
            FlakeRef::Path(r) => FlakeRefView::Path(r@),
            FlakeRef::GitPath(r) => FlakeRefView::Git(r@),
            FlakeRef::GitSsh(r) => FlakeRefView::Git(r@),
            FlakeRef::GitHttps(r) => FlakeRefView::Git(r@),
            FlakeRef::GitHttp(r) => FlakeRefView::Git(r@),
            FlakeRef::Indirect(r) => FlakeRefView::Indirect(r@),
        }
    }
}

/// Why a string is no flake reference. An error of a variant says that the
/// string was shaped like that variant and failed its grammar.
#[derive(Debug, Clone, Copy, PartialEq, Eq, Structural)]
pub enum ParseFlakeRefError {
    File(ParseFileError),
    GitService(ParseGitServiceError),
    Git(ParseGitError),
    Indirect(ParseIndirectError),
    Path(ParsePathRefError),
    /// The string is shaped like no variant.
    Invalid,
}

/// The reference that follows from the header of a file or an archive.
pub open spec fn parse_file_header(header: FileHeader) -> Result<FlakeRefView, ParseFlakeRefError> {
    match parse_file_based(header) {
        Ok(v) => match header.application {
            Application::File => Ok(FlakeRefView::File(v)),
            Application::Tarball => Ok(FlakeRefView::Tarball(v)),
        },
        Err(e) => Err(ParseFlakeRefError::File(e)),
    }
}

/// The reference that `s` spells without a scheme of files or git.
pub open spec fn parse_named(s: Seq<char>) -> Result<FlakeRefView, ParseFlakeRefError> {
    match service_header(s) {
        Some(header) => match parse_service_based(header) {
            Ok(v) => Ok(FlakeRefView::GitService(v)),
            Err(e) => Err(ParseFlakeRefError::GitService(e)),
        },
        None => match path_rest(s) {
            Some(rest) => match parse_path_rest(rest) {
                Ok(v) => Ok(FlakeRefView::Path(v)),
                Err(e) => Err(ParseFlakeRefError::Path(e)),
            },
            None => match flake_rest(s) {
                Some(rest) => match parse_indirect_rest(rest) {
                    Ok(v) => Ok(FlakeRefView::Indirect(v)),
                    Err(e) => Err(ParseFlakeRefError::Indirect(e)),
                },
                None => match parse_indirect_rest(s) {
                    Ok(v) => Ok(FlakeRefView::Indirect(v)),
                    Err(_) => Err(ParseFlakeRefError::Invalid),
                },
            },
        },
    }
}

/// The flake reference that `s` spells.
///
/// The shapes are tried in a fixed order and the first that fits decides:
/// the qualified schemes (`file+…`, `tarball+…`, `git+…`), the bare schemes
/// `file:`, `http:` and `https:` (an archive where the location ends like
/// one, a plain file otherwise), the hosting services, `path:`, `flake:`,
/// and last a bare name. Once a shape fits, a failure of its grammar is the
/// result; no later shape is tried.
pub open spec fn parse_flake_ref(s: Seq<char>) -> Result<FlakeRefView, ParseFlakeRefError> {
    match qualified_header(s) {
        Some(header) => parse_file_header(header),
        None => match git_header(s) {
            Some(header) => match parse_git_based(header) {
                Ok(v) => Ok(FlakeRefView::Git(v)),
                Err(e) => Err(ParseFlakeRefError::Git(e)),
            },
            None => match bare_header(s) {
                Some(header) => parse_file_header(header),
                None => parse_named(s),
            },
        },
    }
}

/// Whether `s` has the shape of some variant: one of the schemes stands at
/// its beginning, or it is a bare name.
pub open spec fn has_known_shape(s: Seq<char>) -> bool {
    ||| qualified_header(s) is Some
    ||| git_header(s) is Some
    ||| bare_header(s) is Some
    ||| service_header(s) is Some
    ||| path_rest(s) is Some
    ||| flake_rest(s) is Some
    ||| is_bare_indirect(s)
}

/// The canonical spelling of a flake reference.
pub open spec fn render_flake_ref(v: FlakeRefView) -> Seq<char> {
    match v {
        FlakeRefView::File(r) => render_file_based(Application::File, r),
        FlakeRefView::Tarball(r) => render_file_based(Application::Tarball, r),
        FlakeRefView::GitService(r) => render_git_service(r),
        FlakeRefView::Path(r) => render_path(r),
        FlakeRefView::Git(r) => render_git(r),
        FlakeRefView::Indirect(r) => render_indirect(r),
    }
}

impl FlakeRef {
    /// Whether the variant agrees with the transport or the service that
    /// its record names.
    pub open spec fn is_consistent(&self) -> bool {
        match self {
            FlakeRef::FileFile(r) => r.transport == Transport::File,
            FlakeRef::FileHTTP(r) => r.transport == Transport::HTTP,
            FlakeRef::FileHTTPS(r) => r.transport == Transport::HTTPS,
            FlakeRef::TarballFile(r) => r.transport == Transport::File,
            FlakeRef::TarballHTTP(r) => r.transport == Transport::HTTP,
            FlakeRef::TarballHTTPS(r) => r.transport == Transport::HTTPS,
            FlakeRef::Github(r) => r.service == Service::Github,
            FlakeRef::Gitlab(r) => r.service == Service::Gitlab,
            FlakeRef::Path(_) => true,
            FlakeRef::GitPath(r) => r.transport == Transport::File,
            FlakeRef::GitSsh(r) => r.transport == Transport::SSH,
            FlakeRef::GitHttps(r) => r.transport == Transport::HTTPS,
            FlakeRef::GitHttp(r) => r.transport == Transport::HTTP,
            FlakeRef::Indirect(_) => true,
        }
    }

    /// The variant for a reference to a plain file. No file is fetched over
    /// SSH.
    pub fn from_file(r: FileRef) -> (out: Result<FlakeRef, ParseFlakeRefError>)
        ensures
            r.transport == Transport::SSH ==> out == Err::<FlakeRef, ParseFlakeRefError>(
                ParseFlakeRefError::File(ParseFileError::UnsupportedScheme),
            ),
            r.transport != Transport::SSH ==> (out matches Ok(v) && v.is_consistent() && v@
                == FlakeRefView::File(r@)),
    {
        match r.transport {
            Transport::File => Ok(FlakeRef::FileFile(r)),
            Transport::HTTP => Ok(FlakeRef::FileHTTP(r)),
            Transport::HTTPS => Ok(FlakeRef::FileHTTPS(r)),
            Transport::SSH => Err(ParseFlakeRefError::File(ParseFileError::UnsupportedScheme)),
        }
    }

    /// The variant for a reference to an archive. No archive is fetched over
    /// SSH.
    pub fn from_tarball(r: TarballRef) -> (out: Result<FlakeRef, ParseFlakeRefError>)
        ensures
            r.transport == Transport::SSH ==> out == Err::<FlakeRef, ParseFlakeRefError>(
                ParseFlakeRefError::File(ParseFileError::UnsupportedScheme),
            ),
            r.transport != Transport::SSH ==> (out matches Ok(v) && v.is_consistent() && v@
                == FlakeRefView::Tarball(r@)),
    {
        match r.transport {
            Transport::File => Ok(FlakeRef::TarballFile(r)),
            Transport::HTTP => Ok(FlakeRef::TarballHTTP(r)),
            Transport::HTTPS => Ok(FlakeRef::TarballHTTPS(r)),
            Transport::SSH => Err(ParseFlakeRefError::File(ParseFileError::UnsupportedScheme)),
        }
    }

    /// The variant for a shorthand reference.
    pub fn from_git_service(r: GitServiceRef) -> (out: FlakeRef)
        ensures
            out.is_consistent(),
            out@ == FlakeRefView::GitService(r@),
    {
        match r.service {
            Service::Github => FlakeRef::Github(r),
            Service::Gitlab => FlakeRef::Gitlab(r),
        }
    }

    /// The variant for a git reference.
    pub fn from_git(r: GitRef) -> (out: FlakeRef)
        ensures
            out.is_consistent(),
            out@ == FlakeRefView::Git(r@),
    {
        match r.transport {
            Transport::File => FlakeRef::GitPath(r),
            Transport::SSH => FlakeRef::GitSsh(r),
            Transport::HTTPS => FlakeRef::GitHttps(r),
            Transport::HTTP => FlakeRef::GitHttp(r),
        }
    }

    fn from_file_header(header: &file::Header) -> (r: Result<FlakeRef, ParseFlakeRefError>)
        requires
            header.transport != Transport::SSH,
        ensures
            match r {
                Ok(v) => v.is_consistent() && parse_file_header(header@) == Ok::<
                    FlakeRefView,
                    ParseFlakeRefError,
                >(v@),
                Err(e) => parse_file_header(header@) == Err::<FlakeRefView, ParseFlakeRefError>(e),
            },
    {
        match header.application {
            Application::File => match FileRef::from_header(header) {
                Ok(v) => FlakeRef::from_file(v),
                Err(e) => Err(ParseFlakeRefError::File(e)),
            },
            Application::Tarball => match TarballRef::from_header(header) {
                Ok(v) => FlakeRef::from_tarball(v),
                Err(e) => Err(ParseFlakeRefError::File(e)),
            },
        }
    }

    fn from_named(s: &[char]) -> (r: Result<FlakeRef, ParseFlakeRefError>)
        ensures
            match r {
                Ok(v) => v.is_consistent() && parse_named(s@) == Ok::<
                    FlakeRefView,
                    ParseFlakeRefError,
                >(v@),
                Err(e) => parse_named(s@) == Err::<FlakeRefView, ParseFlakeRefError>(e),
            },
    {
        if let Some(header) = read_service_header(s) {
            return match GitServiceRef::from_header(&header) {
                Ok(v) => Ok(FlakeRef::from_git_service(v)),
                Err(e) => Err(ParseFlakeRefError::GitService(e)),
            };
        }
        if let Some(rest) = read_path_rest(s) {
            return match PathRef::from_rest(rest) {
                Ok(v) => Ok(FlakeRef::Path(v)),
                Err(e) => Err(ParseFlakeRefError::Path(e)),
            };
        }
        if let Some(rest) = read_flake_rest(s) {
            return match IndirectRef::from_rest(rest) {
                Ok(v) => Ok(FlakeRef::Indirect(v)),
                Err(e) => Err(ParseFlakeRefError::Indirect(e)),
            };
        }
        match IndirectRef::from_rest(s) {
            Ok(v) => Ok(FlakeRef::Indirect(v)),
            Err(_) => Err(ParseFlakeRefError::Invalid),
        }
    }

    /// Reads a flake reference.
    ///
    /// The result is the variant whose shape `s` has, read by that variant's
    /// grammar; the error of that grammar where `s` fails it; and
    /// `ParseFlakeRefError::Invalid` where `s` has the shape of no variant.
    pub fn from_str(s: &str) -> (r: Result<FlakeRef, ParseFlakeRefError>)
        ensures
            match r {
                Ok(v) => v.is_consistent() && v@.well_formed() && parse_flake_ref(s@) == Ok::<
                    FlakeRefView,
                    ParseFlakeRefError,
                >(v@),
                Err(e) => parse_flake_ref(s@) == Err::<FlakeRefView, ParseFlakeRefError>(e),
            },
            r == Err::<FlakeRef, ParseFlakeRefError>(ParseFlakeRefError::Invalid)
                <==> !has_known_shape(s@),
    {
        proof {
            lemma_parsed_is_well_formed(s@);
            lemma_invalid_means_no_shape(s@);
        }
        let chars = to_chars(s);
        let text = chars.as_slice();
        if let Some(header) = read_qualified_header(text) {
            return FlakeRef::from_file_header(&header);
        }
        if let Some(header) = read_git_header(text) {
            return match GitRef::from_header(&header) {
                Ok(v) => Ok(FlakeRef::from_git(v)),
                Err(e) => Err(ParseFlakeRefError::Git(e)),
            };
        }
        if let Some(header) = read_bare_header(text) {
            return FlakeRef::from_file_header(&header);
        }
        FlakeRef::from_named(text)
    }

    /// The canonical spelling.
    pub fn to_string(&self) -> (r: String)
        ensures
            r@ == render_flake_ref(self@),
    {
        match self {
            FlakeRef::FileFile(r) => r.to_string(),
            FlakeRef::FileHTTP(r) => r.to_string(),
            FlakeRef::FileHTTPS(r) => r.to_string(),
            FlakeRef::TarballFile(r) => r.to_string(),
            FlakeRef::TarballHTTP(r) => r.to_string(),
            FlakeRef::TarballHTTPS(r) => r.to_string(),
            FlakeRef::Github(r) => r.to_string(),
            FlakeRef::Gitlab(r) => r.to_string(),
            FlakeRef::Path(r) => r.to_string(),
            FlakeRef::GitPath(r) => r.to_string(),
            FlakeRef::GitSsh(r) => r.to_string(),
            FlakeRef::GitHttps(r) => r.to_string(),
            FlakeRef::GitHttp(r) => r.to_string(),
            FlakeRef::Indirect(r) => r.to_string(),
        }
    }
}

/// A reference as a user types it: a flake reference where the string is a
/// URL, and the string itself, to be resolved later, where it is none.
#[derive(Debug, Clone, PartialEq, Eq)]
pub enum ImpureFlakeRef {
    Pure(FlakeRef),
    Impure(String),
}

/// The model of an [`ImpureFlakeRef`].
pub enum ImpureFlakeRefView {
    Pure(FlakeRefView),
    Impure(Seq<char>),
}

impl View for ImpureFlakeRef {
    type V = ImpureFlakeRefView;

    open spec fn view(&self) -> ImpureFlakeRefView {
        match self {
            ImpureFlakeRef::Pure(r) => ImpureFlakeRefView::Pure(r@),
            ImpureFlakeRef::Impure(s) => ImpureFlakeRefView::Impure(s@),
        }
    }
}

/// Whether `url::Url::parse` accepts `s` as an absolute URL.
pub uninterp spec fn is_absolute_url(s: Seq<char>) -> bool;

/// `url::Url::parse`, asked only whether it succeeds.
///
/// Not proved, but taken from the url crate: whether a string parses as an
/// absolute URL depends on the string alone. The contract gives that answer
/// its name and claims nothing else of it.
#[verifier::external_body]
fn parses_as_url(s: &str) -> (r: bool)
    ensures
        r == is_absolute_url(s@),
{
    Url::parse(s).is_ok()
}

/// What a typed string is, given whether it is a URL.
pub open spec fn parse_impure(s: Seq<char>, is_url: bool) -> Result<
    ImpureFlakeRefView,
    ParseFlakeRefError,
> {
    if is_url {
        match parse_flake_ref(s) {
            Ok(v) => Ok(ImpureFlakeRefView::Pure(v)),
            Err(e) => Err(e),
        }
    } else {
        Ok(ImpureFlakeRefView::Impure(s))
    }
}

impl ImpureFlakeRef {
    /// Whether a pure reference inside is consistent.
    pub open spec fn is_consistent(&self) -> bool {
        match self {
            ImpureFlakeRef::Pure(r) => r.is_consistent(),
            ImpureFlakeRef::Impure(_) => true,
        }
    }

    /// Reads `s` once it is known whether `s` is a URL: a URL must be a
    /// flake reference, and anything else is kept as it is.
    pub fn from_checked(s: &str, is_url: bool) -> (r: Result<ImpureFlakeRef, ParseFlakeRefError>)
        ensures
            match r {
                Ok(v) => v.is_consistent() && parse_impure(s@, is_url) == Ok::<
                    ImpureFlakeRefView,
                    ParseFlakeRefError,
                >(v@),
                Err(e) => parse_impure(s@, is_url) == Err::<
                    ImpureFlakeRefView,
                    ParseFlakeRefError,
                >(e),
            },
    {
        if is_url {
            match FlakeRef::from_str(s) {
                Ok(v) => Ok(ImpureFlakeRef::Pure(v)),
                Err(e) => Err(e),
            }
        } else {
            Ok(ImpureFlakeRef::Impure(s.to_owned()))
        }
    }

    /// Reads a reference as a user types it. A string that is an absolute
    /// URL must be a flake reference; any other string is kept for later.
    pub fn from_str(s: &str) -> (r: Result<ImpureFlakeRef, ParseFlakeRefError>)
        ensures
            match r {
                Ok(v) => v.is_consistent() && parse_impure(s@, is_absolute_url(s@)) == Ok::<
                    ImpureFlakeRefView,
                    ParseFlakeRefError,
                >(v@),
                Err(e) => parse_impure(s@, is_absolute_url(s@)) == Err::<
                    ImpureFlakeRefView,
                    ParseFlakeRefError,
                >(e),
            },
    {
        ImpureFlakeRef::from_checked(s, parses_as_url(s))
    }
}

} // verus!
