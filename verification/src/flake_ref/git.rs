//! References to a git repository, spelled as a URL behind `git+`.

use crate::flake_ref::attributes::{
    attributes_well_formed, instants_read_back, AttributeError, AttributeView, Attributes,
};
use crate::flake_ref::locator::{
    lemma_locator_round_trip, lemma_locator_well_formed, lemma_plain_locator_is_kept,
    locator_is_plain, parse_locator, read_locator, render_locator, write_locator, LocatorError,
};
use crate::flake_ref::protocol::{lemma_schemes, Transport};
use crate::text::{
    after_prefix, lacks, lemma_after_prefix, lemma_not_prefix, lemma_prefix_chars,
    lemma_prefix_parts, strip_prefix, to_chars,
};
use vstd::prelude::*;

verus! {

/// A reference to a git repository.
#[derive(Debug, Clone, PartialEq, Eq)]
pub struct GitRef {
    pub transport: Transport,
    /// What follows `//` in the URL of the repository, up to the attributes.
    pub location: String,
    /// `ref`, `rev`, `shallow`, `submodules` and whatever else was given.
    pub attributes: Attributes,
}

/// The model of a [`GitRef`].
pub struct GitView {
    pub transport: Transport,
    pub location: Seq<char>,
    pub attributes: Seq<AttributeView>,
}

impl View for GitRef {
    type V = GitView;

    open spec fn view(&self) -> GitView {
        GitView {
            transport: self.transport,
            location: self.location@,
            attributes: self.attributes@,
        }
    }
}

/// Why a string is no reference to a git repository.
#[derive(Debug, Clone, Copy, PartialEq, Eq, Structural)]
pub enum ParseGitError {
    /// The string does not begin with `git+` and one of the four schemes.
    UnsupportedScheme,
    /// The `//` is missing after the scheme, or the location is empty.
    InvalidUrl,
    /// The tail is no attribute set.
    Attribute(AttributeError),
}

/// The transport and what follows the scheme, as the dispatcher sees them.
pub struct GitHeader {
    pub transport: Transport,
    pub rest: Seq<char>,
}

/// The prefix of a git reference: `git+ssh:` and the like.
pub open spec fn git_prefix(transport: Transport) -> Seq<char> {
    "git"@ + seq!['+'] + transport.scheme() + seq![':']
}

/// The header of `s` if it is spelled with this scheme.
pub open spec fn git_as(s: Seq<char>, transport: Transport) -> Option<GitHeader> {
    match after_prefix(s, git_prefix(transport)) {
        Some(rest) => Some(GitHeader { transport, rest }),
        None => None,
    }
}

/// The header of a git reference: `git+`, then `file:`, `ssh:`, `https:` or
/// `http:`.
pub open spec fn git_header(s: Seq<char>) -> Option<GitHeader> {
    if git_as(s, Transport::File) is Some {
        git_as(s, Transport::File)
    } else if git_as(s, Transport::SSH) is Some {
        git_as(s, Transport::SSH)
    } else if git_as(s, Transport::HTTPS) is Some {
        git_as(s, Transport::HTTPS)
    } else {
        git_as(s, Transport::HTTP)
    }
}

/// The reference that follows from a header.
pub open spec fn parse_git_based(header: GitHeader) -> Result<GitView, ParseGitError> {
    match parse_locator(header.rest) {
        Ok(p) => Ok(GitView { transport: header.transport, location: p.0, attributes: p.1 }),
        Err(LocatorError::Malformed) => Err(ParseGitError::InvalidUrl),
        Err(LocatorError::Attribute(e)) => Err(ParseGitError::Attribute(e)),
    }
}

/// The git reference that `s` spells.
pub open spec fn parse_git(s: Seq<char>) -> Result<GitView, ParseGitError> {
    match git_header(s) {
        Some(header) => parse_git_based(header),
        None => Err(ParseGitError::UnsupportedScheme),
    }
}

/// The canonical spelling of a git reference.
pub open spec fn render_git(v: GitView) -> Seq<char> {
    git_prefix(v.transport) + render_locator(v.location, v.attributes)
}

/// Whether a git reference can be spelled: the location is not empty and
/// holds no `?`, and the attributes are well formed.
pub open spec fn git_well_formed(v: GitView) -> bool {
    &&& v.location.len() > 0
    &&& lacks(v.location, '?')
    &&& attributes_well_formed(v.attributes)
}

/// The characters of the qualifier.
pub proof fn lemma_git_name()
    ensures
        "git"@ == seq!['g', 'i', 't'],
{
    reveal_strlit("git");
    assert("git"@ =~= seq!['g', 'i', 't']);
}

/// A git header begins with `git+`.
pub proof fn lemma_git_header_begins(s: Seq<char>)
    requires
        git_header(s) is Some,
    ensures
        s.len() >= 4,
        s[0] == 'g' && s[1] == 'i' && s[2] == 't' && s[3] == '+',
{
    lemma_git_name();
    lemma_schemes();
    let h = git_header(s)->0;
    lemma_prefix_chars(s, git_prefix(h.transport));
}

/// The git reference that a string spells is well formed.
pub proof fn lemma_git_well_formed(s: Seq<char>)
    ensures
        parse_git(s) matches Ok(v) ==> git_well_formed(v),
{
    if let Some(h) = git_header(s) {
        lemma_locator_well_formed(h.rest);
    }
}

/// The canonical spelling of a git reference has the header of that
/// reference.
pub proof fn lemma_git_header_of_rendered(v: GitView)
    ensures
        git_header(render_git(v)) == Some(
            GitHeader { transport: v.transport, rest: render_locator(v.location, v.attributes) },
        ),
        render_git(v).len() >= 4,
        render_git(v)[0] == 'g',
{
    lemma_git_name();
    lemma_schemes();
    let rest = render_locator(v.location, v.attributes);
    let s = render_git(v);
    let own = git_prefix(v.transport);
    lemma_after_prefix(own, rest);
    lemma_prefix_chars(s, own);
    assert forall|t: Transport| t != v.transport implies git_as(s, t) is None by {
        let other = git_prefix(t);
        let both_http = (t == Transport::HTTP || t == Transport::HTTPS) && (v.transport
            == Transport::HTTP || v.transport == Transport::HTTPS);
        let k: int = if both_http {
            8
        } else {
            4
        };
        lemma_not_prefix(s, other, k);
    }
}

/// Reading the canonical spelling of a well-formed git reference gives the
/// reference back.
pub proof fn lemma_git_round_trip(v: GitView)
    requires
        git_well_formed(v),
        instants_read_back(v.attributes),
    ensures
        parse_git(render_git(v)) == Ok::<GitView, ParseGitError>(v),
{
    lemma_git_header_of_rendered(v);
    lemma_locator_round_trip(v.location, v.attributes);
}

/// A string with the header of a git reference and a plain tail is the
/// canonical spelling of what it spells.
pub proof fn lemma_plain_git_is_kept(s: Seq<char>)
    requires
        git_header(s) matches Some(header) && locator_is_plain(header.rest),
    ensures
        parse_git(s) matches Ok(v) ==> render_git(v) == s,
{
    let header = git_header(s)->0;
    lemma_plain_locator_is_kept(header.rest);
    lemma_prefix_parts(s, git_prefix(header.transport));
}

/// The executable form of a [`GitHeader`].
pub struct Header<'a> {
    pub transport: Transport,
    pub rest: &'a [char],
}

impl<'a> View for Header<'a> {
    type V = GitHeader;

    open spec fn view(&self) -> GitHeader {
        GitHeader { transport: self.transport, rest: self.rest@ }
    }
}

/// The view of a header that may be missing.
pub open spec fn header_view(h: Option<Header>) -> Option<GitHeader> {
    match h {
        Some(h) => Some(h@),
        None => None,
    }
}

fn read_git_as<'a>(s: &'a [char], transport: Transport) -> (r: Option<Header<'a>>)
    ensures
        header_view(r) == git_as(s@, transport),
{
    let mut prefix = String::new();
    prefix.append("git");
    prefix.append("+");
    prefix.append(transport.scheme_text());
    prefix.append(":");
    proof {
        reveal_strlit("+");
        reveal_strlit(":");
        assert(prefix@ =~= git_prefix(transport));
    }
    match strip_prefix(s, prefix.as_str()) {
        Some(rest) => Some(Header { transport, rest }),
        None => None,
    }
}

/// Reads the header of a git reference.
pub fn read_git_header<'a>(s: &'a [char]) -> (r: Option<Header<'a>>)
    ensures
        header_view(r) == git_header(s@),
{
    let h = read_git_as(s, Transport::File);
    if h.is_some() {
        return h;
    }
    let h = read_git_as(s, Transport::SSH);
    if h.is_some() {
        return h;
    }
    let h = read_git_as(s, Transport::HTTPS);
    if h.is_some() {
        return h;
    }
    read_git_as(s, Transport::HTTP)
}

impl GitRef {
    /// Whether `s` is shaped like a git reference: it begins with
    /// `git+file:`, `git+ssh:`, `git+https:` or `git+http:`.
    pub fn parses(s: &str) -> (r: bool)
        ensures
            r == git_header(s@) is Some,
    {
        let chars = to_chars(s);
        read_git_header(chars.as_slice()).is_some()
    }

    /// The reference that follows from a header.
    pub fn from_header(header: &Header) -> (r: Result<GitRef, ParseGitError>)
        ensures
            match r {
                Ok(v) => parse_git_based(header@) == Ok::<GitView, ParseGitError>(v@),
                Err(e) => parse_git_based(header@) == Err::<GitView, ParseGitError>(e),
            },
    {
        match read_locator(header.rest) {
            Ok(p) => Ok(GitRef { transport: header.transport, location: p.0, attributes: p.1 }),
            Err(LocatorError::Malformed) => Err(ParseGitError::InvalidUrl),
            Err(LocatorError::Attribute(e)) => Err(ParseGitError::Attribute(e)),
        }
    }

    /// Reads a git reference.
    pub fn from_str(s: &str) -> (r: Result<GitRef, ParseGitError>)
        ensures
            match r {
                Ok(v) => parse_git(s@) == Ok::<GitView, ParseGitError>(v@),
                Err(e) => parse_git(s@) == Err::<GitView, ParseGitError>(e),
            },
    {
        let chars = to_chars(s);
        match read_git_header(chars.as_slice()) {
            Some(header) => GitRef::from_header(&header),
            None => Err(ParseGitError::UnsupportedScheme),
        }
    }

    /// The canonical spelling.
    pub fn to_string(&self) -> (r: String)
        ensures
            r@ == render_git(self@),
    {
        let mut out = String::new();
        out.append("git");
        out.append("+");
        out.append(self.transport.scheme_text());
        out.append(":");
        proof {
            reveal_strlit("+");
            reveal_strlit(":");
            assert(out@ =~= git_prefix(self.transport));
        }
        write_locator(&mut out, &self.location, &self.attributes);
        out
    }
}

} // verus!
