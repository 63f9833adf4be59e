//! Shorthand references into a git hosting service:
//! `github:owner/repo` and the like.

use crate::flake_ref::attributes::{
    attributes_well_formed, instants_read_back, lemma_query_well_formed, parse_query,
    AttributeError, AttributeView, Attributes,
};
use crate::flake_ref::identifier::{is_flake_id, is_identifier, lemma_identifier_chars};
use crate::flake_ref::locator::{
    body_chars, body_of, lemma_plain_tail_is_kept, lemma_tail_round_trip, lemma_tail_well_formed,
    query_chars, query_of, render_tail, tail_is_plain, write_tail,
};
use crate::text::{
    after_prefix, join, lacks, lemma_after_prefix, lemma_not_prefix, lemma_prefix_chars,
    lemma_prefix_parts, lemma_split_join, lemma_split_lacks, lemma_split_pieces, optional_text,
    split, split_chars, strip_prefix, to_chars, to_string, views,
};
use vstd::prelude::*;

verus! {

/// The hosting services that have a shorthand.
#[derive(Debug, Clone, Copy, PartialEq, Eq, Hash, Structural)]
pub enum Service {
    Github,
    Gitlab,
}

/// A shorthand reference to a repository on a hosting service.
#[derive(Debug, Clone, PartialEq, Eq)]
pub struct GitServiceRef {
    pub service: Service,
    pub owner: String,
    pub repo: String,
    /// A branch, a tag or a commit, where the reference names one.
    pub rev_or_ref: Option<String>,
    /// `host` and whatever else was given.
    pub attributes: Attributes,
}

/// The model of a [`GitServiceRef`].
pub struct GitServiceView {
    pub service: Service,
    pub owner: Seq<char>,
    pub repo: Seq<char>,
    pub rev_or_ref: Option<Seq<char>>,
    pub attributes: Seq<AttributeView>,
}

impl View for GitServiceRef {
    type V = GitServiceView;

    open spec fn view(&self) -> GitServiceView {
        GitServiceView {
            service: self.service,
            owner: self.owner@,
            repo: self.repo@,
            rev_or_ref: optional_text(self.rev_or_ref),
            attributes: self.attributes@,
        }
    }
}

/// Why a string is no shorthand reference.
#[derive(Debug, Clone, Copy, PartialEq, Eq, Structural)]
pub enum ParseGitServiceError {
    /// The string does not begin with the name of a service and `:`.
    UnsupportedScheme,
    /// There are not two or three parts between `/`, or the third is empty.
    MalformedPath,
    /// The owner is no identifier.
    InvalidOwner,
    /// The repository is no identifier.
    InvalidRepo,
    /// The tail is no attribute set.
    Attribute(AttributeError),
}

/// The service and what follows its name, as the dispatcher sees them.
pub struct ServiceHeader {
    pub service: Service,
    pub rest: Seq<char>,
}

impl Service {
    /// The name of the service in a reference.
    pub open spec fn name(self) -> Seq<char> {
        match self {
            Service::Github => "github"@,
            Service::Gitlab => "gitlab"@,
        }
    }

    /// The name of the service in a reference.
    pub fn name_text(self) -> (r: &'static str)
        ensures
            r@ == self.name(),
    {
        match self {
            Service::Github => "github",
            Service::Gitlab => "gitlab",
        }
    }
}

/// The prefix of a shorthand reference: `github:` or `gitlab:`.
pub open spec fn service_prefix(service: Service) -> Seq<char> {
    service.name() + seq![':']
}

/// The header of `s` if it is spelled with this service.
pub open spec fn service_as(s: Seq<char>, service: Service) -> Option<ServiceHeader> {
    match after_prefix(s, service_prefix(service)) {
        Some(rest) => Some(ServiceHeader { service, rest }),
        None => None,
    }
}

/// The header of a shorthand reference.
pub open spec fn service_header(s: Seq<char>) -> Option<ServiceHeader> {
    if service_as(s, Service::Github) is Some {
        service_as(s, Service::Github)
    } else {
        service_as(s, Service::Gitlab)
    }
}

/// Owner, repository and revision in the part before the attributes. Owner
/// and repository must be identifiers; a revision, where a third part
/// stands, must not be empty.
pub open spec fn parse_service_body(body: Seq<char>) -> Result<
    (Seq<char>, Seq<char>, Option<Seq<char>>),
    ParseGitServiceError,
> {
    let parts = split(body, '/');
    if parts.len() < 2 || parts.len() > 3 {
        Err(ParseGitServiceError::MalformedPath)
    } else if !is_flake_id(parts[0]) {
        Err(ParseGitServiceError::InvalidOwner)
    } else if !is_flake_id(parts[1]) {
        Err(ParseGitServiceError::InvalidRepo)
    } else if parts.len() == 2 {
        Ok((parts[0], parts[1], None))
    } else if parts[2].len() == 0 {
        Err(ParseGitServiceError::MalformedPath)
    } else {
        Ok((parts[0], parts[1], Some(parts[2])))
    }
}

/// The reference that follows from a header.
pub open spec fn parse_service_based(header: ServiceHeader) -> Result<
    GitServiceView,
    ParseGitServiceError,
> {
    match parse_service_body(body_of(header.rest)) {
        Err(e) => Err(e),
        Ok(p) => match parse_query(query_of(header.rest)) {
            Err(e) => Err(ParseGitServiceError::Attribute(e)),
            Ok(attributes) => Ok(
                GitServiceView {
                    service: header.service,
                    owner: p.0,
                    repo: p.1,
                    rev_or_ref: p.2,
                    attributes,
                },
            ),
        },
    }
}

/// The shorthand reference that `s` spells.
pub open spec fn parse_git_service(s: Seq<char>) -> Result<GitServiceView, ParseGitServiceError> {
    match service_header(s) {
        Some(header) => parse_service_based(header),
        None => Err(ParseGitServiceError::UnsupportedScheme),
    }
}

/// The spelling of a revision after owner and repository.
pub open spec fn render_revision(rev_or_ref: Option<Seq<char>>) -> Seq<char> {
    match rev_or_ref {
        Some(r) => seq!['/'] + r,
        None => Seq::<char>::empty(),
    }
}

/// The canonical spelling of a shorthand reference.
pub open spec fn render_git_service(v: GitServiceView) -> Seq<char> {
    service_prefix(v.service) + v.owner + seq!['/'] + v.repo + render_revision(v.rev_or_ref)
        + render_tail(v.attributes)
}

/// Whether a revision can be spelled behind a `/`: it is not empty and
/// holds no `/`.
pub open spec fn revision_well_formed(rev_or_ref: Option<Seq<char>>) -> bool {
    rev_or_ref matches Some(r) ==> r.len() > 0 && lacks(r, '/')
}

/// Whether a shorthand reference can be spelled: owner and repository are
/// identifiers, a revision is not empty and holds neither `/` nor `?`, and
/// the attributes are well formed.
pub open spec fn git_service_well_formed(v: GitServiceView) -> bool {
    &&& is_flake_id(v.owner)
    &&& is_flake_id(v.repo)
    &&& revision_well_formed(v.rev_or_ref)
    &&& (v.rev_or_ref matches Some(r) ==> lacks(r, '?'))
    &&& attributes_well_formed(v.attributes)
}

/// The characters of the names of the services.
pub proof fn lemma_service_names()
    ensures
        "github"@ == seq!['g', 'i', 't', 'h', 'u', 'b'],
        "gitlab"@ == seq!['g', 'i', 't', 'l', 'a', 'b'],
{
    reveal_strlit("github");
    reveal_strlit("gitlab");
    assert("github"@ =~= seq!['g', 'i', 't', 'h', 'u', 'b']);
    assert("gitlab"@ =~= seq!['g', 'i', 't', 'l', 'a', 'b']);
}

/// A shorthand reference begins with `gith` or `gitl`.
pub proof fn lemma_service_header_begins(s: Seq<char>)
    requires
        service_header(s) is Some,
    ensures
        s.len() >= 7,
        s[0] == 'g' && s[1] == 'i' && s[2] == 't' && (s[3] == 'h' || s[3] == 'l'),
{
    lemma_service_names();
    let h = service_header(s)->0;
    lemma_prefix_chars(s, service_prefix(h.service));
}

/// The parts that a body spells are well formed: owner and repository are
/// identifiers, and the revision holds no `/`.
pub proof fn lemma_service_body_well_formed(body: Seq<char>)
    ensures
        parse_service_body(body) matches Ok(p) ==> is_flake_id(p.0) && is_flake_id(p.1)
            && revision_well_formed(p.2),
{
    lemma_split_pieces(body, '/');
}

/// The shorthand reference that a string spells is well formed.
pub proof fn lemma_git_service_well_formed(s: Seq<char>)
    ensures
        parse_git_service(s) matches Ok(v) ==> git_service_well_formed(v),
{
    if let Some(h) = service_header(s) {
        let body = body_of(h.rest);
        lemma_service_body_well_formed(body);
        lemma_tail_well_formed(h.rest);
        lemma_split_lacks(body, '/', '?');
        lemma_query_well_formed(query_of(h.rest));
    }
}

/// The spelling of owner, repository and revision reads back as the three.
pub proof fn lemma_service_body_round_trip(
    owner: Seq<char>,
    repo: Seq<char>,
    rev_or_ref: Option<Seq<char>>,
)
    requires
        is_flake_id(owner),
        is_flake_id(repo),
        revision_well_formed(rev_or_ref),
    ensures
        parse_service_body(owner + seq!['/'] + repo + render_revision(rev_or_ref)) == Ok::<
            (Seq<char>, Seq<char>, Option<Seq<char>>),
            ParseGitServiceError,
        >((owner, repo, rev_or_ref)),
{
    lemma_identifier_chars(owner);
    lemma_identifier_chars(repo);
    let body = owner + seq!['/'] + repo + render_revision(rev_or_ref);
    match rev_or_ref {
        Some(r) => {
            let parts = seq![owner, repo, r];
            assert(parts.skip(1) =~= seq![repo, r]);
            assert(parts.skip(1).skip(1) =~= seq![r]);
            assert(join(parts.skip(1).skip(1), '/') == r);
            assert(join(parts.skip(1), '/') == repo + seq!['/'] + r);
            assert(join(parts, '/') =~= body);
            lemma_split_join(parts, '/');
        },
        None => {
            let parts = seq![owner, repo];
            assert(parts.skip(1) =~= seq![repo]);
            assert(join(parts.skip(1), '/') == repo);
            assert(join(parts, '/') =~= body);
            lemma_split_join(parts, '/');
        },
    }
}

/// The canonical spelling of a shorthand reference has the header of that
/// reference.
pub proof fn lemma_service_header_of_rendered(v: GitServiceView)
    ensures
        service_header(render_git_service(v)) == Some(
            ServiceHeader {
                service: v.service,
                rest: v.owner + seq!['/'] + v.repo + render_revision(v.rev_or_ref) + render_tail(
                    v.attributes,
                ),
            },
        ),
        render_git_service(v).len() >= 7,
        render_git_service(v)[0] == 'g',
        render_git_service(v)[3] == 'h' || render_git_service(v)[3] == 'l',
{
    lemma_service_names();
    let rest = v.owner + seq!['/'] + v.repo + render_revision(v.rev_or_ref) + render_tail(
        v.attributes,
    );
    let s = render_git_service(v);
    let own = service_prefix(v.service);
    assert(s =~= own + rest);
    lemma_after_prefix(own, rest);
    lemma_prefix_chars(s, own);
    assert forall|other: Service| other != v.service implies service_as(s, other) is None by {
        lemma_not_prefix(s, service_prefix(other), 3);
    }
}

/// Reading the canonical spelling of a well-formed shorthand reference
/// gives the reference back.
pub proof fn lemma_git_service_round_trip(v: GitServiceView)
    requires
        git_service_well_formed(v),
        instants_read_back(v.attributes),
    ensures
        parse_git_service(render_git_service(v)) == Ok::<GitServiceView, ParseGitServiceError>(v),
{
    lemma_service_header_of_rendered(v);
    lemma_service_body_round_trip(v.owner, v.repo, v.rev_or_ref);
    lemma_identifier_chars(v.owner);
    lemma_identifier_chars(v.repo);
    let body = v.owner + seq!['/'] + v.repo + render_revision(v.rev_or_ref);
    assert(lacks(body, '?'));
    lemma_tail_round_trip(body, v.attributes);
}

/// The parts between `/` that a body has, joined again, are the body.
pub proof fn lemma_parts_are_kept(body: Seq<char>)
    ensures
        split(body, '/').len() == 1 ==> split(body, '/')[0] == body,
        split(body, '/').len() == 2 ==> split(body, '/')[0] + seq!['/'] + split(body, '/')[1]
            == body,
        split(body, '/').len() == 3 ==> split(body, '/')[0] + seq!['/'] + split(body, '/')[1]
            + seq!['/'] + split(body, '/')[2] == body,
{
    let parts = split(body, '/');
    lemma_split_pieces(body, '/');
    if parts.len() == 2 {
        assert(parts.skip(1)[0] == parts[1]);
        assert(join(parts.skip(1), '/') == parts[1]);
    } else if parts.len() == 3 {
        let rest = parts.skip(1);
        assert(rest[0] == parts[1]);
        assert(rest.skip(1)[0] == parts[2]);
        assert(join(rest.skip(1), '/') == parts[2]);
        assert(join(rest, '/') == parts[1] + seq!['/'] + parts[2]);
        assert(parts[0] + seq!['/'] + (parts[1] + seq!['/'] + parts[2]) =~= parts[0] + seq!['/']
            + parts[1] + seq!['/'] + parts[2]);
    }
}

/// A string with the header of a shorthand reference and a plain tail is
/// the canonical spelling of what it spells.
pub proof fn lemma_plain_git_service_is_kept(s: Seq<char>)
    requires
        service_header(s) matches Some(header) && tail_is_plain(header.rest),
    ensures
        parse_git_service(s) matches Ok(v) ==> render_git_service(v) == s,
{
    let header = service_header(s)->0;
    lemma_prefix_parts(s, service_prefix(header.service));
    lemma_plain_tail_is_kept(header.rest);
    lemma_parts_are_kept(body_of(header.rest));
    if let Ok(v) = parse_git_service(s) {
        let body = v.owner + seq!['/'] + v.repo + render_revision(v.rev_or_ref);
        assert(body =~= body_of(header.rest));
        assert(render_git_service(v) =~= service_prefix(header.service) + (body + render_tail(
            v.attributes,
        )));
    }
}

/// The executable form of a [`ServiceHeader`].
pub struct Header<'a> {
    pub service: Service,
    pub rest: &'a [char],
}

impl<'a> View for Header<'a> {
    type V = ServiceHeader;

    open spec fn view(&self) -> ServiceHeader {
        ServiceHeader { service: self.service, rest: self.rest@ }
    }
}

/// The view of a header that may be missing.
pub open spec fn header_view(h: Option<Header>) -> Option<ServiceHeader> {
    match h {
        Some(h) => Some(h@),
        None => None,
    }
}

fn read_service_as<'a>(s: &'a [char], service: Service) -> (r: Option<Header<'a>>)
    ensures
        header_view(r) == service_as(s@, service),
{
    let mut prefix = String::new();
    prefix.append(service.name_text());
    prefix.append(":");
    proof {
        reveal_strlit(":");
        assert(prefix@ =~= service_prefix(service));
    }
    match strip_prefix(s, prefix.as_str()) {
        Some(rest) => Some(Header { service, rest }),
        None => None,
    }
}

/// Reads the header of a shorthand reference.
pub fn read_service_header<'a>(s: &'a [char]) -> (r: Option<Header<'a>>)
    ensures
        header_view(r) == service_header(s@),
{
    let h = read_service_as(s, Service::Github);
    if h.is_some() {
        return h;
    }
    read_service_as(s, Service::Gitlab)
}

/// Appends the spelling of a revision to `out`.
pub fn write_revision(out: &mut String, rev_or_ref: &Option<String>)
    ensures
        final(out)@ == old(out)@ + render_revision(optional_text(*rev_or_ref)),
{
    match rev_or_ref {
        Some(r) => {
            let ghost start = out@;
            out.append("/");
            proof {
                reveal_strlit("/");
                assert("/"@ =~= seq!['/']);
            }
            out.append(r.as_str());
            assert(out@ == start + (seq!['/'] + r@));
        },
        None => {
            assert(out@ + Seq::<char>::empty() == out@);
        },
    }
}

fn read_service_body(body: &[char]) -> (r: Result<
    (String, String, Option<String>),
    ParseGitServiceError,
>)
    ensures
        match r {
            Ok(p) => parse_service_body(body@) == Ok::<
                (Seq<char>, Seq<char>, Option<Seq<char>>),
                ParseGitServiceError,
            >((p.0@, p.1@, optional_text(p.2))),
            Err(e) => parse_service_body(body@) == Err::<
                (Seq<char>, Seq<char>, Option<Seq<char>>),
                ParseGitServiceError,
            >(e),
        },
{
    let parts = split_chars(body, '/');
    if parts.len() < 2 || parts.len() > 3 {
        return Err(ParseGitServiceError::MalformedPath);
    }
    assert(views(parts@)[0] == parts@[0]@);
    assert(views(parts@)[1] == parts@[1]@);
    if !is_identifier(parts[0]) {
        return Err(ParseGitServiceError::InvalidOwner);
    }
    if !is_identifier(parts[1]) {
        return Err(ParseGitServiceError::InvalidRepo);
    }
    if parts.len() == 2 {
        return Ok((to_string(parts[0]), to_string(parts[1]), None));
    }
    assert(views(parts@)[2] == parts@[2]@);
    if parts[2].len() == 0 {
        return Err(ParseGitServiceError::MalformedPath);
    }
    Ok((to_string(parts[0]), to_string(parts[1]), Some(to_string(parts[2]))))
}

impl GitServiceRef {
    /// Whether `s` is shaped like a shorthand reference: it begins with
    /// `github:` or `gitlab:`.
    pub fn parses(s: &str) -> (r: bool)
        ensures
            r == service_header(s@) is Some,
    {
        let chars = to_chars(s);
        read_service_header(chars.as_slice()).is_some()
    }

    /// The reference that follows from a header.
    pub fn from_header(header: &Header) -> (r: Result<GitServiceRef, ParseGitServiceError>)
        ensures
            match r {
                Ok(v) => parse_service_based(header@) == Ok::<
                    GitServiceView,
                    ParseGitServiceError,
                >(v@),
                Err(e) => parse_service_based(header@) == Err::<
                    GitServiceView,
                    ParseGitServiceError,
                >(e),
            },
    {
        match read_service_body(body_chars(header.rest)) {
            Err(e) => Err(e),
            Ok(p) => match Attributes::parse(query_chars(header.rest)) {
                Err(e) => Err(ParseGitServiceError::Attribute(e)),
                Ok(attributes) => Ok(
                    GitServiceRef {
                        service: header.service,
                        owner: p.0,
                        repo: p.1,
                        rev_or_ref: p.2,
                        attributes,
                    },
                ),
            },
        }
    }

    /// Reads a shorthand reference.
    pub fn from_str(s: &str) -> (r: Result<GitServiceRef, ParseGitServiceError>)
        ensures
            match r {
                Ok(v) => parse_git_service(s@) == Ok::<GitServiceView, ParseGitServiceError>(v@),
                Err(e) => parse_git_service(s@) == Err::<GitServiceView, ParseGitServiceError>(e),
            },
    {
        let chars = to_chars(s);
        match read_service_header(chars.as_slice()) {
            Some(header) => GitServiceRef::from_header(&header),
            None => Err(ParseGitServiceError::UnsupportedScheme),
        }
    }

    /// The canonical spelling.
    pub fn to_string(&self) -> (r: String)
        ensures
            r@ == render_git_service(self@),
    {
        let mut out = String::new();
        out.append(self.service.name_text());
        out.append(":");
        out.append(self.owner.as_str());
        out.append("/");
        out.append(self.repo.as_str());
        proof {
            reveal_strlit(":");
            reveal_strlit("/");
            assert(out@ =~= service_prefix(self.service) + self.owner@ + seq!['/'] + self.repo@);
        }
        write_revision(&mut out, &self.rev_or_ref);
        write_tail(&mut out, &self.attributes);
        out
    }
}

} // verus!
