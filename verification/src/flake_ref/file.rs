//! References to a plain file and to an archive, reached from the local
//! disk or over HTTP(S).
//!
//! Both are spelled as a URL. A qualifier before the scheme (`file+` or
//! `tarball+`) says which of the two is meant; without a qualifier the
//! ending of the location decides.

use crate::flake_ref::attributes::{
    attributes_well_formed, instants_read_back, AttributeError, AttributeView, Attributes,
};
use crate::flake_ref::locator::{
    body_chars, body_of, lemma_locator_round_trip, lemma_locator_well_formed,
    lemma_plain_locator_is_kept, lemma_tail_round_trip, locator_is_plain, parse_locator,
    read_locator, render_locator, render_tail, write_locator, LocatorError,
};
use crate::flake_ref::protocol::{lemma_schemes, Transport};
use crate::text::{
    after_prefix, ends_with, find, find_char, has_prefix, has_suffix, lacks, lemma_after_prefix,
    lemma_not_prefix, lemma_prefix_chars, lemma_prefix_parts, skip_chars, starts_with,
    strip_prefix, to_chars,
};
use vstd::prelude::*;

verus! {

/// What is done with the fetched file.
#[derive(Debug, Clone, Copy, PartialEq, Eq, Hash, Structural)]
pub enum Application {
    /// It is kept as it is.
    File,
    /// It is unpacked.
    Tarball,
}

/// A reference to a plain file.
#[derive(Debug, Clone, PartialEq, Eq)]
pub struct FileRef {
    pub transport: Transport,
    /// Whether the reference is spelled with the `file+` qualifier.
    pub qualified: bool,
    /// What follows `//` in the URL, up to the attributes.
    pub location: String,
    pub attributes: Attributes,
}

/// A reference to an archive.
#[derive(Debug, Clone, PartialEq, Eq)]
pub struct TarballRef {
    pub transport: Transport,
    /// Whether the reference is spelled with the `tarball+` qualifier.
    pub qualified: bool,
    /// What follows `//` in the URL, up to the attributes.
    pub location: String,
    pub attributes: Attributes,
}

/// The model of a [`FileRef`] and of a [`TarballRef`].
pub struct FileBasedView {
    pub transport: Transport,
    pub qualified: bool,
    pub location: Seq<char>,
    pub attributes: Seq<AttributeView>,
}

impl View for FileRef {
    type V = FileBasedView;

    open spec fn view(&self) -> FileBasedView {
        FileBasedView {
            transport: self.transport,
            qualified: self.qualified,
            location: self.location@,
            attributes: self.attributes@,
        }
    }
}

impl View for TarballRef {
    type V = FileBasedView;

    open spec fn view(&self) -> FileBasedView {
        FileBasedView {
            transport: self.transport,
            qualified: self.qualified,
            location: self.location@,
            attributes: self.attributes@,
        }
    }
}

/// Why a string is no reference to a file or an archive.
#[derive(Debug, Clone, Copy, PartialEq, Eq, Structural)]
pub enum ParseFileError {
    /// The scheme is not one under which this kind of reference is spelled.
    UnsupportedScheme,
    /// The `//` is missing after the scheme, or the location is empty.
    InvalidUrl,
    /// The tail is no attribute set.
    Attribute(AttributeError),
}

/// The scheme and what follows it, as the dispatcher sees them.
pub struct FileHeader {
    pub application: Application,
    pub transport: Transport,
    pub qualified: bool,
    pub rest: Seq<char>,
}

impl Application {
    /// The qualifier that names the application.
    pub open spec fn name(self) -> Seq<char> {
        match self {
            Application::File => "file"@,
            Application::Tarball => "tarball"@,
        }
    }

    /// The qualifier that names the application.
    pub fn name_text(self) -> (r: &'static str)
        ensures
            r@ == self.name(),
    {
        match self {
            Application::File => "file",
            Application::Tarball => "tarball",
        }
    }
}

/// The prefix of a qualified reference: `file+https:` and the like.
pub open spec fn qualified_prefix(application: Application, transport: Transport) -> Seq<char> {
    application.name() + seq!['+'] + transport.scheme() + seq![':']
}

/// The prefix of a reference without qualifier: `https:` and the like.
pub open spec fn bare_prefix(transport: Transport) -> Seq<char> {
    transport.scheme() + seq![':']
}

/// Whether a location ends like an archive.
pub open spec fn is_archive(location: Seq<char>) -> bool {
    ||| ends_with(location, ".zip"@)
    ||| ends_with(location, ".tar"@)
    ||| ends_with(location, ".tgz"@)
    ||| ends_with(location, ".tar.gz"@)
    ||| ends_with(location, ".tar.xz"@)
    ||| ends_with(location, ".tar.bz2"@)
    ||| ends_with(location, ".tar.zst"@)
}

/// The path inside a location: what stands from its first `/` on, behind
/// the host. A location without `/` has no path.
pub open spec fn path_part(location: Seq<char>) -> Seq<char> {
    location.skip(find(location, '/'))
}

/// The path component of the URL that `rest` spells behind its scheme.
pub open spec fn url_path(rest: Seq<char>) -> Seq<char> {
    if starts_with(rest, seq!['/', '/']) {
        path_part(body_of(rest.skip(2)))
    } else {
        body_of(rest)
    }
}

/// The application that the ending of the path component suggests.
pub open spec fn sniffed(rest: Seq<char>) -> Application {
    if is_archive(url_path(rest)) {
        Application::Tarball
    } else {
        Application::File
    }
}

/// The header of `s` if it is spelled with this qualifier and scheme.
pub open spec fn qualified_as(s: Seq<char>, application: Application, transport: Transport) -> Option<
    FileHeader,
> {
    match after_prefix(s, qualified_prefix(application, transport)) {
        Some(rest) => Some(FileHeader { application, transport, qualified: true, rest }),
        None => None,
    }
}

/// The header of `s` if it is spelled with this scheme and no qualifier.
pub open spec fn bare_as(s: Seq<char>, transport: Transport) -> Option<FileHeader> {
    match after_prefix(s, bare_prefix(transport)) {
        Some(rest) => Some(
            FileHeader { application: sniffed(rest), transport, qualified: false, rest },
        ),
        None => None,
    }
}

/// The header of a reference that names its application: `file+` or
/// `tarball+`, then `file:`, `http:` or `https:`.
pub open spec fn qualified_header(s: Seq<char>) -> Option<FileHeader> {
    if qualified_as(s, Application::File, Transport::File) is Some {
        qualified_as(s, Application::File, Transport::File)
    } else if qualified_as(s, Application::File, Transport::HTTP) is Some {
        qualified_as(s, Application::File, Transport::HTTP)
    } else if qualified_as(s, Application::File, Transport::HTTPS) is Some {
        qualified_as(s, Application::File, Transport::HTTPS)
    } else if qualified_as(s, Application::Tarball, Transport::File) is Some {
        qualified_as(s, Application::Tarball, Transport::File)
    } else if qualified_as(s, Application::Tarball, Transport::HTTP) is Some {
        qualified_as(s, Application::Tarball, Transport::HTTP)
    } else {
        qualified_as(s, Application::Tarball, Transport::HTTPS)
    }
}

/// The header of a reference that begins with `file:`, `http:` or `https:`.
/// The application is the one that the ending of the path suggests.
pub open spec fn bare_header(s: Seq<char>) -> Option<FileHeader> {
    if bare_as(s, Transport::File) is Some {
        bare_as(s, Transport::File)
    } else if bare_as(s, Transport::HTTP) is Some {
        bare_as(s, Transport::HTTP)
    } else {
        bare_as(s, Transport::HTTPS)
    }
}

/// The header of a reference to a file or an archive, qualified or not.
pub open spec fn file_header(s: Seq<char>) -> Option<FileHeader> {
    if qualified_header(s) is Some {
        qualified_header(s)
    } else {
        bare_header(s)
    }
}

/// The reference that follows from a header.
pub open spec fn parse_file_based(header: FileHeader) -> Result<FileBasedView, ParseFileError> {
    match parse_locator(header.rest) {
        Ok(p) => Ok(
            FileBasedView {
                transport: header.transport,
                qualified: header.qualified,
                location: p.0,
                attributes: p.1,
            },
        ),
        Err(LocatorError::Malformed) => Err(ParseFileError::InvalidUrl),
        Err(LocatorError::Attribute(e)) => Err(ParseFileError::Attribute(e)),
    }
}

/// The reference of the given application that `s` spells.
pub open spec fn parse_as(s: Seq<char>, application: Application) -> Result<
    FileBasedView,
    ParseFileError,
> {
    match file_header(s) {
        Some(header) => if header.application == application {
            parse_file_based(header)
        } else {
            Err(ParseFileError::UnsupportedScheme)
        },
        None => Err(ParseFileError::UnsupportedScheme),
    }
}

/// The canonical spelling of a reference to a file or an archive.
pub open spec fn render_file_based(application: Application, v: FileBasedView) -> Seq<char> {
    (if v.qualified {
        qualified_prefix(application, v.transport)
    } else {
        bare_prefix(v.transport)
    }) + render_locator(v.location, v.attributes)
}

/// Whether a reference to a file or an archive can be spelled: the
/// transport is not SSH, the location is not empty and holds no `?`, the
/// attributes are well formed, and without qualifier the ending of the
/// path says what the reference is.
pub open spec fn file_well_formed(application: Application, v: FileBasedView) -> bool {
    &&& v.transport != Transport::SSH
    &&& v.location.len() > 0
    &&& lacks(v.location, '?')
    &&& attributes_well_formed(v.attributes)
    &&& (!v.qualified ==> (is_archive(path_part(v.location)) <==> application
        == Application::Tarball))
}

/// The characters of the two qualifiers.
pub proof fn lemma_applications()
    ensures
        "file"@ == seq!['f', 'i', 'l', 'e'],
        "tarball"@ == seq!['t', 'a', 'r', 'b', 'a', 'l', 'l'],
{
    reveal_strlit("file");
    reveal_strlit("tarball");
    assert("file"@ =~= seq!['f', 'i', 'l', 'e']);
    assert("tarball"@ =~= seq!['t', 'a', 'r', 'b', 'a', 'l', 'l']);
}

/// A qualified header begins with `file+` or with `tarball+`.
pub proof fn lemma_qualified_header_begins(s: Seq<char>)
    requires
        qualified_header(s) is Some,
    ensures
        s.len() >= 5,
        (s[0] == 'f' && s[1] == 'i' && s[4] == '+') || s[0] == 't',
        qualified_header(s)->0.qualified,
        qualified_header(s)->0.transport != Transport::SSH,
{
    lemma_applications();
    lemma_schemes();
    let h = qualified_header(s)->0;
    lemma_prefix_chars(s, qualified_prefix(h.application, h.transport));
}

/// A header without qualifier begins with `file:` or with `http`.
pub proof fn lemma_bare_header_begins(s: Seq<char>)
    requires
        bare_header(s) is Some,
    ensures
        s.len() >= 5,
        (s[0] == 'f' && s[1] == 'i' && s[4] == ':') || s[0] == 'h',
        !bare_header(s)->0.qualified,
        bare_header(s)->0.transport != Transport::SSH,
{
    lemma_schemes();
    let h = bare_header(s)->0;
    lemma_prefix_chars(s, bare_prefix(h.transport));
}

/// What a header of a file or an archive leads to is well formed.
pub proof fn lemma_file_header_well_formed(s: Seq<char>)
    ensures
        file_header(s) matches Some(h) ==> (parse_file_based(h) matches Ok(v)
            ==> file_well_formed(h.application, v)),
{
    if let Some(h) = file_header(s) {
        lemma_locator_well_formed(h.rest);
        if let Ok(v) = parse_file_based(h) {
            if qualified_header(s) is Some {
                lemma_qualified_header_begins(s);
            } else {
                lemma_bare_header_begins(s);
            }
        }
    }
}

/// A qualifier decides: a string that begins with a qualifier and the
/// scheme of a transport is what the qualifier says, however it ends.
pub proof fn lemma_qualified_header_of(
    application: Application,
    transport: Transport,
    rest: Seq<char>,
)
    requires
        transport != Transport::SSH,
    ensures
        qualified_header(qualified_prefix(application, transport) + rest) == Some(
            FileHeader { application, transport, qualified: true, rest },
        ),
        file_header(qualified_prefix(application, transport) + rest) == Some(
            FileHeader { application, transport, qualified: true, rest },
        ),
{
    lemma_applications();
    lemma_schemes();
    let own = qualified_prefix(application, transport);
    let s = own + rest;
    lemma_after_prefix(own, rest);
    lemma_prefix_chars(s, own);
    assert forall|a: Application, t: Transport|
        (a != application || t != transport) && t != Transport::SSH implies qualified_as(s, a, t)
        is None by {
        let k: int = if a != application {
            0
        } else {
            let o: int = if a == Application::File {
                5
            } else {
                8
            };
            if t == Transport::File || transport == Transport::File {
                o
            } else {
                o + 4
            }
        };
        lemma_not_prefix(s, qualified_prefix(a, t), k);
    }
}

/// A string that begins with the scheme of a transport has the bare
/// header of that transport.
pub proof fn lemma_bare_header_of(transport: Transport, rest: Seq<char>)
    requires
        transport != Transport::SSH,
    ensures
        bare_header(bare_prefix(transport) + rest) == Some(
            FileHeader { application: sniffed(rest), transport, qualified: false, rest },
        ),
{
    lemma_schemes();
    let own = bare_prefix(transport);
    let s = own + rest;
    lemma_after_prefix(own, rest);
    lemma_prefix_chars(s, own);
    assert forall|t: Transport| t != transport && t != Transport::SSH implies bare_as(s, t)
        is None by {
        let k: int = if t == Transport::File || transport == Transport::File {
            0
        } else {
            4
        };
        lemma_not_prefix(s, bare_prefix(t), k);
    }
}

/// The path component of a spelled location is the path inside the
/// location.
pub proof fn lemma_url_path_of_rendered(location: Seq<char>, attributes: Seq<AttributeView>)
    requires
        lacks(location, '?'),
        attributes_well_formed(attributes),
        instants_read_back(attributes),
    ensures
        url_path(render_locator(location, attributes)) == path_part(location),
{
    let rest = render_locator(location, attributes);
    let tail = location + render_tail(attributes);
    assert(rest =~= seq!['/', '/'] + tail);
    assert(rest.take(2) =~= seq!['/', '/']);
    assert(rest.skip(2) =~= tail);
    lemma_tail_round_trip(location, attributes);
}

/// The canonical spelling of a well-formed reference has the header of
/// that reference.
pub proof fn lemma_file_header_of_rendered(application: Application, v: FileBasedView)
    requires
        file_well_formed(application, v),
        instants_read_back(v.attributes),
    ensures
        v.qualified ==> qualified_header(render_file_based(application, v)) == Some(
            FileHeader {
                application,
                transport: v.transport,
                qualified: true,
                rest: render_locator(v.location, v.attributes),
            },
        ),
        !v.qualified ==> qualified_header(render_file_based(application, v)) is None
            && bare_header(render_file_based(application, v)) == Some(
            FileHeader {
                application,
                transport: v.transport,
                qualified: false,
                rest: render_locator(v.location, v.attributes),
            },
        ),
        render_file_based(application, v).len() >= 5,
        render_file_based(application, v)[0] == 'f' || render_file_based(application, v)[0] == 'h'
            || render_file_based(application, v)[0] == 't',
{
    lemma_applications();
    lemma_schemes();
    let rest = render_locator(v.location, v.attributes);
    let s = render_file_based(application, v);
    lemma_url_path_of_rendered(v.location, v.attributes);
    if v.qualified {
        lemma_qualified_header_of(application, v.transport, rest);
        lemma_prefix_chars(s, qualified_prefix(application, v.transport));
    } else {
        lemma_bare_header_of(v.transport, rest);
        lemma_prefix_chars(s, bare_prefix(v.transport));
        if qualified_header(s) is Some {
            lemma_qualified_header_begins(s);
        }
    }
}

/// Reading the canonical spelling of a well-formed reference to a file or
/// an archive gives the reference back.
pub proof fn lemma_file_round_trip(application: Application, v: FileBasedView)
    requires
        file_well_formed(application, v),
        instants_read_back(v.attributes),
    ensures
        parse_as(render_file_based(application, v), application) == Ok::<
            FileBasedView,
            ParseFileError,
        >(v),
{
    lemma_file_header_of_rendered(application, v);
    lemma_locator_round_trip(v.location, v.attributes);
}

/// A string with the header of a file or an archive and a plain tail is
/// the canonical spelling of what it spells.
pub proof fn lemma_plain_file_is_kept(s: Seq<char>, header: FileHeader)
    requires
        qualified_header(s) == Some(header) || bare_header(s) == Some(header),
        locator_is_plain(header.rest),
    ensures
        parse_file_based(header) matches Ok(v) ==> render_file_based(header.application, v) == s,
{
    lemma_plain_locator_is_kept(header.rest);
    if qualified_header(s) == Some(header) {
        lemma_prefix_parts(s, qualified_prefix(header.application, header.transport));
    } else {
        lemma_prefix_parts(s, bare_prefix(header.transport));
    }
}

/// The executable form of a [`FileHeader`].
pub struct Header<'a> {
    pub application: Application,
    pub transport: Transport,
    pub qualified: bool,
    pub rest: &'a [char],
}

impl<'a> View for Header<'a> {
    type V = FileHeader;

    open spec fn view(&self) -> FileHeader {
        FileHeader {
            application: self.application,
            transport: self.transport,
            qualified: self.qualified,
            rest: self.rest@,
        }
    }
}

/// The view of a header that may be missing.
pub open spec fn header_view(h: Option<Header>) -> Option<FileHeader> {
    match h {
        Some(h) => Some(h@),
        None => None,
    }
}

fn has_archive_ending(location: &[char]) -> (r: bool)
    ensures
        r == is_archive(location@),
{
    has_suffix(location, ".zip") || has_suffix(location, ".tar") || has_suffix(location, ".tgz")
        || has_suffix(location, ".tar.gz") || has_suffix(location, ".tar.xz") || has_suffix(
        location,
        ".tar.bz2",
    ) || has_suffix(location, ".tar.zst")
}

fn path_chars<'a>(rest: &'a [char]) -> (r: &'a [char])
    ensures
        r@ == url_path(rest@),
{
    proof {
        reveal_strlit("//");
        assert("//"@ =~= seq!['/', '/']);
    }
    if has_prefix(rest, "//") {
        let location = body_chars(skip_chars(rest, 2));
        let i: usize = find_char(location, '/');
        skip_chars(location, i)
    } else {
        body_chars(rest)
    }
}

fn read_qualified_as<'a>(s: &'a [char], application: Application, transport: Transport) -> (r:
    Option<Header<'a>>)
    ensures
        header_view(r) == qualified_as(s@, application, transport),
{
    let mut prefix = String::new();
    prefix.append(application.name_text());
    prefix.append("+");
    prefix.append(transport.scheme_text());
    prefix.append(":");
    proof {
        reveal_strlit("+");
        reveal_strlit(":");
        assert(prefix@ =~= qualified_prefix(application, transport));
    }
    match strip_prefix(s, prefix.as_str()) {
        Some(rest) => Some(Header { application, transport, qualified: true, rest }),
        None => None,
    }
}

fn read_bare_as<'a>(s: &'a [char], transport: Transport) -> (r: Option<Header<'a>>)
    ensures
        header_view(r) == bare_as(s@, transport),
{
    let mut prefix = String::new();
    prefix.append(transport.scheme_text());
    prefix.append(":");
    proof {
        reveal_strlit(":");
        assert(prefix@ =~= bare_prefix(transport));
    }
    match strip_prefix(s, prefix.as_str()) {
        Some(rest) => {
            let application = if has_archive_ending(path_chars(rest)) {
                Application::Tarball
            } else {
                Application::File
            };
            Some(Header { application, transport, qualified: false, rest })
        },
        None => None,
    }
}

/// Reads the header of a reference that names its application.
pub fn read_qualified_header<'a>(s: &'a [char]) -> (r: Option<Header<'a>>)
    ensures
        header_view(r) == qualified_header(s@),
{
    let h = read_qualified_as(s, Application::File, Transport::File);
    if h.is_some() {
        return h;
    }
    let h = read_qualified_as(s, Application::File, Transport::HTTP);
    if h.is_some() {
        return h;
    }
    let h = read_qualified_as(s, Application::File, Transport::HTTPS);
    if h.is_some() {
        return h;
    }
    let h = read_qualified_as(s, Application::Tarball, Transport::File);
    if h.is_some() {
        return h;
    }
    let h = read_qualified_as(s, Application::Tarball, Transport::HTTP);
    if h.is_some() {
        return h;
    }
    read_qualified_as(s, Application::Tarball, Transport::HTTPS)
}

/// Reads the header of a reference without qualifier.
pub fn read_bare_header<'a>(s: &'a [char]) -> (r: Option<Header<'a>>)
    ensures
        header_view(r) == bare_header(s@),
{
    let h = read_bare_as(s, Transport::File);
    if h.is_some() {
        return h;
    }
    let h = read_bare_as(s, Transport::HTTP);
    if h.is_some() {
        return h;
    }
    read_bare_as(s, Transport::HTTPS)
}

/// Reads the header of a reference to a file or an archive.
pub fn read_file_header<'a>(s: &'a [char]) -> (r: Option<Header<'a>>)
    ensures
        header_view(r) == file_header(s@),
{
    let h = read_qualified_header(s);
    if h.is_some() {
        return h;
    }
    read_bare_header(s)
}

fn read_file_based(header: &Header) -> (r: Result<(String, Attributes), ParseFileError>)
    ensures
        match r {
            Ok(p) => parse_file_based(header@) == Ok::<FileBasedView, ParseFileError>(
                FileBasedView {
                    transport: header.transport,
                    qualified: header.qualified,
                    location: p.0@,
                    attributes: p.1@,
                },
            ),
            Err(e) => parse_file_based(header@) == Err::<FileBasedView, ParseFileError>(e),
        },
{
    match read_locator(header.rest) {
        Ok(p) => Ok(p),
        Err(LocatorError::Malformed) => Err(ParseFileError::InvalidUrl),
        Err(LocatorError::Attribute(e)) => Err(ParseFileError::Attribute(e)),
    }
}

fn write_file_based(
    application: Application,
    transport: Transport,
    qualified: bool,
    location: &String,
    attributes: &Attributes,
) -> (r: String)
    ensures
        r@ == render_file_based(
            application,
            FileBasedView {
                transport,
                qualified,
                location: location@,
                attributes: attributes@,
            },
        ),
{
    let mut out = String::new();
    if qualified {
        out.append(application.name_text());
        out.append("+");
    }
    out.append(transport.scheme_text());
    out.append(":");
    proof {
        reveal_strlit("+");
        reveal_strlit(":");
        assert(out@ =~= if qualified {
            qualified_prefix(application, transport)
        } else {
            bare_prefix(transport)
        });
    }
    write_locator(&mut out, location, attributes);
    out
}

impl FileRef {
    /// Whether `s` is shaped like a reference to a plain file: it begins
    /// with `file+file:`, `file+http:` or `file+https:`, or with a bare
    /// `file:`, `http:` or `https:` and its location does not end like an
    /// archive.
    pub fn parses(s: &str) -> (r: bool)
        ensures
            r == (file_header(s@) matches Some(h) && h.application == Application::File),
    {
        let chars = to_chars(s);
        match read_file_header(chars.as_slice()) {
            Some(h) => h.application == Application::File,
            None => false,
        }
    }

    /// The reference that follows from a header of application `File`.
    pub fn from_header(header: &Header) -> (r: Result<FileRef, ParseFileError>)
        ensures
            match r {
                Ok(v) => parse_file_based(header@) == Ok::<FileBasedView, ParseFileError>(v@),
                Err(e) => parse_file_based(header@) == Err::<FileBasedView, ParseFileError>(e),
            },
    {
        match read_file_based(header) {
            Ok(p) => Ok(
                FileRef {
                    transport: header.transport,
                    qualified: header.qualified,
                    location: p.0,
                    attributes: p.1,
                },
            ),
            Err(e) => Err(e),
        }
    }

    /// Reads a reference to a plain file.
    pub fn from_str(s: &str) -> (r: Result<FileRef, ParseFileError>)
        ensures
            match r {
                Ok(v) => parse_as(s@, Application::File) == Ok::<FileBasedView, ParseFileError>(
                    v@,
                ),
                Err(e) => parse_as(s@, Application::File) == Err::<FileBasedView, ParseFileError>(
                    e,
                ),
            },
    {
        let chars = to_chars(s);
        match read_file_header(chars.as_slice()) {
            Some(header) => {
                if header.application == Application::File {
                    FileRef::from_header(&header)
                } else {
                    Err(ParseFileError::UnsupportedScheme)
                }
            },
            None => Err(ParseFileError::UnsupportedScheme),
        }
    }

    /// The canonical spelling.
    pub fn to_string(&self) -> (r: String)
        ensures
            r@ == render_file_based(Application::File, self@),
    {
        write_file_based(
            Application::File,
            self.transport,
            self.qualified,
            &self.location,
            &self.attributes,
        )
    }
}

impl TarballRef {
    /// Whether `s` is shaped like a reference to an archive: it begins with
    /// `tarball+file:`, `tarball+http:` or `tarball+https:`, or with a bare
    /// `file:`, `http:` or `https:` and its location ends like an archive.
    pub fn parses(s: &str) -> (r: bool)
        ensures
            r == (file_header(s@) matches Some(h) && h.application == Application::Tarball),
    {
        let chars = to_chars(s);
        match read_file_header(chars.as_slice()) {
            Some(h) => h.application == Application::Tarball,
            None => false,
        }
    }

    /// The reference that follows from a header of application `Tarball`.
    pub fn from_header(header: &Header) -> (r: Result<TarballRef, ParseFileError>)
        ensures
            match r {
                Ok(v) => parse_file_based(header@) == Ok::<FileBasedView, ParseFileError>(v@),
                Err(e) => parse_file_based(header@) == Err::<FileBasedView, ParseFileError>(e),
            },
    {
        match read_file_based(header) {
            Ok(p) => Ok(
                TarballRef {
                    transport: header.transport,
                    qualified: header.qualified,
                    location: p.0,
                    attributes: p.1,
                },
            ),
            Err(e) => Err(e),
        }
    }

    /// Reads a reference to an archive.
    pub fn from_str(s: &str) -> (r: Result<TarballRef, ParseFileError>)
        ensures
            match r {
                Ok(v) => parse_as(s@, Application::Tarball) == Ok::<
                    FileBasedView,
                    ParseFileError,
                >(v@),
                Err(e) => parse_as(s@, Application::Tarball) == Err::<
                    FileBasedView,
                    ParseFileError,
                >(e),
            },
    {
        let chars = to_chars(s);
        match read_file_header(chars.as_slice()) {
            Some(header) => {
                if header.application == Application::Tarball {
                    TarballRef::from_header(&header)
                } else {
                    Err(ParseFileError::UnsupportedScheme)
                }
            },
            None => Err(ParseFileError::UnsupportedScheme),
        }
    }

    /// The canonical spelling.
    pub fn to_string(&self) -> (r: String)
        ensures
            r@ == render_file_based(Application::Tarball, self@),
    {
        write_file_based(
            Application::Tarball,
            self.transport,
            self.qualified,
            &self.location,
            &self.attributes,
        )
    }
}

} // verus!
