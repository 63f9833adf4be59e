//! What holds of reading and spelling flake references, whatever the
//! string and whatever the reference.

use crate::flake_ref::file::{
    bare_as, bare_header, bare_prefix, file_header, is_archive, lemma_applications,
    lemma_bare_header_begins, lemma_bare_header_of, lemma_file_header_of_rendered,
    lemma_file_header_well_formed,
    lemma_plain_file_is_kept, lemma_qualified_header_begins, path_part, qualified_header,
    qualified_prefix, sniffed, url_path, Application, FileHeader,
};
use crate::flake_ref::git::{
    git_header, git_prefix, lemma_git_header_begins, lemma_git_header_of_rendered,
    lemma_git_well_formed, lemma_plain_git_is_kept,
};
use crate::flake_ref::git_service::{
    lemma_git_service_round_trip, lemma_git_service_well_formed, lemma_service_header_begins,
    lemma_plain_git_service_is_kept, lemma_service_header_of_rendered, lemma_service_names,
    render_git_service, service_header, service_prefix, GitServiceView, ParseGitServiceError,
    Service,
};
use crate::flake_ref::identifier::is_flake_id;
use crate::flake_ref::indirect::{
    flake_rest, is_bare_indirect, lemma_bare_begins, lemma_flake_begins, lemma_flake_scheme,
    lemma_indirect_rest_well_formed, lemma_indirect_round_trip, lemma_plain_indirect_is_kept,
};
use crate::flake_ref::locator::{
    body_of, lemma_locator_round_trip, locator_is_plain, tail_is_plain,
};
use crate::flake_ref::path::{
    lemma_path_begins, lemma_path_round_trip, lemma_path_scheme, lemma_path_well_formed,
    lemma_plain_path_is_kept, path_rest,
};
use crate::flake_ref::protocol::{lemma_schemes, Transport};
use crate::flake_ref::{
    has_known_shape, parse_file_header, parse_flake_ref, render_flake_ref, FlakeRefView,
    ParseFlakeRefError,
};
use crate::text::{
    find, join, lacks, lemma_after_prefix, lemma_find_after, lemma_find_from, lemma_find_lacks,
    lemma_prefix_chars, lemma_prefix_parts, lemma_skip_lacks, lemma_split_join,
};
use vstd::prelude::*;

verus! {

/// A string has the shape of at most one variant: of the seven shapes that
/// the dispatcher tries, no two fit the same string.
pub proof fn lemma_shapes_exclude_each_other(s: Seq<char>)
    ensures
        qualified_header(s) is Some ==> git_header(s) is None && bare_header(s) is None
            && service_header(s) is None && path_rest(s) is None && flake_rest(s) is None
            && !is_bare_indirect(s),
        git_header(s) is Some ==> bare_header(s) is None && service_header(s) is None
            && path_rest(s) is None && flake_rest(s) is None && !is_bare_indirect(s),
        bare_header(s) is Some ==> service_header(s) is None && path_rest(s) is None
            && flake_rest(s) is None && !is_bare_indirect(s),
        service_header(s) is Some ==> path_rest(s) is None && flake_rest(s) is None
            && !is_bare_indirect(s),
        path_rest(s) is Some ==> flake_rest(s) is None && !is_bare_indirect(s),
        flake_rest(s) is Some ==> !is_bare_indirect(s),
{
    if qualified_header(s) is Some {
        lemma_qualified_header_begins(s);
    }
    if git_header(s) is Some {
        lemma_git_header_begins(s);
    }
    if bare_header(s) is Some {
        lemma_bare_header_begins(s);
    }
    if service_header(s) is Some {
        lemma_service_header_begins(s);
    }
    if path_rest(s) is Some {
        lemma_path_begins(s);
    }
    if flake_rest(s) is Some {
        lemma_flake_begins(s);
    }
    if is_bare_indirect(s) {
        lemma_bare_begins(s);
        lemma_scheme_before_slash(s);
    }
}

/// A string that begins with one of the schemes holds a `:` or a `+`
/// before its first `/`.
proof fn lemma_scheme_before_slash(s: Seq<char>)
    ensures
        qualified_header(s) is Some || git_header(s) is Some || bare_header(s) is Some
            || service_header(s) is Some || path_rest(s) is Some || flake_rest(s) is Some
            ==> exists|k: int| 0 <= k < s.len() && k < find(s, '/') && (s[k] == ':' || s[k] == '+'),
{
    lemma_find_from(s, '/', 0);
    if qualified_header(s) is Some {
        lemma_qualified_header_begins(s);
        lemma_applications();
        lemma_schemes();
        let h = qualified_header(s)->0;
        lemma_prefix_chars(s, qualified_prefix(h.application, h.transport));
        let k: int = if h.application == Application::File {
            4
        } else {
            7
        };
        assert(s[k] == '+');
        assert(k < find(s, '/'));
    } else if git_header(s) is Some {
        lemma_git_header_begins(s);
        assert(s[3] == '+');
        assert(3 < find(s, '/'));
    } else if bare_header(s) is Some {
        lemma_schemes();
        let h = bare_header(s)->0;
        lemma_prefix_chars(s, bare_prefix(h.transport));
        let k: int = if h.transport == Transport::HTTPS {
            5
        } else {
            4
        };
        assert(s[k] == ':');
        assert(k < find(s, '/'));
    } else if service_header(s) is Some {
        lemma_service_names();
        let h = service_header(s)->0;
        lemma_prefix_chars(s, service_prefix(h.service));
        assert(s[6] == ':');
        assert(6 < find(s, '/'));
    } else if path_rest(s) is Some {
        lemma_path_scheme();
        lemma_prefix_chars(s, "path:"@);
        assert(s[4] == ':');
        assert(4 < find(s, '/'));
    } else if flake_rest(s) is Some {
        lemma_flake_scheme();
        lemma_prefix_chars(s, "flake:"@);
        assert(s[5] == ':');
        assert(5 < find(s, '/'));
    }
}

/// A string is refused as `Invalid` exactly when it has the shape of no
/// variant, that is, when none of the schemes stands at its beginning and it
/// is no bare name either.
pub proof fn lemma_invalid_means_no_shape(s: Seq<char>)
    ensures
        parse_flake_ref(s) == Err::<FlakeRefView, ParseFlakeRefError>(ParseFlakeRefError::Invalid)
            <==> !has_known_shape(s),
{
}

/// What the dispatcher reads is well formed.
pub proof fn lemma_parsed_is_well_formed(s: Seq<char>)
    ensures
        parse_flake_ref(s) matches Ok(v) ==> v.well_formed(),
{
    lemma_file_header_well_formed(s);
    lemma_git_well_formed(s);
    lemma_git_service_well_formed(s);
    lemma_path_well_formed(s);
    if let Some(rest) = flake_rest(s) {
        lemma_indirect_rest_well_formed(rest);
    }
    lemma_indirect_rest_well_formed(s);
    if qualified_header(s) is Some {
        lemma_qualified_header_begins(s);
    } else if git_header(s) is None && bare_header(s) is Some {
        lemma_bare_header_begins(s);
    }
}

/// Reading the canonical spelling of a well-formed reference gives the
/// reference back, where the date parser reads the instants among its
/// attributes back from their decimal spelling.
pub proof fn lemma_round_trip(v: FlakeRefView)
    requires
        v.well_formed(),
        v.instants_read_back(),
    ensures
        parse_flake_ref(render_flake_ref(v)) == Ok::<FlakeRefView, ParseFlakeRefError>(v),
{
    let s = render_flake_ref(v);
    match v {
        FlakeRefView::File(r) => {
            lemma_file_header_of_rendered(Application::File, r);
            lemma_locator_round_trip(r.location, r.attributes);
            if git_header(s) is Some {
                lemma_git_header_begins(s);
            }
        },
        FlakeRefView::Tarball(r) => {
            lemma_file_header_of_rendered(Application::Tarball, r);
            lemma_locator_round_trip(r.location, r.attributes);
            if git_header(s) is Some {
                lemma_git_header_begins(s);
            }
        },
        FlakeRefView::Git(r) => {
            lemma_git_header_of_rendered(r);
            lemma_locator_round_trip(r.location, r.attributes);
            if qualified_header(s) is Some {
                lemma_qualified_header_begins(s);
            }
        },
        FlakeRefView::GitService(r) => {
            lemma_service_header_of_rendered(r);
            lemma_git_service_round_trip(r);
            lemma_shapes_exclude_each_other(s);
        },
        FlakeRefView::Path(r) => {
            lemma_path_round_trip(r);
            lemma_shapes_exclude_each_other(s);
        },
        FlakeRefView::Indirect(r) => {
            lemma_indirect_round_trip(r);
            lemma_shapes_exclude_each_other(s);
        },
    }
}

/// The reference read from any string is read again from its own canonical
/// spelling, where the date parser reads its instants back.
pub proof fn lemma_canonical_spelling_is_stable(s: Seq<char>)
    requires
        parse_flake_ref(s) matches Ok(v) && v.instants_read_back(),
    ensures
        parse_flake_ref(s) matches Ok(v) && parse_flake_ref(render_flake_ref(v)) == Ok::<
            FlakeRefView,
            ParseFlakeRefError,
        >(v),
{
    lemma_parsed_is_well_formed(s);
    lemma_round_trip(parse_flake_ref(s)->Ok_0);
}

/// A canonical spelling, read and spelled again, is the same string.
pub proof fn lemma_rendering_is_idempotent(v: FlakeRefView)
    requires
        v.well_formed(),
        v.instants_read_back(),
    ensures
        parse_flake_ref(render_flake_ref(v)) matches Ok(w) && render_flake_ref(w)
            == render_flake_ref(v),
{
    lemma_round_trip(v);
}

/// Whether `s` is spelled as the library itself spells references: with
/// its scheme, without a `?` that no attribute follows, and with its
/// instants in plain decimal.
pub open spec fn is_plainly_spelled(s: Seq<char>) -> bool {
    match qualified_header(s) {
        Some(header) => locator_is_plain(header.rest),
        None => match git_header(s) {
            Some(header) => locator_is_plain(header.rest),
            None => match bare_header(s) {
                Some(header) => locator_is_plain(header.rest),
                None => match service_header(s) {
                    Some(header) => tail_is_plain(header.rest),
                    None => match path_rest(s) {
                        Some(rest) => tail_is_plain(rest),
                        None => flake_rest(s) is Some,
                    },
                },
            },
        },
    }
}

/// A plainly spelled string that is read as a reference is the canonical
/// spelling of that reference.
pub proof fn lemma_plain_spelling_is_kept(s: Seq<char>)
    requires
        is_plainly_spelled(s),
    ensures
        parse_flake_ref(s) matches Ok(v) ==> render_flake_ref(v) == s,
{
    if let Some(header) = qualified_header(s) {
        lemma_plain_file_is_kept(s, header);
    } else if git_header(s) is Some {
        lemma_plain_git_is_kept(s);
    } else if let Some(header) = bare_header(s) {
        lemma_plain_file_is_kept(s, header);
    } else if service_header(s) is Some {
        lemma_plain_git_service_is_kept(s);
    } else if path_rest(s) is Some {
        lemma_plain_path_is_kept(s);
    } else {
        lemma_plain_indirect_is_kept(s);
    }
}

/// A string without `?` that is spelled with its scheme is plainly
/// spelled.
proof fn lemma_without_tail_is_plain(s: Seq<char>)
    requires
        lacks(s, '?'),
        qualified_header(s) is Some || git_header(s) is Some || bare_header(s) is Some
            || service_header(s) is Some || path_rest(s) is Some || flake_rest(s) is Some,
    ensures
        is_plainly_spelled(s),
{
    if let Some(header) = qualified_header(s) {
        lemma_prefix_parts(s, qualified_prefix(header.application, header.transport));
        lemma_rest_lacks(s, header.rest);
    } else if let Some(header) = git_header(s) {
        lemma_prefix_parts(s, git_prefix(header.transport));
        lemma_rest_lacks(s, header.rest);
    } else if let Some(header) = bare_header(s) {
        lemma_prefix_parts(s, bare_prefix(header.transport));
        lemma_rest_lacks(s, header.rest);
    } else if let Some(header) = service_header(s) {
        lemma_prefix_parts(s, service_prefix(header.service));
        lemma_rest_lacks(s, header.rest);
    } else if let Some(rest) = path_rest(s) {
        lemma_prefix_parts(s, "path:"@);
        lemma_rest_lacks(s, rest);
    }
}

/// What is left of a string without `?` is a plain tail and a plain
/// locator.
proof fn lemma_rest_lacks(s: Seq<char>, rest: Seq<char>)
    requires
        lacks(s, '?'),
        exists|n: int| 0 <= n <= s.len() && rest == #[trigger] s.skip(n),
    ensures
        tail_is_plain(rest),
        locator_is_plain(rest),
{
    let n = choose|n: int| 0 <= n <= s.len() && rest == #[trigger] s.skip(n);
    lemma_skip_lacks(s, '?', n);
    if rest.len() >= 2 {
        lemma_skip_lacks(rest, '?', 2);
    }
}

/// A string without `?` that is no bare name and is read as a reference is
/// the canonical spelling of that reference.
pub proof fn lemma_spelling_without_tail_is_kept(s: Seq<char>)
    requires
        lacks(s, '?'),
        !is_bare_indirect(s),
    ensures
        parse_flake_ref(s) matches Ok(v) ==> render_flake_ref(v) == s,
{
    if has_known_shape(s) {
        lemma_without_tail_is_plain(s);
        lemma_plain_spelling_is_kept(s);
    }
}

/// A shorthand reference is read only where owner and repository are
/// identifiers, and an indirect reference only where the name is one.
pub proof fn lemma_parsed_names_are_identifiers(s: Seq<char>)
    ensures
        parse_flake_ref(s) matches Ok(FlakeRefView::GitService(v)) ==> is_flake_id(v.owner)
            && is_flake_id(v.repo),
        parse_flake_ref(s) matches Ok(FlakeRefView::Indirect(v)) ==> is_flake_id(v.id),
{
    lemma_parsed_is_well_formed(s);
}

/// `service:owner/repo` is read where owner and repository are identifiers,
/// and refused with the error of the part that is none.
pub proof fn lemma_shorthand_needs_identifiers(
    service: Service,
    owner: Seq<char>,
    repo: Seq<char>,
)
    requires
        lacks(owner, '/'),
        lacks(owner, '?'),
        lacks(repo, '/'),
        lacks(repo, '?'),
    ensures
        parse_flake_ref(service_prefix(service) + owner + seq!['/'] + repo) == (if !is_flake_id(
            owner,
        ) {
            Err::<FlakeRefView, ParseFlakeRefError>(
                ParseFlakeRefError::GitService(ParseGitServiceError::InvalidOwner),
            )
        } else if !is_flake_id(repo) {
            Err::<FlakeRefView, ParseFlakeRefError>(
                ParseFlakeRefError::GitService(ParseGitServiceError::InvalidRepo),
            )
        } else {
            Ok::<FlakeRefView, ParseFlakeRefError>(
                FlakeRefView::GitService(
                    GitServiceView {
                        service,
                        owner,
                        repo,
                        rev_or_ref: None,
                        attributes: Seq::empty(),
                    },
                ),
            )
        }),
{
    let v = GitServiceView { service, owner, repo, rev_or_ref: None, attributes: Seq::empty() };
    let s = service_prefix(service) + owner + seq!['/'] + repo;
    let body = owner + seq!['/'] + repo;
    assert(s =~= render_git_service(v));
    lemma_service_header_of_rendered(v);
    lemma_shapes_exclude_each_other(s);
    let h = service_header(s)->0;
    assert(h.rest =~= body);
    assert(lacks(body, '?'));
    lemma_find_lacks(body, '?');
    assert(body_of(body) =~= body);
    let parts = seq![owner, repo];
    assert(parts.skip(1) =~= seq![repo]);
    assert(join(parts.skip(1), '/') == repo);
    assert(join(parts, '/') =~= body);
    lemma_split_join(parts, '/');
}

/// An `https:` reference whose path ends like an archive is an archive and
/// never a plain file, whatever attributes follow.
pub proof fn lemma_archive_over_https_is_tarball(location: Seq<char>, query: Seq<char>)
    requires
        is_archive(path_part(location)),
        lacks(location, '?'),
    ensures
        ({
            let rest = seq!['/', '/'] + location + seq!['?'] + query;
            let s = bare_prefix(Transport::HTTPS) + rest;
            &&& file_header(s) == Some(
                FileHeader {
                    application: Application::Tarball,
                    transport: Transport::HTTPS,
                    qualified: false,
                    rest,
                },
            )
            &&& parse_flake_ref(s) matches Ok(v) ==> v is Tarball
            &&& parse_flake_ref(s) matches Err(e) ==> e is File
        }),
        ({
            let rest = seq!['/', '/'] + location;
            let s = bare_prefix(Transport::HTTPS) + rest;
            &&& file_header(s) == Some(
                FileHeader {
                    application: Application::Tarball,
                    transport: Transport::HTTPS,
                    qualified: false,
                    rest,
                },
            )
            &&& parse_flake_ref(s) matches Ok(v) ==> v is Tarball
            &&& parse_flake_ref(s) matches Err(e) ==> e is File
        }),
{
    let front = seq!['/', '/'] + location;
    let long = front + seq!['?'] + query;
    lemma_find_after(location, seq!['?'] + query, '?');
    lemma_find_after(location, Seq::<char>::empty(), '?');
    assert(location + Seq::<char>::empty() =~= location);
    assert(front.take(2) =~= seq!['/', '/']);
    assert(long.take(2) =~= seq!['/', '/']);
    assert(front.skip(2) =~= location);
    assert(long.skip(2) =~= location + (seq!['?'] + query));
    assert(url_path(front) == path_part(location));
    assert(url_path(long) == path_part(location));
    lemma_sniffed_https(long);
    lemma_sniffed_https(front);
}

/// A string that begins with `https:` has the header of a bare HTTPS
/// reference, and is read as that header says.
proof fn lemma_sniffed_https(rest: Seq<char>)
    ensures
        ({
            let s = bare_prefix(Transport::HTTPS) + rest;
            &&& qualified_header(s) is None
            &&& git_header(s) is None
            &&& bare_header(s) == bare_as(s, Transport::HTTPS)
            &&& bare_as(s, Transport::HTTPS) == Some(
                FileHeader {
                    application: sniffed(rest),
                    transport: Transport::HTTPS,
                    qualified: false,
                    rest,
                },
            )
            &&& parse_flake_ref(s) == parse_file_header(bare_as(s, Transport::HTTPS)->0)
        }),
{
    lemma_schemes();
    let s = bare_prefix(Transport::HTTPS) + rest;
    lemma_bare_header_of(Transport::HTTPS, rest);
    lemma_after_prefix(bare_prefix(Transport::HTTPS), rest);
    lemma_shapes_exclude_each_other(s);
}

} // verus!
