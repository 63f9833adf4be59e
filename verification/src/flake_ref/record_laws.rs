//! What holds of the attribute-set form: what a record holds is well
//! formed, and the record of a reference holds that reference.

use crate::flake_ref::attributes::{
    attribute_well_formed, attributes_well_formed, has_key, is_flag_key, is_time_key,
    lemma_typed_keys_differ, AttrValueView, AttributeError, AttributeView,
};
use crate::flake_ref::boolean::{lemma_spellings, render_bool};
use crate::flake_ref::timestamp::{naive_epoch_seconds, Timestamp};
use crate::flake_ref::file::{
    bare_header, bare_prefix, is_archive, lemma_applications, lemma_bare_header_begins,
    lemma_bare_header_of, path_part, url_path, Application,
};
use crate::flake_ref::file::ParseFileError;
use crate::flake_ref::git::{GitHeader, GitView, ParseGitError};
use crate::flake_ref::git_service::{lemma_service_names, GitServiceView, ParseGitServiceError};
use crate::flake_ref::indirect::{IndirectView, ParseIndirectError};
use crate::flake_ref::laws::lemma_round_trip;
use crate::flake_ref::locator::body_of;
use crate::flake_ref::path::{ParsePathRefError, PathView};
use crate::flake_ref::protocol::{lemma_schemes, Transport};
use crate::flake_ref::record::{
    absent, attribute_field, attribute_fields, attributes_of, decode_file_record,
    decode_git_record, decode_indirect_record, decode_path_record, decode_record,
    decode_revision, decode_service_record, field_attribute, field_attributes, field_named,
    git_url_header, identity_fields, is_identity_name, record_of, revision_fields, scalar_value,
    text_field, text_named, url_location, url_of, value_scalar, FieldView, ScalarView,
};
use crate::flake_ref::{parse_flake_ref, render_flake_ref, FlakeRefView, ParseFlakeRefError};
use crate::text::{
    after_prefix, lacks, lemma_after_prefix, lemma_find_lacks, lemma_not_prefix,
    lemma_prefix_chars,
};
use vstd::prelude::*;

verus! {

/// The characters of the names of the fields that identify a reference,
/// and of the names of the kinds.
pub proof fn lemma_record_names()
    ensures
        "type"@ == seq!['t', 'y', 'p', 'e'],
        "url"@ == seq!['u', 'r', 'l'],
        "owner"@ == seq!['o', 'w', 'n', 'e', 'r'],
        "repo"@ == seq!['r', 'e', 'p', 'o'],
        "path"@ == seq!['p', 'a', 't', 'h'],
        "id"@ == seq!['i', 'd'],
        "revOrRef"@ == seq!['r', 'e', 'v', 'O', 'r', 'R', 'e', 'f'],
        "git"@ == seq!['g', 'i', 't'],
        "indirect"@ == seq!['i', 'n', 'd', 'i', 'r', 'e', 'c', 't'],
{
    reveal_strlit("type");
    reveal_strlit("url");
    reveal_strlit("owner");
    reveal_strlit("repo");
    reveal_strlit("path");
    reveal_strlit("id");
    reveal_strlit("revOrRef");
    reveal_strlit("git");
    reveal_strlit("indirect");
    assert("type"@ =~= seq!['t', 'y', 'p', 'e']);
    assert("url"@ =~= seq!['u', 'r', 'l']);
    assert("owner"@ =~= seq!['o', 'w', 'n', 'e', 'r']);
    assert("repo"@ =~= seq!['r', 'e', 'p', 'o']);
    assert("path"@ =~= seq!['p', 'a', 't', 'h']);
    assert("id"@ =~= seq!['i', 'd']);
    assert("revOrRef"@ =~= seq!['r', 'e', 'v', 'O', 'r', 'R', 'e', 'f']);
    assert("git"@ =~= seq!['g', 'i', 't']);
    assert("indirect"@ =~= seq!['i', 'n', 'd', 'i', 'r', 'e', 'c', 't']);
}

/// Two texts with different first characters differ.
proof fn lemma_differ(a: Seq<char>, b: Seq<char>)
    requires
        a.len() > 0,
        b.len() > 0,
        a[0] != b[0] || a.len() != b.len(),
    ensures
        a != b,
{
}

/// The names of the fields that identify a reference are seven different
/// names, and the names of the kinds are seven different names.
pub proof fn lemma_names_differ()
    ensures
        "type"@ != "url"@ && "type"@ != "owner"@ && "type"@ != "repo"@ && "type"@ != "path"@
            && "type"@ != "id"@ && "type"@ != "revOrRef"@,
        "url"@ != "owner"@ && "url"@ != "repo"@ && "url"@ != "path"@ && "url"@ != "id"@ && "url"@
            != "revOrRef"@,
        "owner"@ != "repo"@ && "owner"@ != "path"@ && "owner"@ != "id"@ && "owner"@
            != "revOrRef"@,
        "repo"@ != "path"@ && "repo"@ != "id"@ && "repo"@ != "revOrRef"@,
        "path"@ != "id"@ && "path"@ != "revOrRef"@,
        "id"@ != "revOrRef"@,
        "file"@ != "tarball"@ && "file"@ != "git"@ && "file"@ != "github"@ && "file"@
            != "gitlab"@ && "file"@ != "path"@ && "file"@ != "indirect"@,
        "tarball"@ != "git"@ && "tarball"@ != "github"@ && "tarball"@ != "gitlab"@ && "tarball"@
            != "path"@ && "tarball"@ != "indirect"@,
        "git"@ != "github"@ && "git"@ != "gitlab"@ && "git"@ != "path"@ && "git"@
            != "indirect"@,
        "github"@ != "gitlab"@ && "github"@ != "path"@ && "github"@ != "indirect"@,
        "gitlab"@ != "path"@ && "gitlab"@ != "indirect"@,
        "path"@ != "indirect"@,
{
    lemma_record_names();
    lemma_applications();
    lemma_service_names();
    lemma_differ("type"@, "url"@);
    lemma_differ("type"@, "owner"@);
    lemma_differ("type"@, "repo"@);
    lemma_differ("type"@, "path"@);
    lemma_differ("type"@, "id"@);
    lemma_differ("type"@, "revOrRef"@);
    lemma_differ("url"@, "owner"@);
    lemma_differ("url"@, "repo"@);
    lemma_differ("url"@, "path"@);
    lemma_differ("url"@, "id"@);
    lemma_differ("url"@, "revOrRef"@);
    lemma_differ("owner"@, "repo"@);
    lemma_differ("owner"@, "path"@);
    lemma_differ("owner"@, "id"@);
    lemma_differ("owner"@, "revOrRef"@);
    lemma_differ("repo"@, "path"@);
    lemma_differ("repo"@, "id"@);
    lemma_differ("repo"@, "revOrRef"@);
    lemma_differ("path"@, "id"@);
    lemma_differ("path"@, "revOrRef"@);
    lemma_differ("id"@, "revOrRef"@);
    lemma_differ("file"@, "tarball"@);
    lemma_differ("file"@, "git"@);
    lemma_differ("file"@, "github"@);
    lemma_differ("file"@, "gitlab"@);
    lemma_differ("file"@, "path"@);
    lemma_differ("file"@, "indirect"@);
    lemma_differ("tarball"@, "git"@);
    lemma_differ("tarball"@, "github"@);
    lemma_differ("tarball"@, "gitlab"@);
    lemma_differ("tarball"@, "path"@);
    lemma_differ("tarball"@, "indirect"@);
    lemma_differ("git"@, "github"@);
    lemma_differ("git"@, "gitlab"@);
    lemma_differ("git"@, "path"@);
    lemma_differ("git"@, "indirect"@);
    assert("github"@[3] != "gitlab"@[3]);
    lemma_differ("github"@, "path"@);
    lemma_differ("github"@, "indirect"@);
    lemma_differ("gitlab"@, "path"@);
    lemma_differ("gitlab"@, "indirect"@);
    lemma_differ("path"@, "indirect"@);
}

/// A flag is the same whether it stands as a native boolean or as its
/// native spelling, and it is written as a native boolean.
pub proof fn lemma_flag_shapes_agree(key: Seq<char>, b: bool)
    requires
        is_flag_key(key),
    ensures
        scalar_value(key, ScalarView::Flag(b)) == Ok::<AttrValueView, AttributeError>(
            AttrValueView::Flag(b),
        ),
        scalar_value(key, ScalarView::Text(render_bool(b))) == scalar_value(
            key,
            ScalarView::Flag(b),
        ),
        value_scalar(AttrValueView::Flag(b)) == ScalarView::Flag(b),
{
    lemma_spellings();
}

/// An instant is the same whether it stands as an integer or as a string
/// that the date parser reads as that integer, and it is written as an
/// integer.
pub proof fn lemma_instant_shapes_agree(key: Seq<char>, secs: i64, spelled: Seq<char>)
    requires
        is_time_key(key),
    ensures
        naive_epoch_seconds(spelled, "%s"@) == Some(secs) ==> scalar_value(
            key,
            ScalarView::Text(spelled),
        ) == scalar_value(key, ScalarView::Number(secs)),
        value_scalar(AttrValueView::Time(Timestamp(secs))) == ScalarView::Number(secs),
{
    lemma_typed_keys_differ();
}

/// Looking a name up in two lists of fields put together: the first list
/// is asked first.
pub proof fn lemma_field_named_concat(a: Seq<FieldView>, b: Seq<FieldView>, name: Seq<char>)
    ensures
        field_named(a + b, name) == (if field_named(a, name) is Some {
            field_named(a, name)
        } else {
            field_named(b, name)
        }),
    decreases a.len(),
{
    if a.len() == 0 {
        assert(a + b =~= b);
    } else {
        assert((a + b)[0] == a[0]);
        assert((a + b).skip(1) =~= a.skip(1) + b);
        lemma_field_named_concat(a.skip(1), b, name);
    }
}

/// No attribute has the key `name`: no field of the attributes has that
/// name.
pub proof fn lemma_attribute_fields_absent(attributes: Seq<AttributeView>, name: Seq<char>)
    requires
        !has_key(attributes, name),
    ensures
        absent(attribute_fields(attributes), name),
    decreases attributes.len(),
{
    let fields = attribute_fields(attributes);
    if attributes.len() > 0 {
        assert(attributes[0].key != name);
        assert(fields[0] == attribute_field(attributes[0]));
        assert(fields.skip(1) =~= attribute_fields(attributes.skip(1)));
        assert(!has_key(attributes.skip(1), name)) by {
            assert forall|i: int| 0 <= i < attributes.skip(1).len() implies (
            #[trigger] attributes.skip(1)[i]).key != name by {
                assert(attributes.skip(1)[i] == attributes[i + 1]);
            }
        }
        lemma_attribute_fields_absent(attributes.skip(1), name);
    }
}

/// Fields that identify the reference add no attribute.
pub proof fn lemma_identity_is_passed_over(
    front: Seq<FieldView>,
    rest: Seq<FieldView>,
    seen: Seq<AttributeView>,
)
    requires
        forall|i: int| 0 <= i < front.len() ==> is_identity_name(#[trigger] front[i].name),
    ensures
        field_attributes(front + rest, seen) == field_attributes(rest, seen),
    decreases front.len(),
{
    if front.len() == 0 {
        assert(front + rest =~= rest);
    } else {
        assert((front + rest)[0] == front[0]);
        assert((front + rest).skip(1) =~= front.skip(1) + rest);
        assert forall|i: int| 0 <= i < front.skip(1).len() implies is_identity_name(
            #[trigger] front.skip(1)[i].name,
        ) by {
            assert(front.skip(1)[i] == front[i + 1]);
        }
        lemma_identity_is_passed_over(front.skip(1), rest, seen);
    }
}

/// The attributes that the fields of a record hold are well formed.
pub proof fn lemma_field_attributes_well_formed(fields: Seq<FieldView>, seen: Seq<AttributeView>)
    requires
        attributes_well_formed(seen),
    ensures
        field_attributes(fields, seen) matches Ok(a) ==> attributes_well_formed(a),
    decreases fields.len(),
{
    if fields.len() > 0 {
        if is_identity_name(fields[0].name) {
            lemma_field_attributes_well_formed(fields.skip(1), seen);
        } else if let Ok(a) = field_attribute(fields[0]) {
            if !has_key(seen, a.key) {
                let next = seen.push(a);
                assert forall|i: int| 0 <= i < next.len() implies attribute_well_formed(
                    #[trigger] next[i],
                ) by {
                    if i < seen.len() {
                        assert(next[i] == seen[i]);
                    }
                }
                assert forall|i: int, j: int| 0 <= i < j < next.len() implies (
                #[trigger] next[i]).key != (#[trigger] next[j]).key by {
                    if j < seen.len() {
                        assert(next[i] == seen[i] && next[j] == seen[j]);
                    } else {
                        assert(next[i] == seen[i]);
                    }
                }
                lemma_field_attributes_well_formed(fields.skip(1), next);
            }
        }
    }
}

/// The path component of a URL without attributes is the path inside its
/// location.
proof fn lemma_url_path_of_location(location: Seq<char>)
    requires
        lacks(location, '?'),
    ensures
        url_path(seq!['/', '/'] + location) == path_part(location),
{
    let rest = seq!['/', '/'] + location;
    assert(rest.take(2) =~= seq!['/', '/']);
    assert(rest.skip(2) =~= location);
    lemma_find_lacks(location, '?');
    assert(body_of(location) =~= location);
}

/// What a record holds is well formed: it can be spelled as a string and
/// read back.
pub proof fn lemma_decoded_is_well_formed(fields: Seq<FieldView>)
    ensures
        decode_record(fields) matches Ok(v) ==> v.well_formed(),
{
    lemma_field_attributes_well_formed(fields, Seq::<AttributeView>::empty());
    if let Some(url) = text_named(fields, "url"@) {
        if let Some(header) = bare_header(url) {
            lemma_bare_header_begins(url);
            if let Some(location) = url_location(header.rest) {
                assert(header.rest =~= seq!['/', '/'] + location);
                lemma_url_path_of_location(location);
                lemma_bare_header_of(header.transport, header.rest);
                lemma_prefix_chars(url, bare_prefix(header.transport));
                assert(url =~= bare_prefix(header.transport) + header.rest);
            }
        }
    }
}

/// The field of a well-formed attribute holds that attribute.
pub proof fn lemma_attribute_field_round_trip(a: AttributeView)
    requires
        attribute_well_formed(a),
    ensures
        field_attribute(attribute_field(a)) == Ok::<AttributeView, AttributeError>(a),
{
}

proof fn lemma_attribute_fields_round_trip(attributes: Seq<AttributeView>, k: int)
    requires
        attributes_well_formed(attributes),
        forall|i: int| 0 <= i < attributes.len() ==> !is_identity_name(#[trigger] attributes[i].key),
        0 <= k <= attributes.len(),
    ensures
        field_attributes(attribute_fields(attributes).skip(k), attributes.take(k)) == Ok::<
            Seq<AttributeView>,
            AttributeError,
        >(attributes),
    decreases attributes.len() - k,
{
    let fields = attribute_fields(attributes);
    if k == attributes.len() {
        assert(attributes.take(k) =~= attributes);
    } else {
        let a = attributes[k];
        lemma_attribute_field_round_trip(a);
        assert(fields.skip(k)[0] == attribute_field(a));
        assert(!has_key(attributes.take(k), a.key)) by {
            assert forall|i: int| 0 <= i < attributes.take(k).len() implies (
            #[trigger] attributes.take(k)[i]).key != a.key by {
                assert(attributes.take(k)[i] == attributes[i]);
            }
        }
        assert(attributes.take(k).push(a) =~= attributes.take(k + 1));
        assert(fields.skip(k).skip(1) =~= fields.skip(k + 1));
        lemma_attribute_fields_round_trip(attributes, k + 1);
    }
}

/// Whether no attribute of the reference has the name of a field that
/// identifies a reference.
pub open spec fn keeps_identity_names_free(v: FlakeRefView) -> bool {
    forall|i: int|
        0 <= i < attributes_of(v).len() ==> !is_identity_name(#[trigger] attributes_of(v)[i].key)
}

/// The attributes of the record of a reference are the attributes of the
/// reference, and the fields that identify it are found in front.
proof fn lemma_record_parts(v: FlakeRefView, name: Seq<char>)
    requires
        v.well_formed(),
        keeps_identity_names_free(v),
        is_identity_name(name),
    ensures
        field_attributes(record_of(v), Seq::<AttributeView>::empty()) == Ok::<
            Seq<AttributeView>,
            AttributeError,
        >(attributes_of(v)),
        field_named(record_of(v), name) == field_named(identity_fields(v), name),
{
    lemma_names_differ();
    let front = identity_fields(v);
    let attributes = attributes_of(v);
    let back = attribute_fields(attributes);
    assert forall|i: int| 0 <= i < front.len() implies is_identity_name(
        #[trigger] front[i].name,
    ) by {
    }
    lemma_identity_is_passed_over(front, back, Seq::<AttributeView>::empty());
    lemma_attribute_fields_round_trip(attributes, 0);
    assert(back.skip(0) =~= back);
    assert(attributes.take(0) =~= Seq::<AttributeView>::empty());
    lemma_field_named_concat(front, back, name);
    assert(!has_key(attributes, name));
    lemma_attribute_fields_absent(attributes, name);
}

/// Looking a name up in a list with one more field in front.
proof fn lemma_field_named_cons(f: FieldView, rest: Seq<FieldView>, name: Seq<char>)
    ensures
        field_named(seq![f] + rest, name) == (if f.name == name {
            Some(f.value)
        } else {
            field_named(rest, name)
        }),
{
    let s = seq![f] + rest;
    assert(s[0] == f);
    assert(s.skip(1) =~= rest);
}

/// The text that identifies a reference under a name, if any.
pub open spec fn identity_text(v: FlakeRefView, name: Seq<char>) -> Option<Seq<char>> {
    match v {
        FlakeRefView::File(r) => if name == "type"@ && r.qualified {
            Some("file"@)
        } else if name == "url"@ {
            Some(url_of(r.transport, r.location))
        } else {
            None
        },
        FlakeRefView::Tarball(r) => if name == "type"@ && r.qualified {
            Some("tarball"@)
        } else if name == "url"@ {
            Some(url_of(r.transport, r.location))
        } else {
            None
        },
        FlakeRefView::Git(r) => if name == "type"@ {
            Some("git"@)
        } else if name == "url"@ {
            Some(url_of(r.transport, r.location))
        } else {
            None
        },
        FlakeRefView::GitService(r) => if name == "type"@ {
            Some(r.service.name())
        } else if name == "owner"@ {
            Some(r.owner)
        } else if name == "repo"@ {
            Some(r.repo)
        } else if name == "revOrRef"@ {
            r.rev_or_ref
        } else {
            None
        },
        FlakeRefView::Path(r) => if name == "type"@ {
            Some("path"@)
        } else if name == "path"@ {
            Some(r.path)
        } else {
            None
        },
        FlakeRefView::Indirect(r) => if name == "type"@ {
            Some("indirect"@)
        } else if name == "id"@ {
            Some(r.id)
        } else if name == "revOrRef"@ {
            r.rev_or_ref
        } else {
            None
        },
    }
}

/// The fields that identify a reference hold, under each name, the text
/// that identifies it.
proof fn lemma_identity_lookup(v: FlakeRefView, name: Seq<char>)
    ensures
        field_named(identity_fields(v), name) == (match identity_text(v, name) {
            Some(t) => Some(ScalarView::Text(t)),
            None => None,
        }),
{
    lemma_names_differ();
    let none = Seq::<FieldView>::empty();
    let front = identity_fields(v);
    match v {
        FlakeRefView::File(r) => {
            let u = text_field("url"@, url_of(r.transport, r.location));
            let t = text_field("type"@, "file"@);
            lemma_field_named_cons(u, none, name);
            lemma_field_named_cons(t, seq![u] + none, name);
            assert(front =~= if r.qualified {
                seq![t] + (seq![u] + none)
            } else {
                seq![u] + none
            });
        },
        FlakeRefView::Tarball(r) => {
            let u = text_field("url"@, url_of(r.transport, r.location));
            let t = text_field("type"@, "tarball"@);
            lemma_field_named_cons(u, none, name);
            lemma_field_named_cons(t, seq![u] + none, name);
            assert(front =~= if r.qualified {
                seq![t] + (seq![u] + none)
            } else {
                seq![u] + none
            });
        },
        FlakeRefView::Git(r) => {
            let u = text_field("url"@, url_of(r.transport, r.location));
            let t = text_field("type"@, "git"@);
            lemma_field_named_cons(u, none, name);
            lemma_field_named_cons(t, seq![u] + none, name);
            assert(front =~= seq![t] + (seq![u] + none));
        },
        FlakeRefView::GitService(r) => {
            let t = text_field("type"@, r.service.name());
            let o = text_field("owner"@, r.owner);
            let p = text_field("repo"@, r.repo);
            let tail = revision_fields(r.rev_or_ref);
            if let Some(rev) = r.rev_or_ref {
                lemma_field_named_cons(text_field("revOrRef"@, rev), none, name);
                assert(tail =~= seq![text_field("revOrRef"@, rev)] + none);
            }
            lemma_field_named_cons(p, tail, name);
            lemma_field_named_cons(o, seq![p] + tail, name);
            lemma_field_named_cons(t, seq![o] + (seq![p] + tail), name);
            assert(front =~= seq![t] + (seq![o] + (seq![p] + tail)));
        },
        FlakeRefView::Path(r) => {
            let t = text_field("type"@, "path"@);
            let p = text_field("path"@, r.path);
            lemma_field_named_cons(p, none, name);
            lemma_field_named_cons(t, seq![p] + none, name);
            assert(front =~= seq![t] + (seq![p] + none));
        },
        FlakeRefView::Indirect(r) => {
            let t = text_field("type"@, "indirect"@);
            let i = text_field("id"@, r.id);
            let tail = revision_fields(r.rev_or_ref);
            if let Some(rev) = r.rev_or_ref {
                lemma_field_named_cons(text_field("revOrRef"@, rev), none, name);
                assert(tail =~= seq![text_field("revOrRef"@, rev)] + none);
            }
            lemma_field_named_cons(i, tail, name);
            lemma_field_named_cons(t, seq![i] + tail, name);
            assert(front =~= seq![t] + (seq![i] + tail));
        },
    }
}

/// The URL of a location reached over a transport of files is read back:
/// its header names the transport, and the location stands behind `//`.
proof fn lemma_url_round_trip(transport: Transport, location: Seq<char>)
    requires
        location.len() > 0,
        lacks(location, '?'),
    ensures
        transport != Transport::SSH ==> (bare_header(url_of(transport, location)) matches Some(
            h,
        ) && h.transport == transport && h.rest == seq!['/', '/'] + location && (h.application
            == Application::Tarball <==> is_archive(path_part(location)))),
        git_url_header(url_of(transport, location)) == Some(
            GitHeader { transport, rest: seq!['/', '/'] + location },
        ),
        url_location(seq!['/', '/'] + location) == Some(location),
{
    lemma_schemes();
    let rest = seq!['/', '/'] + location;
    let url = url_of(transport, location);
    assert(url =~= bare_prefix(transport) + rest);
    if transport != Transport::SSH {
        lemma_bare_header_of(transport, rest);
        lemma_url_path_of_location(location);
    }
    assert(rest.take(2) =~= seq!['/', '/']);
    assert(rest.skip(2) =~= location);
    lemma_after_prefix(bare_prefix(transport), rest);
    lemma_prefix_chars(url, bare_prefix(transport));
    assert forall|t: Transport| t != transport implies after_prefix(url, bare_prefix(t))
        is None by {
        let both_http = (t == Transport::HTTP || t == Transport::HTTPS) && (transport
            == Transport::HTTP || transport == Transport::HTTPS);
        let k: int = if both_http {
            4
        } else {
            0
        };
        lemma_not_prefix(url, bare_prefix(t), k);
    }
}

/// The record of a reference holds, under each name that identifies a
/// reference, what identifies this one, and its attributes are those of
/// the reference.
proof fn lemma_record_lookups(v: FlakeRefView)
    requires
        v.well_formed(),
        keeps_identity_names_free(v),
    ensures
        field_attributes(record_of(v), Seq::<AttributeView>::empty()) == Ok::<
            Seq<AttributeView>,
            AttributeError,
        >(attributes_of(v)),
        text_named(record_of(v), "type"@) == identity_text(v, "type"@),
        text_named(record_of(v), "url"@) == identity_text(v, "url"@),
        text_named(record_of(v), "owner"@) == identity_text(v, "owner"@),
        text_named(record_of(v), "repo"@) == identity_text(v, "repo"@),
        text_named(record_of(v), "path"@) == identity_text(v, "path"@),
        text_named(record_of(v), "id"@) == identity_text(v, "id"@),
        text_named(record_of(v), "revOrRef"@) == identity_text(v, "revOrRef"@),
        absent(record_of(v), "type"@) == identity_text(v, "type"@) is None,
        absent(record_of(v), "url"@) == identity_text(v, "url"@) is None,
        absent(record_of(v), "owner"@) == identity_text(v, "owner"@) is None,
        absent(record_of(v), "repo"@) == identity_text(v, "repo"@) is None,
        absent(record_of(v), "path"@) == identity_text(v, "path"@) is None,
        absent(record_of(v), "id"@) == identity_text(v, "id"@) is None,
        absent(record_of(v), "revOrRef"@) == identity_text(v, "revOrRef"@) is None,
{
    lemma_record_parts(v, "type"@);
    lemma_identity_lookup(v, "type"@);
    lemma_record_parts(v, "url"@);
    lemma_identity_lookup(v, "url"@);
    lemma_record_parts(v, "owner"@);
    lemma_identity_lookup(v, "owner"@);
    lemma_record_parts(v, "repo"@);
    lemma_identity_lookup(v, "repo"@);
    lemma_record_parts(v, "path"@);
    lemma_identity_lookup(v, "path"@);
    lemma_record_parts(v, "id"@);
    lemma_identity_lookup(v, "id"@);
    lemma_record_parts(v, "revOrRef"@);
    lemma_identity_lookup(v, "revOrRef"@);
}

/// The record of a well-formed reference holds that reference, where no
/// attribute of the reference has the name of a field that identifies a
/// reference.
pub proof fn lemma_record_round_trip(v: FlakeRefView)
    requires
        v.well_formed(),
        keeps_identity_names_free(v),
    ensures
        decode_record(record_of(v)) == Ok::<FlakeRefView, ParseFlakeRefError>(v),
{
    lemma_names_differ();
    lemma_record_lookups(v);
    let fields = record_of(v);
    match v {
        FlakeRefView::File(r) => {
            lemma_url_round_trip(r.transport, r.location);
            let typed = if r.qualified {
                Some(Application::File)
            } else {
                None
            };
            assert(decode_file_record(fields, typed) == Ok::<FlakeRefView, ParseFileError>(v));
        },
        FlakeRefView::Tarball(r) => {
            lemma_url_round_trip(r.transport, r.location);
            let typed = if r.qualified {
                Some(Application::Tarball)
            } else {
                None
            };
            assert(decode_file_record(fields, typed) == Ok::<FlakeRefView, ParseFileError>(v));
        },
        FlakeRefView::Git(r) => {
            lemma_url_round_trip(r.transport, r.location);
            assert(decode_git_record(fields) == Ok::<GitView, ParseGitError>(r));
        },
        FlakeRefView::GitService(r) => {
            lemma_service_names();
            assert(decode_revision(fields) == Some(r.rev_or_ref));
            assert(decode_service_record(fields, r.service) == Ok::<
                GitServiceView,
                ParseGitServiceError,
            >(r));
        },
        FlakeRefView::Path(r) => {
            assert(decode_path_record(fields) == Ok::<PathView, ParsePathRefError>(r));
        },
        FlakeRefView::Indirect(r) => {
            assert(decode_revision(fields) == Some(r.rev_or_ref));
            assert(decode_indirect_record(fields) == Ok::<IndirectView, ParseIndirectError>(r));
        },
    }
}

/// The two forms agree: the canonical spelling of a reference and its
/// record hold the same reference, where the date parser reads its instants
/// back and no attribute has the name of a field that identifies a
/// reference.
pub proof fn lemma_string_and_record_agree(v: FlakeRefView)
    requires
        v.well_formed(),
        v.instants_read_back(),
        keeps_identity_names_free(v),
    ensures
        parse_flake_ref(render_flake_ref(v)) == decode_record(record_of(v)),
{
    lemma_round_trip(v);
    lemma_record_round_trip(v);
}

} // verus!
