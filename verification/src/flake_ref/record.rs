//! The attribute-set form of a reference: a flat record of named scalars,
//! as it stands in a lock file or in JSON.
//!
//! The field `type` names the kind of reference; `url`, `owner`, `repo`,
//! `path`, `id` and `revOrRef` hold what identifies it; every other field
//! is an attribute. A flag may stand as a native boolean or as its
//! spelling, an instant as an integer or as a string of epoch seconds.

use crate::flake_ref::attributes::{
    has_key, is_dir_key, is_flag_key, is_relative_path, is_time_key, AttrValue, AttrValueView,
    Attribute, AttributeError, AttributeView, Attributes,
};
use crate::flake_ref::boolean::{bool_string, parse_bool, render_bool, BoolReprs};
use crate::flake_ref::file::{
    bare_header, bare_prefix, lemma_bare_header_begins, read_bare_header, Application,
    FileBasedView, FileRef, ParseFileError, TarballRef,
};
use crate::flake_ref::git::{GitHeader, GitRef, GitView, ParseGitError};
use crate::flake_ref::git_service::{
    GitServiceRef, GitServiceView, ParseGitServiceError, Service,
};
use crate::flake_ref::identifier::{is_flake_id, is_identifier};
use crate::flake_ref::indirect::{IndirectRef, IndirectView, ParseIndirectError};
use crate::flake_ref::path::{ParsePathRefError, PathRef, PathView};
use crate::flake_ref::protocol::Transport;
use crate::flake_ref::record_laws::lemma_decoded_is_well_formed;
use crate::flake_ref::{FlakeRef, FlakeRefView, ParseFlakeRefError};
use crate::flake_ref::timestamp::{
    timestamp_from_int, timestamp_from_text, ParseTimeError, Timestamp, TimestampDeserialize,
};
use crate::text::{
    after_prefix, decimal, decimal_text, has_prefix, is_free_of, is_text, lacks, optional_text,
    skip_chars, starts_with, strip_prefix, to_chars, to_string,
};
use vstd::prelude::*;

verus! {

/// A value of the attribute-set form.
#[derive(Debug, Clone, PartialEq, Eq)]
pub enum Scalar {
    Text(String),
    Flag(bool),
    Number(i64),
}

/// The model of a [`Scalar`].
pub enum ScalarView {
    Text(Seq<char>),
    Flag(bool),
    Number(i64),
}

impl View for Scalar {
    type V = ScalarView;

    open spec fn view(&self) -> ScalarView {
        match self {
            Scalar::Text(s) => ScalarView::Text(s@),
            Scalar::Flag(b) => ScalarView::Flag(*b),
            Scalar::Number(n) => ScalarView::Number(*n),
        }
    }
}

/// A named value of the attribute-set form.
#[derive(Debug, Clone, PartialEq, Eq)]
pub struct Field {
    pub name: String,
    pub value: Scalar,
}

/// The model of a [`Field`].
pub struct FieldView {
    pub name: Seq<char>,
    pub value: ScalarView,
}

impl View for Field {
    type V = FieldView;

    open spec fn view(&self) -> FieldView {
        FieldView { name: self.name@, value: self.value@ }
    }
}

/// The views of a list of fields.
pub open spec fn fields_view(fields: Seq<Field>) -> Seq<FieldView> {
    fields.map_values(|f: Field| f@)
}

/// Whether the field holds part of what identifies a reference, and so is
/// no attribute.
pub open spec fn is_identity_name(name: Seq<char>) -> bool {
    ||| name == "type"@
    ||| name == "url"@
    ||| name == "owner"@
    ||| name == "repo"@
    ||| name == "path"@
    ||| name == "id"@
    ||| name == "revOrRef"@
}

/// The spelling of a scalar: text as it is, a flag in its native spelling,
/// a number in decimal.
pub open spec fn scalar_text(value: ScalarView) -> Seq<char> {
    match value {
        ScalarView::Text(t) => t,
        ScalarView::Flag(b) => render_bool(b),
        ScalarView::Number(n) => decimal(n as int),
    }
}

/// The typed value of the attribute `key` given as a scalar.
///
/// A flag is read from a native boolean or from its spelling, an instant
/// from an integer or from a string of epoch seconds. A directory must be a
/// relative path. The value of any other key is kept as text; a number or a
/// boolean under such a key is kept in its spelling. No text may hold `&`.
pub open spec fn scalar_value(key: Seq<char>, value: ScalarView) -> Result<
    AttrValueView,
    AttributeError,
> {
    if is_flag_key(key) {
        match value {
            ScalarView::Flag(b) => Ok(AttrValueView::Flag(b)),
            ScalarView::Text(t) => match parse_bool(t) {
                Some(b) => Ok(AttrValueView::Flag(b)),
                None => Err(AttributeError::Boolean),
            },
            ScalarView::Number(_) => Err(AttributeError::Boolean),
        }
    } else if is_time_key(key) {
        match value {
            ScalarView::Number(n) => match timestamp_from_int(n) {
                Ok(t) => Ok(AttrValueView::Time(t)),
                Err(e) => Err(AttributeError::Timestamp(e)),
            },
            ScalarView::Text(t) => match timestamp_from_text(t) {
                Ok(t) => Ok(AttrValueView::Time(t)),
                Err(e) => Err(AttributeError::Timestamp(e)),
            },
            ScalarView::Flag(_) => Err(AttributeError::Timestamp(ParseTimeError::FromString)),
        }
    } else if is_dir_key(key) {
        match value {
            ScalarView::Text(t) => if is_relative_path(t) && lacks(t, '&') {
                Ok(AttrValueView::Text(t))
            } else {
                Err(AttributeError::Dir)
            },
            _ => Err(AttributeError::Dir),
        }
    } else if lacks(scalar_text(value), '&') {
        Ok(AttrValueView::Text(scalar_text(value)))
    } else {
        Err(AttributeError::Malformed)
    }
}

/// Whether a name can be the key of an attribute: it is not empty and
/// holds neither `=` nor `&`.
pub open spec fn is_attribute_key(name: Seq<char>) -> bool {
    name.len() > 0 && lacks(name, '=') && lacks(name, '&')
}

/// The attribute that a field holds.
pub open spec fn field_attribute(f: FieldView) -> Result<AttributeView, AttributeError> {
    if !is_attribute_key(f.name) {
        Err(AttributeError::Malformed)
    } else {
        match scalar_value(f.name, f.value) {
            Ok(value) => Ok(AttributeView { key: f.name, value }),
            Err(e) => Err(e),
        }
    }
}

/// The attributes among the fields, read from the left and added to those
/// already `seen`. Fields that identify the reference are passed over. The
/// first field that is ill-named, ill-typed or repeats a key decides the
/// error.
pub open spec fn field_attributes(fields: Seq<FieldView>, seen: Seq<AttributeView>) -> Result<
    Seq<AttributeView>,
    AttributeError,
>
    decreases fields.len(),
{
    if fields.len() == 0 {
        Ok(seen)
    } else if is_identity_name(fields[0].name) {
        field_attributes(fields.skip(1), seen)
    } else {
        match field_attribute(fields[0]) {
            Err(e) => Err(e),
            Ok(a) => if has_key(seen, a.key) {
                Err(AttributeError::Duplicate)
            } else {
                field_attributes(fields.skip(1), seen.push(a))
            },
        }
    }
}

/// The scalar that holds a typed value: a flag as a native boolean, an
/// instant as an integer, text as text.
pub open spec fn value_scalar(value: AttrValueView) -> ScalarView {
    match value {
        AttrValueView::Text(t) => ScalarView::Text(t),
        AttrValueView::Flag(b) => ScalarView::Flag(b),
        AttrValueView::Time(t) => ScalarView::Number(t.0),
    }
}

/// The field that holds an attribute.
pub open spec fn attribute_field(a: AttributeView) -> FieldView {
    FieldView { name: a.key, value: value_scalar(a.value) }
}

/// The fields that hold an attribute set.
pub open spec fn attribute_fields(attributes: Seq<AttributeView>) -> Seq<FieldView> {
    attributes.map_values(|a: AttributeView| attribute_field(a))
}

/// Whether the name is that of a field that identifies a reference.
pub fn names_identity(name: &[char]) -> (r: bool)
    ensures
        r == is_identity_name(name@),
{
    is_text(name, "type") || is_text(name, "url") || is_text(name, "owner") || is_text(
        name,
        "repo",
    ) || is_text(name, "path") || is_text(name, "id") || is_text(name, "revOrRef")
}

impl Scalar {
    /// The typed value of the attribute `key` given as this scalar.
    pub fn decode(&self, key: &[char]) -> (r: Result<AttrValue, AttributeError>)
        ensures
            match r {
                Ok(v) => scalar_value(key@, self@) == Ok::<AttrValueView, AttributeError>(v@),
                Err(e) => scalar_value(key@, self@) == Err::<AttrValueView, AttributeError>(e),
            },
    {
        if is_text(key, "shallow") || is_text(key, "submodules") {
            let repr = match self {
                Scalar::Flag(b) => BoolReprs::Bool(*b),
                Scalar::Text(t) => BoolReprs::String(t.clone()),
                Scalar::Number(_) => {
                    return Err(AttributeError::Boolean);
                },
            };
            match BoolReprs::deserialize_bool(repr) {
                Ok(b) => Ok(AttrValue::Flag(b)),
                Err(_) => Err(AttributeError::Boolean),
            }
        } else if is_text(key, "lastModified") {
            let repr = match self {
                Scalar::Number(n) => TimestampDeserialize::TsI64(*n),
                Scalar::Text(t) => TimestampDeserialize::TsString(t.clone()),
                Scalar::Flag(_) => {
                    return Err(AttributeError::Timestamp(ParseTimeError::FromString));
                },
            };
            match Timestamp::try_from(repr) {
                Ok(t) => Ok(AttrValue::Time(t)),
                Err(e) => Err(AttributeError::Timestamp(e)),
            }
        } else if is_text(key, "dir") {
            match self {
                Scalar::Text(t) => {
                    let chars = to_chars(t.as_str());
                    if chars.len() > 0 && chars[0] != '/' && is_free_of(chars.as_slice(), '&') {
                        Ok(AttrValue::Text(t.clone()))
                    } else {
                        Err(AttributeError::Dir)
                    }
                },
                _ => Err(AttributeError::Dir),
            }
        } else {
            let text = match self {
                Scalar::Text(t) => t.clone(),
                Scalar::Flag(b) => bool_string(*b),
                Scalar::Number(n) => decimal_text(*n),
            };
            if is_free_of(to_chars(text.as_str()).as_slice(), '&') {
                Ok(AttrValue::Text(text))
            } else {
                Err(AttributeError::Malformed)
            }
        }
    }

    /// The scalar that holds a typed value.
    pub fn encode(value: &AttrValue) -> (r: Scalar)
        ensures
            r@ == value_scalar(value@),
    {
        match value {
            AttrValue::Text(t) => Scalar::Text(t.clone()),
            AttrValue::Flag(b) => Scalar::Flag(*b),
            AttrValue::Time(t) => Scalar::Number(t.0),
        }
    }
}

impl Field {
    /// The attribute that the field holds.
    pub fn to_attribute(&self) -> (r: Result<Attribute, AttributeError>)
        ensures
            match r {
                Ok(a) => field_attribute(self@) == Ok::<AttributeView, AttributeError>(a@),
                Err(e) => field_attribute(self@) == Err::<AttributeView, AttributeError>(e),
            },
    {
        let name = to_chars(self.name.as_str());
        if name.len() == 0 || !is_free_of(name.as_slice(), '=') || !is_free_of(
            name.as_slice(),
            '&',
        ) {
            return Err(AttributeError::Malformed);
        }
        match self.value.decode(name.as_slice()) {
            Ok(value) => Ok(Attribute { key: self.name.clone(), value }),
            Err(e) => Err(e),
        }
    }
}

impl Attributes {
    /// Reads the attributes among the fields of a record.
    pub fn from_fields(fields: &Vec<Field>) -> (r: Result<Attributes, AttributeError>)
        ensures
            match r {
                Ok(a) => field_attributes(fields_view(fields@), Seq::<AttributeView>::empty())
                    == Ok::<Seq<AttributeView>, AttributeError>(a@),
                Err(e) => field_attributes(fields_view(fields@), Seq::<AttributeView>::empty())
                    == Err::<Seq<AttributeView>, AttributeError>(e),
            },
    {
        let mut attributes = Attributes::new();
        let ghost all = fields_view(fields@);
        assert(all.skip(0) == all);
        let mut i: usize = 0;
        while i < fields.len()
            invariant
                i <= fields.len(),
                all == fields_view(fields@),
                field_attributes(all.skip(i as int), attributes@) == field_attributes(
                    all,
                    Seq::<AttributeView>::empty(),
                ),
            decreases fields.len() - i,
        {
            assert(all.skip(i as int)[0] == fields@[i as int]@);
            assert(all.skip(i as int).skip(1) == all.skip(i + 1));
            let field = &fields[i];
            if !names_identity(to_chars(field.name.as_str()).as_slice()) {
                match field.to_attribute() {
                    Err(e) => {
                        return Err(e);
                    },
                    Ok(a) => {
                        if attributes.contains_key(&a.key) {
                            return Err(AttributeError::Duplicate);
                        }
                        let ghost before = attributes@;
                        attributes.entries.push(a);
                        assert(attributes@ == before.push(a@));
                    },
                }
            }
            i = i + 1;
        }
        Ok(attributes)
    }

    /// Appends the fields that hold the attributes to `fields`.
    pub fn write_fields(&self, fields: &mut Vec<Field>)
        ensures
            fields_view(final(fields)@) == fields_view(old(fields)@) + attribute_fields(self@),
    {
        let ghost start = fields_view(fields@);
        let mut i: usize = 0;
        assert(attribute_fields(self@).take(0) =~= Seq::<FieldView>::empty());
        assert(start + Seq::<FieldView>::empty() =~= start);
        while i < self.entries.len()
            invariant
                i <= self.entries.len(),
                fields_view(fields@) == start + attribute_fields(self@).take(i as int),
            decreases self.entries.len() - i,
        {
            let entry = &self.entries[i];
            let ghost before = fields_view(fields@);
            let field = Field { name: entry.key.clone(), value: Scalar::encode(&entry.value) };
            fields.push(field);
            assert(field@ == attribute_field(self@[i as int]));
            assert(fields_view(fields@) =~= before.push(field@));
            assert(attribute_fields(self@).take(i + 1) =~= attribute_fields(self@).take(
                i as int,
            ).push(field@));
            i = i + 1;
        }
        assert(attribute_fields(self@).take(self.entries.len() as int) =~= attribute_fields(
            self@,
        ));
    }
}

/// The value of the first field named `name`.
pub open spec fn field_named(fields: Seq<FieldView>, name: Seq<char>) -> Option<ScalarView>
    decreases fields.len(),
{
    if fields.len() == 0 {
        None
    } else if fields[0].name == name {
        Some(fields[0].value)
    } else {
        field_named(fields.skip(1), name)
    }
}

/// The text of the first field named `name`, where that field holds text.
pub open spec fn text_named(fields: Seq<FieldView>, name: Seq<char>) -> Option<Seq<char>> {
    match field_named(fields, name) {
        Some(ScalarView::Text(t)) => Some(t),
        _ => None,
    }
}

/// Whether no field is named `name`.
pub open spec fn absent(fields: Seq<FieldView>, name: Seq<char>) -> bool {
    field_named(fields, name) is None
}

/// Whether the record holds nothing that identifies a reference but a
/// `type` and a `url`.
pub open spec fn is_url_shaped(fields: Seq<FieldView>) -> bool {
    &&& absent(fields, "owner"@)
    &&& absent(fields, "repo"@)
    &&& absent(fields, "path"@)
    &&& absent(fields, "id"@)
    &&& absent(fields, "revOrRef"@)
}

/// Whether the record holds nothing that identifies a reference but a
/// `type`, an `owner`, a `repo` and a `revOrRef`.
pub open spec fn is_service_shaped(fields: Seq<FieldView>) -> bool {
    &&& absent(fields, "url"@)
    &&& absent(fields, "path"@)
    &&& absent(fields, "id"@)
}

/// Whether the record holds nothing that identifies a reference but a
/// `type` and a `path`.
pub open spec fn is_path_shaped(fields: Seq<FieldView>) -> bool {
    &&& absent(fields, "url"@)
    &&& absent(fields, "owner"@)
    &&& absent(fields, "repo"@)
    &&& absent(fields, "id"@)
    &&& absent(fields, "revOrRef"@)
}

/// Whether the record holds nothing that identifies a reference but a
/// `type`, an `id` and a `revOrRef`.
pub open spec fn is_indirect_shaped(fields: Seq<FieldView>) -> bool {
    &&& absent(fields, "url"@)
    &&& absent(fields, "owner"@)
    &&& absent(fields, "repo"@)
    &&& absent(fields, "path"@)
}

/// The location in what follows the scheme of a `url` field: it stands
/// behind `//`, is not empty and holds no `?`.
pub open spec fn url_location(rest: Seq<char>) -> Option<Seq<char>> {
    if starts_with(rest, seq!['/', '/']) && rest.len() > 2 && lacks(rest.skip(2), '?') {
        Some(rest.skip(2))
    } else {
        None
    }
}

/// The transport and what follows the scheme of the URL of a repository:
/// `file:`, `ssh:`, `https:` or `http:`.
pub open spec fn git_url_header(url: Seq<char>) -> Option<GitHeader> {
    if after_prefix(url, bare_prefix(Transport::File)) is Some {
        Some(
            GitHeader {
                transport: Transport::File,
                rest: after_prefix(url, bare_prefix(Transport::File))->0,
            },
        )
    } else if after_prefix(url, bare_prefix(Transport::SSH)) is Some {
        Some(
            GitHeader {
                transport: Transport::SSH,
                rest: after_prefix(url, bare_prefix(Transport::SSH))->0,
            },
        )
    } else if after_prefix(url, bare_prefix(Transport::HTTPS)) is Some {
        Some(
            GitHeader {
                transport: Transport::HTTPS,
                rest: after_prefix(url, bare_prefix(Transport::HTTPS))->0,
            },
        )
    } else if after_prefix(url, bare_prefix(Transport::HTTP)) is Some {
        Some(
            GitHeader {
                transport: Transport::HTTP,
                rest: after_prefix(url, bare_prefix(Transport::HTTP))->0,
            },
        )
    } else {
        None
    }
}

/// The attributes of a record, with the error of the kind in place.
pub open spec fn file_attributes(fields: Seq<FieldView>) -> Result<
    Seq<AttributeView>,
    ParseFileError,
> {
    match field_attributes(fields, Seq::<AttributeView>::empty()) {
        Ok(a) => Ok(a),
        Err(e) => Err(ParseFileError::Attribute(e)),
    }
}

/// The file or archive that a record with a `url` holds. With a `type` the
/// record says what it is; without, the ending of the path decides, as it
/// does for a string without qualifier.
pub open spec fn decode_file_record(fields: Seq<FieldView>, typed: Option<Application>) -> Result<
    FlakeRefView,
    ParseFileError,
> {
    if !is_url_shaped(fields) {
        Err(ParseFileError::InvalidUrl)
    } else {
        match text_named(fields, "url"@) {
            None => Err(ParseFileError::InvalidUrl),
            Some(url) => match bare_header(url) {
                None => Err(ParseFileError::UnsupportedScheme),
                Some(header) => match url_location(header.rest) {
                    None => Err(ParseFileError::InvalidUrl),
                    Some(location) => match file_attributes(fields) {
                        Err(e) => Err(e),
                        Ok(attributes) => {
                            let v = FileBasedView {
                                transport: header.transport,
                                qualified: typed is Some,
                                location,
                                attributes,
                            };
                            let application = match typed {
                                Some(a) => a,
                                None => header.application,
                            };
                            match application {
                                Application::File => Ok(FlakeRefView::File(v)),
                                Application::Tarball => Ok(FlakeRefView::Tarball(v)),
                            }
                        },
                    },
                },
            },
        }
    }
}

/// The git repository that a record of type `git` holds.
pub open spec fn decode_git_record(fields: Seq<FieldView>) -> Result<GitView, ParseGitError> {
    if !is_url_shaped(fields) {
        Err(ParseGitError::InvalidUrl)
    } else {
        match text_named(fields, "url"@) {
            None => Err(ParseGitError::InvalidUrl),
            Some(url) => match git_url_header(url) {
                None => Err(ParseGitError::UnsupportedScheme),
                Some(header) => match url_location(header.rest) {
                    None => Err(ParseGitError::InvalidUrl),
                    Some(location) => match field_attributes(
                        fields,
                        Seq::<AttributeView>::empty(),
                    ) {
                        Err(e) => Err(ParseGitError::Attribute(e)),
                        Ok(attributes) => Ok(
                            GitView { transport: header.transport, location, attributes },
                        ),
                    },
                },
            },
        }
    }
}

/// The revision that the field `revOrRef` holds: none where the field is
/// missing, an error where it holds no text, or text that is empty or
/// holds `/`.
pub open spec fn decode_revision(fields: Seq<FieldView>) -> Option<Option<Seq<char>>> {
    match field_named(fields, "revOrRef"@) {
        None => Some(None),
        Some(ScalarView::Text(r)) => if r.len() > 0 && lacks(r, '/') {
            Some(Some(r))
        } else {
            None
        },
        Some(_) => None,
    }
}

/// The shorthand reference that a record of type `github` or `gitlab`
/// holds.
pub open spec fn decode_service_record(fields: Seq<FieldView>, service: Service) -> Result<
    GitServiceView,
    ParseGitServiceError,
> {
    if !is_service_shaped(fields) {
        Err(ParseGitServiceError::MalformedPath)
    } else if !(text_named(fields, "owner"@) matches Some(owner) && is_flake_id(owner)) {
        Err(ParseGitServiceError::InvalidOwner)
    } else if !(text_named(fields, "repo"@) matches Some(repo) && is_flake_id(repo)) {
        Err(ParseGitServiceError::InvalidRepo)
    } else {
        match decode_revision(fields) {
            None => Err(ParseGitServiceError::MalformedPath),
            Some(Some(r)) if !lacks(r, '?') => Err(ParseGitServiceError::MalformedPath),
            Some(rev_or_ref) => match field_attributes(fields, Seq::<AttributeView>::empty()) {
                Err(e) => Err(ParseGitServiceError::Attribute(e)),
                Ok(attributes) => Ok(
                    GitServiceView {
                        service,
                        owner: text_named(fields, "owner"@)->0,
                        repo: text_named(fields, "repo"@)->0,
                        rev_or_ref,
                        attributes,
                    },
                ),
            },
        }
    }
}

/// The path reference that a record of type `path` holds.
pub open spec fn decode_path_record(fields: Seq<FieldView>) -> Result<PathView, ParsePathRefError> {
    if !is_path_shaped(fields) {
        Err(ParsePathRefError::InvalidPath)
    } else if !(text_named(fields, "path"@) matches Some(path) && path.len() > 0 && lacks(
        path,
        '?',
    )) {
        Err(ParsePathRefError::InvalidPath)
    } else {
        match field_attributes(fields, Seq::<AttributeView>::empty()) {
            Err(e) => Err(ParsePathRefError::Attribute(e)),
            Ok(attributes) => Ok(PathView { path: text_named(fields, "path"@)->0, attributes }),
        }
    }
}

/// The indirect reference that a record of type `indirect` holds. Such a
/// record has no attributes.
pub open spec fn decode_indirect_record(fields: Seq<FieldView>) -> Result<
    IndirectView,
    ParseIndirectError,
> {
    if !(text_named(fields, "id"@) matches Some(id) && is_flake_id(id)) {
        Err(ParseIndirectError::InvalidIdentifier)
    } else if !(is_indirect_shaped(fields) && field_attributes(
        fields,
        Seq::<AttributeView>::empty(),
    ) == Ok::<Seq<AttributeView>, AttributeError>(Seq::<AttributeView>::empty())) {
        Err(ParseIndirectError::MalformedPath)
    } else {
        match decode_revision(fields) {
            Some(rev_or_ref) => Ok(IndirectView { id: text_named(fields, "id"@)->0, rev_or_ref }),
            None => Err(ParseIndirectError::MalformedPath),
        }
    }
}

/// The reference that a record with a `type` of the given name holds.
pub open spec fn decode_typed_record(fields: Seq<FieldView>, kind: Seq<char>) -> Result<
    FlakeRefView,
    ParseFlakeRefError,
> {
    if kind == "file"@ {
        match decode_file_record(fields, Some(Application::File)) {
            Ok(v) => Ok(v),
            Err(e) => Err(ParseFlakeRefError::File(e)),
        }
    } else if kind == "tarball"@ {
        match decode_file_record(fields, Some(Application::Tarball)) {
            Ok(v) => Ok(v),
            Err(e) => Err(ParseFlakeRefError::File(e)),
        }
    } else if kind == "git"@ {
        match decode_git_record(fields) {
            Ok(v) => Ok(FlakeRefView::Git(v)),
            Err(e) => Err(ParseFlakeRefError::Git(e)),
        }
    } else if kind == "github"@ {
        match decode_service_record(fields, Service::Github) {
            Ok(v) => Ok(FlakeRefView::GitService(v)),
            Err(e) => Err(ParseFlakeRefError::GitService(e)),
        }
    } else if kind == "gitlab"@ {
        match decode_service_record(fields, Service::Gitlab) {
            Ok(v) => Ok(FlakeRefView::GitService(v)),
            Err(e) => Err(ParseFlakeRefError::GitService(e)),
        }
    } else if kind == "path"@ {
        match decode_path_record(fields) {
            Ok(v) => Ok(FlakeRefView::Path(v)),
            Err(e) => Err(ParseFlakeRefError::Path(e)),
        }
    } else if kind == "indirect"@ {
        match decode_indirect_record(fields) {
            Ok(v) => Ok(FlakeRefView::Indirect(v)),
            Err(e) => Err(ParseFlakeRefError::Indirect(e)),
        }
    } else {
        Err(ParseFlakeRefError::Invalid)
    }
}

/// The flake reference that a record holds.
///
/// A record that names its `type` is read as that kind. A record without
/// `type` but with a `url` is a file or an archive, as the ending of the
/// path says. Any other record has the shape of no variant. Once the kind
/// is known, a failure of its fields is the result.
pub open spec fn decode_record(fields: Seq<FieldView>) -> Result<FlakeRefView, ParseFlakeRefError> {
    match field_named(fields, "type"@) {
        Some(ScalarView::Text(kind)) => decode_typed_record(fields, kind),
        Some(_) => Err(ParseFlakeRefError::Invalid),
        None => if absent(fields, "url"@) {
            Err(ParseFlakeRefError::Invalid)
        } else {
            match decode_file_record(fields, None) {
                Ok(v) => Ok(v),
                Err(e) => Err(ParseFlakeRefError::File(e)),
            }
        },
    }
}

/// A field that holds text.
pub open spec fn text_field(name: Seq<char>, text: Seq<char>) -> FieldView {
    FieldView { name, value: ScalarView::Text(text) }
}

/// The URL of a location reached over a transport.
pub open spec fn url_of(transport: Transport, location: Seq<char>) -> Seq<char> {
    bare_prefix(transport) + seq!['/', '/'] + location
}

/// The field that holds a revision, if there is one.
pub open spec fn revision_fields(rev_or_ref: Option<Seq<char>>) -> Seq<FieldView> {
    match rev_or_ref {
        Some(r) => seq![text_field("revOrRef"@, r)],
        None => Seq::<FieldView>::empty(),
    }
}

/// The fields that identify a file or an archive: the `type` where the
/// reference is qualified, and the `url`.
pub open spec fn file_identity(application: Application, v: FileBasedView) -> Seq<FieldView> {
    (if v.qualified {
        seq![text_field("type"@, application.name())]
    } else {
        Seq::<FieldView>::empty()
    }) + seq![text_field("url"@, url_of(v.transport, v.location))]
}

/// The fields that identify a reference.
pub open spec fn identity_fields(v: FlakeRefView) -> Seq<FieldView> {
    match v {
        FlakeRefView::File(r) => file_identity(Application::File, r),
        FlakeRefView::Tarball(r) => file_identity(Application::Tarball, r),
        FlakeRefView::Git(r) => seq![
            text_field("type"@, "git"@),
            text_field("url"@, url_of(r.transport, r.location)),
        ],
        FlakeRefView::GitService(r) => seq![
            text_field("type"@, r.service.name()),
            text_field("owner"@, r.owner),
            text_field("repo"@, r.repo),
        ] + revision_fields(r.rev_or_ref),
        FlakeRefView::Path(r) => seq![text_field("type"@, "path"@), text_field("path"@, r.path)],
        FlakeRefView::Indirect(r) => seq![
            text_field("type"@, "indirect"@),
            text_field("id"@, r.id),
        ] + revision_fields(r.rev_or_ref),
    }
}

/// The attributes of a reference.
pub open spec fn attributes_of(v: FlakeRefView) -> Seq<AttributeView> {
    match v {
        FlakeRefView::File(r) => r.attributes,
        FlakeRefView::Tarball(r) => r.attributes,
        FlakeRefView::Git(r) => r.attributes,
        FlakeRefView::GitService(r) => r.attributes,
        FlakeRefView::Path(r) => r.attributes,
        FlakeRefView::Indirect(_) => Seq::<AttributeView>::empty(),
    }
}

/// The record that holds a reference: the fields that identify it, then
/// its attributes, each in its native type.
pub open spec fn record_of(v: FlakeRefView) -> Seq<FieldView> {
    identity_fields(v) + attribute_fields(attributes_of(v))
}

/// The value of the first field named `name`.
pub fn find_field<'a>(fields: &'a Vec<Field>, name: &str) -> (r: Option<&'a Scalar>)
    ensures
        match r {
            Some(value) => field_named(fields_view(fields@), name@) == Some(value@),
            None => field_named(fields_view(fields@), name@) is None,
        },
{
    let ghost all = fields_view(fields@);
    assert(all.skip(0) == all);
    let mut i: usize = 0;
    while i < fields.len()
        invariant
            i <= fields.len(),
            all == fields_view(fields@),
            field_named(all.skip(i as int), name@) == field_named(all, name@),
        decreases fields.len() - i,
    {
        assert(all.skip(i as int)[0] == fields@[i as int]@);
        assert(all.skip(i as int).skip(1) == all.skip(i + 1));
        if is_text(to_chars(fields[i].name.as_str()).as_slice(), name) {
            return Some(&fields[i].value);
        }
        i = i + 1;
    }
    None
}

/// The text of the first field named `name`, where that field holds text.
pub fn find_text<'a>(fields: &'a Vec<Field>, name: &str) -> (r: Option<&'a String>)
    ensures
        match r {
            Some(text) => text_named(fields_view(fields@), name@) == Some(text@),
            None => text_named(fields_view(fields@), name@) is None,
        },
{
    match find_field(fields, name) {
        Some(Scalar::Text(t)) => Some(t),
        _ => None,
    }
}

fn push_text(fields: &mut Vec<Field>, name: &str, text: String)
    ensures
        fields_view(final(fields)@) == fields_view(old(fields)@).push(text_field(name@, text@)),
{
    let ghost before = fields_view(fields@);
    let field = Field { name: name.to_owned(), value: Scalar::Text(text) };
    fields.push(field);
    assert(fields_view(fields@) =~= before.push(field@));
}

fn push_revision(fields: &mut Vec<Field>, rev_or_ref: &Option<String>)
    ensures
        fields_view(final(fields)@) == fields_view(old(fields)@) + revision_fields(
            optional_text(*rev_or_ref),
        ),
{
    match rev_or_ref {
        Some(r) => {
            let ghost before = fields_view(fields@);
            push_text(fields, "revOrRef", r.clone());
            assert(fields_view(fields@) =~= before + revision_fields(Some(r@)));
        },
        None => {
            assert(fields_view(fields@) + Seq::<FieldView>::empty() =~= fields_view(fields@));
        },
    }
}

fn url_text(transport: Transport, location: &String) -> (r: String)
    ensures
        r@ == url_of(transport, location@),
{
    let mut out = String::new();
    out.append(transport.scheme_text());
    out.append(":");
    out.append("//");
    out.append(location.as_str());
    proof {
        reveal_strlit(":");
        reveal_strlit("//");
        assert(out@ =~= url_of(transport, location@));
    }
    out
}

fn is_absent(fields: &Vec<Field>, name: &str) -> (r: bool)
    ensures
        r == absent(fields_view(fields@), name@),
{
    find_field(fields, name).is_none()
}

fn has_url_shape(fields: &Vec<Field>) -> (r: bool)
    ensures
        r == is_url_shaped(fields_view(fields@)),
{
    is_absent(fields, "owner") && is_absent(fields, "repo") && is_absent(fields, "path")
        && is_absent(fields, "id") && is_absent(fields, "revOrRef")
}

fn has_service_shape(fields: &Vec<Field>) -> (r: bool)
    ensures
        r == is_service_shaped(fields_view(fields@)),
{
    is_absent(fields, "url") && is_absent(fields, "path") && is_absent(fields, "id")
}

fn has_path_shape(fields: &Vec<Field>) -> (r: bool)
    ensures
        r == is_path_shaped(fields_view(fields@)),
{
    is_absent(fields, "url") && is_absent(fields, "owner") && is_absent(fields, "repo")
        && is_absent(fields, "id") && is_absent(fields, "revOrRef")
}

fn has_indirect_shape(fields: &Vec<Field>) -> (r: bool)
    ensures
        r == is_indirect_shaped(fields_view(fields@)),
{
    is_absent(fields, "url") && is_absent(fields, "owner") && is_absent(fields, "repo")
        && is_absent(fields, "path")
}

fn read_url_location(rest: &[char]) -> (r: Option<String>)
    ensures
        optional_text(r) == url_location(rest@),
{
    proof {
        reveal_strlit("//");
        assert("//"@ =~= seq!['/', '/']);
    }
    if has_prefix(rest, "//") && rest.len() > 2 && is_free_of(skip_chars(rest, 2), '?') {
        Some(to_string(skip_chars(rest, 2)))
    } else {
        None
    }
}

fn read_git_url_as<'a>(url: &'a [char], transport: Transport) -> (r: Option<&'a [char]>)
    ensures
        match r {
            Some(rest) => after_prefix(url@, bare_prefix(transport)) == Some(rest@),
            None => after_prefix(url@, bare_prefix(transport)) is None,
        },
{
    let mut prefix = String::new();
    prefix.append(transport.scheme_text());
    prefix.append(":");
    proof {
        reveal_strlit(":");
        assert(prefix@ =~= bare_prefix(transport));
    }
    strip_prefix(url, prefix.as_str())
}

fn read_git_url_header<'a>(url: &'a [char]) -> (r: Option<(Transport, &'a [char])>)
    ensures
        match r {
            Some(h) => git_url_header(url@) == Some(GitHeader { transport: h.0, rest: h.1@ }),
            None => git_url_header(url@) is None,
        },
{
    if let Some(rest) = read_git_url_as(url, Transport::File) {
        return Some((Transport::File, rest));
    }
    if let Some(rest) = read_git_url_as(url, Transport::SSH) {
        return Some((Transport::SSH, rest));
    }
    if let Some(rest) = read_git_url_as(url, Transport::HTTPS) {
        return Some((Transport::HTTPS, rest));
    }
    if let Some(rest) = read_git_url_as(url, Transport::HTTP) {
        return Some((Transport::HTTP, rest));
    }
    None
}

fn read_revision(fields: &Vec<Field>) -> (r: Option<Option<String>>)
    ensures
        match r {
            Some(rev_or_ref) => decode_revision(fields_view(fields@)) == Some(
                optional_text(rev_or_ref),
            ),
            None => decode_revision(fields_view(fields@)) is None,
        },
{
    match find_field(fields, "revOrRef") {
        None => Some(None),
        Some(Scalar::Text(r)) => {
            let chars = to_chars(r.as_str());
            if chars.len() > 0 && is_free_of(chars.as_slice(), '/') {
                Some(Some(r.clone()))
            } else {
                None
            }
        },
        Some(_) => None,
    }
}

fn read_identifier(fields: &Vec<Field>, name: &str) -> (r: Option<String>)
    ensures
        match r {
            Some(id) => text_named(fields_view(fields@), name@) == Some(id@) && is_flake_id(id@),
            None => !(text_named(fields_view(fields@), name@) matches Some(id) && is_flake_id(
                id,
            )),
        },
{
    match find_text(fields, name) {
        Some(text) => {
            if is_identifier(to_chars(text.as_str()).as_slice()) {
                Some(text.clone())
            } else {
                None
            }
        },
        None => None,
    }
}

impl FlakeRef {
    fn from_file_record(fields: &Vec<Field>, typed: Option<Application>) -> (r: Result<
        FlakeRef,
        ParseFileError,
    >)
        ensures
            match r {
                Ok(v) => v.is_consistent() && decode_file_record(fields_view(fields@), typed)
                    == Ok::<FlakeRefView, ParseFileError>(v@),
                Err(e) => decode_file_record(fields_view(fields@), typed) == Err::<
                    FlakeRefView,
                    ParseFileError,
                >(e),
            },
    {
        if !has_url_shape(fields) {
            return Err(ParseFileError::InvalidUrl);
        }
        let url = match find_text(fields, "url") {
            Some(url) => to_chars(url.as_str()),
            None => {
                return Err(ParseFileError::InvalidUrl);
            },
        };
        let header = match read_bare_header(url.as_slice()) {
            Some(header) => header,
            None => {
                return Err(ParseFileError::UnsupportedScheme);
            },
        };
        proof {
            lemma_bare_header_begins(url@);
        }
        let location = match read_url_location(header.rest) {
            Some(location) => location,
            None => {
                return Err(ParseFileError::InvalidUrl);
            },
        };
        let attributes = match Attributes::from_fields(fields) {
            Ok(attributes) => attributes,
            Err(e) => {
                return Err(ParseFileError::Attribute(e));
            },
        };
        let application = match typed {
            Some(a) => a,
            None => header.application,
        };
        let transport = header.transport;
        let qualified = typed.is_some();
        match application {
            Application::File => {
                let r = FileRef { transport, qualified, location, attributes };
                match transport {
                    Transport::File => Ok(FlakeRef::FileFile(r)),
                    Transport::HTTP => Ok(FlakeRef::FileHTTP(r)),
                    _ => Ok(FlakeRef::FileHTTPS(r)),
                }
            },
            Application::Tarball => {
                let r = TarballRef { transport, qualified, location, attributes };
                match transport {
                    Transport::File => Ok(FlakeRef::TarballFile(r)),
                    Transport::HTTP => Ok(FlakeRef::TarballHTTP(r)),
                    _ => Ok(FlakeRef::TarballHTTPS(r)),
                }
            },
        }
    }

    fn from_git_record(fields: &Vec<Field>) -> (r: Result<GitRef, ParseGitError>)
        ensures
            match r {
                Ok(v) => decode_git_record(fields_view(fields@)) == Ok::<GitView, ParseGitError>(
                    v@,
                ),
                Err(e) => decode_git_record(fields_view(fields@)) == Err::<GitView, ParseGitError>(
                    e,
                ),
            },
    {
        if !has_url_shape(fields) {
            return Err(ParseGitError::InvalidUrl);
        }
        let url = match find_text(fields, "url") {
            Some(url) => to_chars(url.as_str()),
            None => {
                return Err(ParseGitError::InvalidUrl);
            },
        };
        let header = match read_git_url_header(url.as_slice()) {
            Some(header) => header,
            None => {
                return Err(ParseGitError::UnsupportedScheme);
            },
        };
        let location = match read_url_location(header.1) {
            Some(location) => location,
            None => {
                return Err(ParseGitError::InvalidUrl);
            },
        };
        match Attributes::from_fields(fields) {
            Ok(attributes) => Ok(GitRef { transport: header.0, location, attributes }),
            Err(e) => Err(ParseGitError::Attribute(e)),
        }
    }

    fn from_service_record(fields: &Vec<Field>, service: Service) -> (r: Result<
        GitServiceRef,
        ParseGitServiceError,
    >)
        ensures
            match r {
                Ok(v) => decode_service_record(fields_view(fields@), service) == Ok::<
                    GitServiceView,
                    ParseGitServiceError,
                >(v@),
                Err(e) => decode_service_record(fields_view(fields@), service) == Err::<
                    GitServiceView,
                    ParseGitServiceError,
                >(e),
            },
    {
        if !has_service_shape(fields) {
            return Err(ParseGitServiceError::MalformedPath);
        }
        let owner = match read_identifier(fields, "owner") {
            Some(owner) => owner,
            None => {
                return Err(ParseGitServiceError::InvalidOwner);
            },
        };
        let repo = match read_identifier(fields, "repo") {
            Some(repo) => repo,
            None => {
                return Err(ParseGitServiceError::InvalidRepo);
            },
        };
        let rev_or_ref = match read_revision(fields) {
            Some(rev_or_ref) => rev_or_ref,
            None => {
                return Err(ParseGitServiceError::MalformedPath);
            },
        };
        if let Some(r) = &rev_or_ref {
            if !is_free_of(to_chars(r.as_str()).as_slice(), '?') {
                return Err(ParseGitServiceError::MalformedPath);
            }
        }
        match Attributes::from_fields(fields) {
            Ok(attributes) => Ok(GitServiceRef { service, owner, repo, rev_or_ref, attributes }),
            Err(e) => Err(ParseGitServiceError::Attribute(e)),
        }
    }

    fn from_path_record(fields: &Vec<Field>) -> (r: Result<PathRef, ParsePathRefError>)
        ensures
            match r {
                Ok(v) => decode_path_record(fields_view(fields@)) == Ok::<
                    PathView,
                    ParsePathRefError,
                >(v@),
                Err(e) => decode_path_record(fields_view(fields@)) == Err::<
                    PathView,
                    ParsePathRefError,
                >(e),
            },
    {
        if !has_path_shape(fields) {
            return Err(ParsePathRefError::InvalidPath);
        }
        let path = match find_text(fields, "path") {
            Some(path) => path,
            None => {
                return Err(ParsePathRefError::InvalidPath);
            },
        };
        let chars = to_chars(path.as_str());
        if !(chars.len() > 0 && is_free_of(chars.as_slice(), '?')) {
            return Err(ParsePathRefError::InvalidPath);
        }
        match Attributes::from_fields(fields) {
            Ok(attributes) => Ok(PathRef { path: path.clone(), attributes }),
            Err(e) => Err(ParsePathRefError::Attribute(e)),
        }
    }

    fn from_indirect_record(fields: &Vec<Field>) -> (r: Result<IndirectRef, ParseIndirectError>)
        ensures
            match r {
                Ok(v) => decode_indirect_record(fields_view(fields@)) == Ok::<
                    IndirectView,
                    ParseIndirectError,
                >(v@),
                Err(e) => decode_indirect_record(fields_view(fields@)) == Err::<
                    IndirectView,
                    ParseIndirectError,
                >(e),
            },
    {
        let id = match read_identifier(fields, "id") {
            Some(id) => id,
            None => {
                return Err(ParseIndirectError::InvalidIdentifier);
            },
        };
        if !has_indirect_shape(fields) {
            return Err(ParseIndirectError::MalformedPath);
        }
        match Attributes::from_fields(fields) {
            Ok(attributes) => {
                if !attributes.is_empty() {
                    return Err(ParseIndirectError::MalformedPath);
                }
                assert(attributes@ =~= Seq::<AttributeView>::empty());
            },
            Err(_) => {
                return Err(ParseIndirectError::MalformedPath);
            },
        }
        match read_revision(fields) {
            Some(rev_or_ref) => Ok(IndirectRef { id, rev_or_ref }),
            None => Err(ParseIndirectError::MalformedPath),
        }
    }

    /// The record that holds the reference.
    pub fn to_fields(&self) -> (fields: Vec<Field>)
        ensures
            fields_view(fields@) == record_of(self@),
    {
        let mut fields: Vec<Field> = Vec::new();
        assert(fields_view(fields@) =~= Seq::<FieldView>::empty());
        match self {
            FlakeRef::FileFile(r) | FlakeRef::FileHTTP(r) | FlakeRef::FileHTTPS(r) => {
                if r.qualified {
                    push_text(&mut fields, "type", "file".to_owned());
                }
                push_text(&mut fields, "url", url_text(r.transport, &r.location));
                assert(fields_view(fields@) =~= identity_fields(self@));
                r.attributes.write_fields(&mut fields);
            },
            FlakeRef::TarballFile(r) | FlakeRef::TarballHTTP(r) | FlakeRef::TarballHTTPS(r) => {
                if r.qualified {
                    push_text(&mut fields, "type", "tarball".to_owned());
                }
                push_text(&mut fields, "url", url_text(r.transport, &r.location));
                assert(fields_view(fields@) =~= identity_fields(self@));
                r.attributes.write_fields(&mut fields);
            },
            FlakeRef::GitPath(r) | FlakeRef::GitSsh(r) | FlakeRef::GitHttps(r) | FlakeRef::GitHttp(
                r,
            ) => {
                push_text(&mut fields, "type", "git".to_owned());
                push_text(&mut fields, "url", url_text(r.transport, &r.location));
                assert(fields_view(fields@) =~= identity_fields(self@));
                r.attributes.write_fields(&mut fields);
            },
            FlakeRef::Github(r) | FlakeRef::Gitlab(r) => {
                push_text(&mut fields, "type", r.service.name_text().to_owned());
                push_text(&mut fields, "owner", r.owner.clone());
                push_text(&mut fields, "repo", r.repo.clone());
                push_revision(&mut fields, &r.rev_or_ref);
                assert(fields_view(fields@) =~= identity_fields(self@));
                r.attributes.write_fields(&mut fields);
            },
            FlakeRef::Path(r) => {
                push_text(&mut fields, "type", "path".to_owned());
                push_text(&mut fields, "path", r.path.clone());
                assert(fields_view(fields@) =~= identity_fields(self@));
                r.attributes.write_fields(&mut fields);
            },
            FlakeRef::Indirect(r) => {
                push_text(&mut fields, "type", "indirect".to_owned());
                push_text(&mut fields, "id", r.id.clone());
                push_revision(&mut fields, &r.rev_or_ref);
                assert(fields_view(fields@) =~= identity_fields(self@));
                assert(attribute_fields(attributes_of(self@)) =~= Seq::<FieldView>::empty());
                assert(fields_view(fields@) + Seq::<FieldView>::empty() =~= fields_view(fields@));
            },
        }
        fields
    }

    /// Reads the flake reference that a record holds.
    pub fn from_fields(fields: &Vec<Field>) -> (r: Result<FlakeRef, ParseFlakeRefError>)
        ensures
            match r {
                Ok(v) => v.is_consistent() && v@.well_formed() && decode_record(
                    fields_view(fields@),
                ) == Ok::<FlakeRefView, ParseFlakeRefError>(v@),
                Err(e) => decode_record(fields_view(fields@)) == Err::<
                    FlakeRefView,
                    ParseFlakeRefError,
                >(e),
            },
    {
        proof {
            lemma_decoded_is_well_formed(fields_view(fields@));
        }
        let kind = match find_field(fields, "type") {
            Some(Scalar::Text(kind)) => to_chars(kind.as_str()),
            Some(_) => {
                return Err(ParseFlakeRefError::Invalid);
            },
            None => {
                if find_field(fields, "url").is_none() {
                    return Err(ParseFlakeRefError::Invalid);
                }
                return match FlakeRef::from_file_record(fields, None) {
                    Ok(v) => Ok(v),
                    Err(e) => Err(ParseFlakeRefError::File(e)),
                };
            },
        };
        let kind = kind.as_slice();
        if is_text(kind, "file") {
            match FlakeRef::from_file_record(fields, Some(Application::File)) {
                Ok(v) => Ok(v),
                Err(e) => Err(ParseFlakeRefError::File(e)),
            }
        } else if is_text(kind, "tarball") {
            match FlakeRef::from_file_record(fields, Some(Application::Tarball)) {
                Ok(v) => Ok(v),
                Err(e) => Err(ParseFlakeRefError::File(e)),
            }
        } else if is_text(kind, "git") {
            match FlakeRef::from_git_record(fields) {
                Ok(v) => Ok(FlakeRef::from_git(v)),
                Err(e) => Err(ParseFlakeRefError::Git(e)),
            }
        } else if is_text(kind, "github") {
            match FlakeRef::from_service_record(fields, Service::Github) {
                Ok(v) => Ok(FlakeRef::from_git_service(v)),
                Err(e) => Err(ParseFlakeRefError::GitService(e)),
            }
        } else if is_text(kind, "gitlab") {
            match FlakeRef::from_service_record(fields, Service::Gitlab) {
                Ok(v) => Ok(FlakeRef::from_git_service(v)),
                Err(e) => Err(ParseFlakeRefError::GitService(e)),
            }
        } else if is_text(kind, "path") {
            match FlakeRef::from_path_record(fields) {
                Ok(v) => Ok(FlakeRef::Path(v)),
                Err(e) => Err(ParseFlakeRefError::Path(e)),
            }
        } else if is_text(kind, "indirect") {
            match FlakeRef::from_indirect_record(fields) {
                Ok(v) => Ok(FlakeRef::Indirect(v)),
                Err(e) => Err(ParseFlakeRefError::Indirect(e)),
            }
        } else {
            Err(ParseFlakeRefError::Invalid)
        }
    }
}

} // verus!
