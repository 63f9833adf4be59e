//! References to a path on the local disk.

use crate::flake_ref::attributes::{
    attributes_well_formed, instants_read_back, AttributeError, AttributeView, Attributes,
};
use crate::flake_ref::locator::{
    lemma_plain_tail_is_kept, lemma_tail_round_trip, lemma_tail_well_formed, parse_tail,
    read_tail, render_tail, tail_is_plain, write_tail, LocatorError,
};
use crate::text::{
    after_prefix, lacks, lemma_after_prefix, lemma_prefix_chars, lemma_prefix_parts,
    strip_prefix, to_chars,
};
use vstd::prelude::*;

verus! {

/// A reference to a path on the local disk, absolute or relative.
#[derive(Debug, Clone, PartialEq, Eq)]
pub struct PathRef {
    pub path: String,
    pub attributes: Attributes,
}

/// The model of a [`PathRef`].
pub struct PathView {
    pub path: Seq<char>,
    pub attributes: Seq<AttributeView>,
}

impl View for PathRef {
    type V = PathView;

    open spec fn view(&self) -> PathView {
        PathView { path: self.path@, attributes: self.attributes@ }
    }
}

/// Why a string is no reference to a path.
#[derive(Debug, Clone, Copy, PartialEq, Eq, Structural)]
pub enum ParsePathRefError {
    /// The string does not begin with `path:`.
    UnsupportedScheme,
    /// No path stands after the scheme.
    InvalidPath,
    /// The tail is no attribute set.
    Attribute(AttributeError),
}

/// What follows `path:` in `s`.
pub open spec fn path_rest(s: Seq<char>) -> Option<Seq<char>> {
    after_prefix(s, "path:"@)
}

/// The reference that `rest` spells after `path:`.
pub open spec fn parse_path_rest(rest: Seq<char>) -> Result<PathView, ParsePathRefError> {
    match parse_tail(rest) {
        Ok(p) => Ok(PathView { path: p.0, attributes: p.1 }),
        Err(LocatorError::Malformed) => Err(ParsePathRefError::InvalidPath),
        Err(LocatorError::Attribute(e)) => Err(ParsePathRefError::Attribute(e)),
    }
}

/// The path reference that `s` spells.
pub open spec fn parse_path(s: Seq<char>) -> Result<PathView, ParsePathRefError> {
    match path_rest(s) {
        Some(rest) => parse_path_rest(rest),
        None => Err(ParsePathRefError::UnsupportedScheme),
    }
}

/// The canonical spelling of a path reference.
pub open spec fn render_path(v: PathView) -> Seq<char> {
    "path:"@ + v.path + render_tail(v.attributes)
}

/// Whether a path reference can be spelled: the path is not empty and
/// holds no `?`, and the attributes are well formed.
pub open spec fn path_well_formed(v: PathView) -> bool {
    &&& v.path.len() > 0
    &&& lacks(v.path, '?')
    &&& attributes_well_formed(v.attributes)
}

/// The characters of the scheme.
pub proof fn lemma_path_scheme()
    ensures
        "path:"@ == seq!['p', 'a', 't', 'h', ':'],
{
    reveal_strlit("path:");
    assert("path:"@ =~= seq!['p', 'a', 't', 'h', ':']);
}

/// A path reference begins with `p`.
pub proof fn lemma_path_begins(s: Seq<char>)
    requires
        path_rest(s) is Some,
    ensures
        s.len() >= 5,
        s[0] == 'p',
{
    lemma_path_scheme();
    lemma_prefix_chars(s, "path:"@);
}

/// The path reference that a string spells is well formed.
pub proof fn lemma_path_well_formed(s: Seq<char>)
    ensures
        parse_path(s) matches Ok(v) ==> path_well_formed(v),
{
    if let Some(rest) = path_rest(s) {
        lemma_tail_well_formed(rest);
    }
}

/// Reading the canonical spelling of a well-formed path reference gives
/// the reference back.
pub proof fn lemma_path_round_trip(v: PathView)
    requires
        path_well_formed(v),
        instants_read_back(v.attributes),
    ensures
        path_rest(render_path(v)) == Some(v.path + render_tail(v.attributes)),
        parse_path(render_path(v)) == Ok::<PathView, ParsePathRefError>(v),
        render_path(v).len() >= 5,
        render_path(v)[0] == 'p',
{
    let rest = v.path + render_tail(v.attributes);
    assert(render_path(v) =~= "path:"@ + rest);
    lemma_after_prefix("path:"@, rest);
    lemma_path_begins(render_path(v));
    lemma_tail_round_trip(v.path, v.attributes);
}

/// A string with the scheme `path:` and a plain tail is the canonical
/// spelling of what it spells.
pub proof fn lemma_plain_path_is_kept(s: Seq<char>)
    requires
        path_rest(s) matches Some(rest) && tail_is_plain(rest),
    ensures
        parse_path(s) matches Ok(v) ==> render_path(v) == s,
{
    let rest = path_rest(s)->0;
    lemma_prefix_parts(s, "path:"@);
    lemma_plain_tail_is_kept(rest);
    if let Ok(v) = parse_path(s) {
        assert(render_path(v) =~= "path:"@ + (v.path + render_tail(v.attributes)));
    }
}

/// What follows `path:` in `s`.
pub fn read_path_rest<'a>(s: &'a [char]) -> (r: Option<&'a [char]>)
    ensures
        match r {
            Some(rest) => path_rest(s@) == Some(rest@),
            None => path_rest(s@) is None,
        },
{
    strip_prefix(s, "path:")
}

impl PathRef {
    /// Whether `s` is shaped like a path reference: it begins with `path:`.
    pub fn parses(s: &str) -> (r: bool)
        ensures
            r == path_rest(s@) is Some,
    {
        let chars = to_chars(s);
        read_path_rest(chars.as_slice()).is_some()
    }

    /// The reference that `rest` spells after `path:`.
    pub fn from_rest(rest: &[char]) -> (r: Result<PathRef, ParsePathRefError>)
        ensures
            match r {
                Ok(v) => parse_path_rest(rest@) == Ok::<PathView, ParsePathRefError>(v@),
                Err(e) => parse_path_rest(rest@) == Err::<PathView, ParsePathRefError>(e),
            },
    {
        match read_tail(rest) {
            Ok(p) => Ok(PathRef { path: p.0, attributes: p.1 }),
            Err(LocatorError::Malformed) => Err(ParsePathRefError::InvalidPath),
            Err(LocatorError::Attribute(e)) => Err(ParsePathRefError::Attribute(e)),
        }
    }

    /// Reads a path reference.
    pub fn from_str(s: &str) -> (r: Result<PathRef, ParsePathRefError>)
        ensures
            match r {
                Ok(v) => parse_path(s@) == Ok::<PathView, ParsePathRefError>(v@),
                Err(e) => parse_path(s@) == Err::<PathView, ParsePathRefError>(e),
            },
    {
        let chars = to_chars(s);
        match read_path_rest(chars.as_slice()) {
            Some(rest) => PathRef::from_rest(rest),
            None => Err(ParsePathRefError::UnsupportedScheme),
        }
    }

    /// The canonical spelling.
    pub fn to_string(&self) -> (r: String)
        ensures
            r@ == render_path(self@),
    {
        let mut out = String::new();
        out.append("path:");
        out.append(self.path.as_str());
        write_tail(&mut out, &self.attributes);
        out
    }
}

} // verus!
