//! Indirect references: a name that a registry resolves later.

use crate::flake_ref::git_service::{
    lemma_parts_are_kept, render_revision, revision_well_formed, write_revision,
};
use crate::flake_ref::identifier::{
    is_flake_id, is_id_start, is_identifier, lemma_identifier_chars,
};
use crate::text::{
    after_prefix, find, join, lemma_after_prefix, lemma_find_from, lemma_prefix_chars,
    lemma_prefix_parts, lemma_split_join,
    lemma_split_len, lemma_split_pieces, optional_text, split, split_chars, strip_prefix,
    to_chars, to_string, views,
};
use vstd::prelude::*;

verus! {

/// A reference through a registry.
#[derive(Debug, Clone, PartialEq, Eq)]
pub struct IndirectRef {
    /// The name under which the registry knows the flake.
    pub id: String,
    /// A branch, a tag or a commit, where the reference names one.
    pub rev_or_ref: Option<String>,
}

/// The model of an [`IndirectRef`].
pub struct IndirectView {
    pub id: Seq<char>,
    pub rev_or_ref: Option<Seq<char>>,
}

impl View for IndirectRef {
    type V = IndirectView;

    open spec fn view(&self) -> IndirectView {
        IndirectView { id: self.id@, rev_or_ref: optional_text(self.rev_or_ref) }
    }
}

/// Why a string is no indirect reference.
#[derive(Debug, Clone, Copy, PartialEq, Eq, Structural)]
pub enum ParseIndirectError {
    /// The string neither begins with `flake:` nor is a bare name.
    UnsupportedScheme,
    /// The name is no identifier.
    InvalidIdentifier,
    /// There are more than two parts between `/`, or the second is empty.
    MalformedPath,
}

/// The reference that `rest` spells: an identifier, and after a `/` a
/// revision that is not empty.
pub open spec fn parse_indirect_rest(rest: Seq<char>) -> Result<IndirectView, ParseIndirectError> {
    let parts = split(rest, '/');
    if parts.len() > 2 {
        Err(ParseIndirectError::MalformedPath)
    } else if !is_flake_id(parts[0]) {
        Err(ParseIndirectError::InvalidIdentifier)
    } else if parts.len() == 1 {
        Ok(IndirectView { id: parts[0], rev_or_ref: None })
    } else if parts[1].len() == 0 {
        Err(ParseIndirectError::MalformedPath)
    } else {
        Ok(IndirectView { id: parts[0], rev_or_ref: Some(parts[1]) })
    }
}

/// What follows `flake:` in `s`.
pub open spec fn flake_rest(s: Seq<char>) -> Option<Seq<char>> {
    after_prefix(s, "flake:"@)
}

/// Whether `s` is an indirect reference without its scheme: a bare name,
/// with or without a revision.
pub open spec fn is_bare_indirect(s: Seq<char>) -> bool {
    parse_indirect_rest(s) is Ok
}

/// The indirect reference that `s` spells, with `flake:` or bare.
pub open spec fn parse_indirect(s: Seq<char>) -> Result<IndirectView, ParseIndirectError> {
    match flake_rest(s) {
        Some(rest) => parse_indirect_rest(rest),
        None => if is_bare_indirect(s) {
            parse_indirect_rest(s)
        } else {
            Err(ParseIndirectError::UnsupportedScheme)
        },
    }
}

/// The canonical spelling of an indirect reference.
pub open spec fn render_indirect(v: IndirectView) -> Seq<char> {
    "flake:"@ + v.id + render_revision(v.rev_or_ref)
}

/// Whether an indirect reference can be spelled: the name is an
/// identifier, and a revision is not empty and holds no `/`.
pub open spec fn indirect_well_formed(v: IndirectView) -> bool {
    &&& is_flake_id(v.id)
    &&& revision_well_formed(v.rev_or_ref)
}

/// The characters of the scheme.
pub proof fn lemma_flake_scheme()
    ensures
        "flake:"@ == seq!['f', 'l', 'a', 'k', 'e', ':'],
{
    reveal_strlit("flake:");
    assert("flake:"@ =~= seq!['f', 'l', 'a', 'k', 'e', ':']);
}

/// A reference with the scheme `flake:` begins with `fl`.
pub proof fn lemma_flake_begins(s: Seq<char>)
    requires
        flake_rest(s) is Some,
    ensures
        s.len() >= 6,
        s[0] == 'f' && s[1] == 'l',
{
    lemma_flake_scheme();
    lemma_prefix_chars(s, "flake:"@);
}

/// A bare name begins with a letter and holds no `:` before its first `/`.
pub proof fn lemma_bare_begins(s: Seq<char>)
    requires
        is_bare_indirect(s),
    ensures
        s.len() >= 1,
        is_id_start(s[0]),
        forall|k: int| 0 <= k < s.len() && k < find(s, '/') ==> s[k] != ':' && s[k] != '+',
{
    lemma_find_from(s, '/', 0);
    let i = find(s, '/');
    let head = split(s, '/')[0];
    assert(head == s.take(i));
    lemma_identifier_chars(head);
    assert(head[0] == s[0]);
    assert forall|k: int| 0 <= k < s.len() && k < i implies s[k] != ':' && s[k] != '+' by {
        assert(head[k] == s[k]);
    }
}

/// The indirect reference that a string spells is well formed.
pub proof fn lemma_indirect_rest_well_formed(rest: Seq<char>)
    ensures
        parse_indirect_rest(rest) matches Ok(v) ==> indirect_well_formed(v),
{
    lemma_split_pieces(rest, '/');
}

/// Reading the canonical spelling of a well-formed indirect reference
/// gives the reference back.
pub proof fn lemma_indirect_round_trip(v: IndirectView)
    requires
        indirect_well_formed(v),
    ensures
        flake_rest(render_indirect(v)) == Some(v.id + render_revision(v.rev_or_ref)),
        parse_indirect_rest(v.id + render_revision(v.rev_or_ref)) == Ok::<
            IndirectView,
            ParseIndirectError,
        >(v),
        parse_indirect(render_indirect(v)) == Ok::<IndirectView, ParseIndirectError>(v),
        render_indirect(v).len() >= 6,
        render_indirect(v)[0] == 'f' && render_indirect(v)[1] == 'l',
{
    lemma_identifier_chars(v.id);
    let rest = v.id + render_revision(v.rev_or_ref);
    assert(render_indirect(v) =~= "flake:"@ + rest);
    lemma_after_prefix("flake:"@, rest);
    lemma_flake_begins(render_indirect(v));
    match v.rev_or_ref {
        Some(r) => {
            let parts = seq![v.id, r];
            assert(parts.skip(1) =~= seq![r]);
            assert(join(parts.skip(1), '/') == r);
            assert(join(parts, '/') =~= rest);
            lemma_split_join(parts, '/');
        },
        None => {
            let parts = seq![v.id];
            assert(join(parts, '/') =~= rest);
            lemma_split_join(parts, '/');
        },
    }
}

/// A string with the scheme `flake:` is the canonical spelling of what it
/// spells.
pub proof fn lemma_plain_indirect_is_kept(s: Seq<char>)
    requires
        flake_rest(s) is Some,
    ensures
        parse_indirect(s) matches Ok(v) ==> render_indirect(v) == s,
{
    let rest = flake_rest(s)->0;
    lemma_prefix_parts(s, "flake:"@);
    lemma_parts_are_kept(rest);
    if let Ok(v) = parse_indirect(s) {
        assert(render_indirect(v) =~= "flake:"@ + (v.id + render_revision(v.rev_or_ref)));
    }
}

/// What follows `flake:` in `s`.
pub fn read_flake_rest<'a>(s: &'a [char]) -> (r: Option<&'a [char]>)
    ensures
        match r {
            Some(rest) => flake_rest(s@) == Some(rest@),
            None => flake_rest(s@) is None,
        },
{
    strip_prefix(s, "flake:")
}

impl IndirectRef {
    /// Whether `s` is shaped like an indirect reference: it begins with
    /// `flake:`, or it is a bare name with or without a revision.
    pub fn parses(s: &str) -> (r: bool)
        ensures
            r == (flake_rest(s@) is Some || is_bare_indirect(s@)),
    {
        let chars = to_chars(s);
        if read_flake_rest(chars.as_slice()).is_some() {
            true
        } else {
            IndirectRef::from_rest(chars.as_slice()).is_ok()
        }
    }

    /// The reference that `rest` spells after `flake:`, or as a whole where
    /// the scheme is left out.
    pub fn from_rest(rest: &[char]) -> (r: Result<IndirectRef, ParseIndirectError>)
        ensures
            match r {
                Ok(v) => parse_indirect_rest(rest@) == Ok::<IndirectView, ParseIndirectError>(v@),
                Err(e) => parse_indirect_rest(rest@) == Err::<IndirectView, ParseIndirectError>(
                    e,
                ),
            },
    {
        let parts = split_chars(rest, '/');
        proof {
            lemma_split_len(rest@, '/');
        }
        if parts.len() > 2 {
            return Err(ParseIndirectError::MalformedPath);
        }
        assert(views(parts@)[0] == parts@[0]@);
        if !is_identifier(parts[0]) {
            return Err(ParseIndirectError::InvalidIdentifier);
        }
        if parts.len() == 1 {
            return Ok(IndirectRef { id: to_string(parts[0]), rev_or_ref: None });
        }
        assert(views(parts@)[1] == parts@[1]@);
        if parts[1].len() == 0 {
            return Err(ParseIndirectError::MalformedPath);
        }
        Ok(IndirectRef { id: to_string(parts[0]), rev_or_ref: Some(to_string(parts[1])) })
    }

    /// Reads an indirect reference.
    pub fn from_str(s: &str) -> (r: Result<IndirectRef, ParseIndirectError>)
        ensures
            match r {
                Ok(v) => parse_indirect(s@) == Ok::<IndirectView, ParseIndirectError>(v@),
                Err(e) => parse_indirect(s@) == Err::<IndirectView, ParseIndirectError>(e),
            },
    {
        let chars = to_chars(s);
        match read_flake_rest(chars.as_slice()) {
            Some(rest) => IndirectRef::from_rest(rest),
            None => match IndirectRef::from_rest(chars.as_slice()) {
                Ok(v) => Ok(v),
                Err(_) => Err(ParseIndirectError::UnsupportedScheme),
            },
        }
    }

    /// The canonical spelling.
    pub fn to_string(&self) -> (r: String)
        ensures
            r@ == render_indirect(self@),
    {
        let mut out = String::new();
        out.append("flake:");
        out.append(self.id.as_str());
        write_revision(&mut out, &self.rev_or_ref);
        out
    }
}

} // verus!
