//! What follows the scheme of a reference: a location, and after a `?` the
//! attribute set.

use crate::flake_ref::attributes::{
    attributes_well_formed, instants_read_back, lemma_plain_query_is_kept,
    lemma_query_round_trip, lemma_query_well_formed, parse_query, query_is_plain, render_query,
    AttributeError, AttributeView, Attributes,
};
use crate::text::{
    find, find_char, has_prefix, lacks, lemma_find_after, lemma_find_from, lemma_find_is,
    skip_chars,
    starts_with, take_chars, to_string,
};
use vstd::prelude::*;

verus! {

/// Why the part after the scheme is no locator.
#[derive(Debug, Clone, Copy, PartialEq, Eq, Structural)]
pub enum LocatorError {
    /// The `//` is missing, or nothing stands where the location should.
    Malformed,
    /// The tail is no attribute set.
    Attribute(AttributeError),
}

/// The part before the first `?`.
pub open spec fn body_of(rest: Seq<char>) -> Seq<char> {
    rest.take(find(rest, '?'))
}

/// The part after the first `?`: empty where there is none.
pub open spec fn query_of(rest: Seq<char>) -> Seq<char> {
    let i = find(rest, '?');
    if i < rest.len() {
        rest.skip(i + 1)
    } else {
        Seq::<char>::empty()
    }
}

/// The body and the attribute set that `rest` spells. The body must not be
/// empty.
pub open spec fn parse_tail(rest: Seq<char>) -> Result<
    (Seq<char>, Seq<AttributeView>),
    LocatorError,
> {
    if body_of(rest).len() == 0 {
        Err(LocatorError::Malformed)
    } else {
        match parse_query(query_of(rest)) {
            Ok(attributes) => Ok((body_of(rest), attributes)),
            Err(e) => Err(LocatorError::Attribute(e)),
        }
    }
}

/// The location and the attribute set that `rest` spells after `//`.
pub open spec fn parse_locator(rest: Seq<char>) -> Result<
    (Seq<char>, Seq<AttributeView>),
    LocatorError,
> {
    if starts_with(rest, seq!['/', '/']) {
        parse_tail(rest.skip(2))
    } else {
        Err(LocatorError::Malformed)
    }
}

/// The spelling of the tail: nothing for the empty attribute set.
pub open spec fn render_tail(attributes: Seq<AttributeView>) -> Seq<char> {
    if attributes.len() == 0 {
        Seq::<char>::empty()
    } else {
        seq!['?'] + render_query(attributes)
    }
}

/// The spelling of a location with its attributes.
pub open spec fn render_locator(location: Seq<char>, attributes: Seq<AttributeView>) -> Seq<char> {
    seq!['/', '/'] + location + render_tail(attributes)
}

/// The body that a tail spells is not empty and holds no `?`, and its
/// attribute set is well formed.
pub proof fn lemma_tail_well_formed(rest: Seq<char>)
    ensures
        lacks(body_of(rest), '?'),
        parse_tail(rest) matches Ok(p) ==> p.0.len() > 0 && lacks(p.0, '?')
            && attributes_well_formed(p.1),
{
    lemma_find_from(rest, '?', 0);
    lemma_query_well_formed(query_of(rest));
}

/// The location that a locator spells is not empty and holds no `?`, and
/// its attribute set is well formed.
pub proof fn lemma_locator_well_formed(rest: Seq<char>)
    ensures
        parse_locator(rest) matches Ok(p) ==> p.0.len() > 0 && lacks(p.0, '?')
            && attributes_well_formed(p.1) && body_of(rest) == seq!['/', '/'] + p.0,
{
    if starts_with(rest, seq!['/', '/']) {
        let tail = rest.skip(2);
        lemma_tail_well_formed(tail);
        lemma_find_from(tail, '?', 0);
        assert(rest.take(2) == seq!['/', '/']);
        assert(rest[0] == rest.take(2)[0] && rest[1] == rest.take(2)[1]);
        assert(rest =~= seq!['/', '/'] + tail);
        let i = find(tail, '?');
        lemma_find_is(rest, '?', i + 2);
        assert(body_of(rest) =~= seq!['/', '/'] + body_of(tail));
    }
}

/// A body without `?` followed by the spelling of a well-formed attribute
/// set reads back as the two.
pub proof fn lemma_tail_round_trip(body: Seq<char>, attributes: Seq<AttributeView>)
    requires
        lacks(body, '?'),
        attributes_well_formed(attributes),
        instants_read_back(attributes),
    ensures
        body_of(body + render_tail(attributes)) == body,
        query_of(body + render_tail(attributes)) == (if attributes.len() == 0 {
            Seq::<char>::empty()
        } else {
            render_query(attributes)
        }),
        parse_query(query_of(body + render_tail(attributes))) == Ok::<
            Seq<AttributeView>,
            AttributeError,
        >(attributes),
        body.len() > 0 ==> parse_tail(body + render_tail(attributes)) == Ok::<
            (Seq<char>, Seq<AttributeView>),
            LocatorError,
        >((body, attributes)),
{
    let tail = render_tail(attributes);
    lemma_find_after(body, tail, '?');
    if attributes.len() == 0 {
        assert(attributes =~= Seq::<AttributeView>::empty());
        assert(body + tail =~= body);
    } else {
        lemma_query_round_trip(attributes);
        assert(tail.skip(1) =~= render_query(attributes));
    }
}

/// The spelling of a location with well-formed attributes reads back as the
/// two.
pub proof fn lemma_locator_round_trip(location: Seq<char>, attributes: Seq<AttributeView>)
    requires
        location.len() > 0,
        lacks(location, '?'),
        attributes_well_formed(attributes),
        instants_read_back(attributes),
    ensures
        parse_locator(render_locator(location, attributes)) == Ok::<
            (Seq<char>, Seq<AttributeView>),
            LocatorError,
        >((location, attributes)),
        body_of(render_locator(location, attributes)) == seq!['/', '/'] + location,
{
    let rest = render_locator(location, attributes);
    let tail = location + render_tail(attributes);
    assert(rest =~= seq!['/', '/'] + tail);
    assert(rest.take(2) =~= seq!['/', '/']);
    assert(rest.skip(2) =~= tail);
    lemma_tail_round_trip(location, attributes);
    let front = seq!['/', '/'] + location;
    assert(rest =~= front + render_tail(attributes));
    lemma_tail_round_trip(front, attributes);
}

/// Whether a tail is spelled as the library itself spells it: no `?`
/// stands in it, or a plain query follows the first.
pub open spec fn tail_is_plain(rest: Seq<char>) -> bool {
    find(rest, '?') == rest.len() || query_is_plain(query_of(rest))
}

/// The body and the attributes that a plain tail spells are spelled as
/// that tail.
pub proof fn lemma_plain_tail_is_kept(rest: Seq<char>)
    requires
        tail_is_plain(rest),
    ensures
        parse_query(query_of(rest)) matches Ok(attributes) ==> body_of(rest) + render_tail(
            attributes,
        ) == rest,
        parse_tail(rest) matches Ok(p) ==> p.0 + render_tail(p.1) == rest,
{
    lemma_find_from(rest, '?', 0);
    let i = find(rest, '?');
    if i == rest.len() {
        assert(body_of(rest) =~= rest);
        assert(rest + Seq::<char>::empty() =~= rest);
    } else {
        lemma_plain_query_is_kept(query_of(rest));
        assert(rest =~= rest.take(i) + (seq!['?'] + rest.skip(i + 1)));
    }
}

/// Whether what stands behind `//` in a locator is a plain tail.
pub open spec fn locator_is_plain(rest: Seq<char>) -> bool {
    starts_with(rest, seq!['/', '/']) ==> tail_is_plain(rest.skip(2))
}

/// The location and the attributes that a plain locator spells are spelled
/// as that locator.
pub proof fn lemma_plain_locator_is_kept(rest: Seq<char>)
    requires
        locator_is_plain(rest),
    ensures
        parse_locator(rest) matches Ok(p) ==> render_locator(p.0, p.1) == rest,
{
    if starts_with(rest, seq!['/', '/']) {
        lemma_plain_tail_is_kept(rest.skip(2));
        assert(rest =~= rest.take(2) + rest.skip(2));
        if let Ok(p) = parse_locator(rest) {
            assert(render_locator(p.0, p.1) =~= seq!['/', '/'] + (p.0 + render_tail(p.1)));
        }
    }
}

/// The part of `rest` before the first `?`.
pub fn body_chars<'a>(rest: &'a [char]) -> (r: &'a [char])
    ensures
        r@ == body_of(rest@),
{
    let i: usize = find_char(rest, '?');
    take_chars(rest, i)
}

/// The part of `rest` after the first `?`.
pub fn query_chars<'a>(rest: &'a [char]) -> (r: &'a [char])
    ensures
        r@ == query_of(rest@),
{
    let i: usize = find_char(rest, '?');
    if i < rest.len() {
        skip_chars(rest, i + 1)
    } else {
        skip_chars(rest, i)
    }
}

/// Reads a body and its attributes.
pub fn read_tail(rest: &[char]) -> (r: Result<(String, Attributes), LocatorError>)
    ensures
        match r {
            Ok(p) => parse_tail(rest@) == Ok::<(Seq<char>, Seq<AttributeView>), LocatorError>(
                (p.0@, p.1@),
            ),
            Err(e) => parse_tail(rest@) == Err::<(Seq<char>, Seq<AttributeView>), LocatorError>(e),
        },
{
    let i: usize = find_char(rest, '?');
    if i == 0 {
        return Err(LocatorError::Malformed);
    }
    let body = take_chars(rest, i);
    let query: &[char] = if i < rest.len() {
        skip_chars(rest, i + 1)
    } else {
        skip_chars(rest, i)
    };
    assert(query@ == query_of(rest@));
    match Attributes::parse(query) {
        Ok(attributes) => Ok((to_string(body), attributes)),
        Err(e) => Err(LocatorError::Attribute(e)),
    }
}

/// Reads a location and its attributes after `//`.
pub fn read_locator(rest: &[char]) -> (r: Result<(String, Attributes), LocatorError>)
    ensures
        match r {
            Ok(p) => parse_locator(rest@) == Ok::<(Seq<char>, Seq<AttributeView>), LocatorError>(
                (p.0@, p.1@),
            ),
            Err(e) => parse_locator(rest@) == Err::<(Seq<char>, Seq<AttributeView>), LocatorError>(
                e,
            ),
        },
{
    proof {
        reveal_strlit("//");
        assert("//"@ =~= seq!['/', '/']);
    }
    if has_prefix(rest, "//") {
        read_tail(skip_chars(rest, 2))
    } else {
        Err(LocatorError::Malformed)
    }
}

/// Appends the spelling of the tail to `out`.
pub fn write_tail(out: &mut String, attributes: &Attributes)
    ensures
        final(out)@ == old(out)@ + render_tail(attributes@),
{
    if attributes.is_empty() {
        assert(out@ + Seq::<char>::empty() == out@);
    } else {
        let ghost start = out@;
        out.append("?");
        proof {
            reveal_strlit("?");
            assert("?"@ =~= seq!['?']);
        }
        attributes.render_into(out);
        assert(out@ == start + (seq!['?'] + render_query(attributes@)));
    }
}

/// Appends the spelling of a location with its attributes to `out`.
pub fn write_locator(out: &mut String, location: &String, attributes: &Attributes)
    ensures
        final(out)@ == old(out)@ + render_locator(location@, attributes@),
{
    let ghost start = out@;
    out.append("//");
    proof {
        reveal_strlit("//");
        assert("//"@ =~= seq!['/', '/']);
    }
    out.append(location.as_str());
    write_tail(out, attributes);
    assert(out@ == start + (seq!['/', '/'] + location@ + render_tail(attributes@)));
}

} // verus!
