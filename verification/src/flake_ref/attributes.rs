//! The attribute set in the tail of a reference: `key=value` pairs joined
//! by `&`, each key at most once, the values of known keys typed.

use crate::flake_ref::boolean::{
    bool_text, lemma_spellings, parse_bool, read_bool, render_bool,
};
use crate::flake_ref::timestamp::{
    naive_epoch_seconds, timestamp_from_text, ParseTimeError, Timestamp,
};
use crate::text::{
    decimal, find, find_char, is_text, join, lacks, lemma_decimal_chars, lemma_find_after,
    lemma_find_from, lemma_split_join, lemma_split_pieces, push_decimal, skip_chars, split,
    split_chars, take_chars, to_chars, to_string, views,
};
use vstd::prelude::*;

verus! {

/// The value of one attribute.
#[derive(Debug, Clone, PartialEq, Eq)]
pub enum AttrValue {
    /// An opaque string: `ref`, `rev`, `dir` and every key that is not known.
    Text(String),
    /// A flag: `shallow`, `submodules`.
    Flag(bool),
    /// An instant: `lastModified`.
    Time(Timestamp),
}

/// The model of an [`AttrValue`].
pub enum AttrValueView {
    Text(Seq<char>),
    Flag(bool),
    Time(Timestamp),
}

impl View for AttrValue {
    type V = AttrValueView;

    open spec fn view(&self) -> AttrValueView {
        match self {
            AttrValue::Text(s) => AttrValueView::Text(s@),
            AttrValue::Flag(b) => AttrValueView::Flag(*b),
            AttrValue::Time(t) => AttrValueView::Time(*t),
        }
    }
}

/// One attribute: a key and its typed value.
#[derive(Debug, Clone, PartialEq, Eq)]
pub struct Attribute {
    pub key: String,
    pub value: AttrValue,
}

/// The model of an [`Attribute`].
pub struct AttributeView {
    pub key: Seq<char>,
    pub value: AttrValueView,
}

impl View for Attribute {
    type V = AttributeView;

    open spec fn view(&self) -> AttributeView {
        AttributeView { key: self.key@, value: self.value@ }
    }
}

/// The attributes of a reference, in the order in which they were given.
#[derive(Debug, Clone, PartialEq, Eq)]
pub struct Attributes {
    pub entries: Vec<Attribute>,
}

impl View for Attributes {
    type V = Seq<AttributeView>;

    open spec fn view(&self) -> Seq<AttributeView> {
        self.entries@.map_values(|a: Attribute| a@)
    }
}

/// Why the tail of a reference is no attribute set.
#[derive(Debug, Clone, Copy, PartialEq, Eq, Structural)]
pub enum AttributeError {
    /// A pair without `=`, or with nothing before it.
    Malformed,
    /// A key that occurs twice.
    Duplicate,
    /// A flag that is spelled neither `true` nor `false`.
    Boolean,
    /// A `lastModified` that is no instant.
    Timestamp(ParseTimeError),
    /// A `dir` that is empty or begins with `/`.
    Dir,
}

/// A path that is not empty and does not begin at the root.
pub open spec fn is_relative_path(path: Seq<char>) -> bool {
    path.len() > 0 && path[0] != '/'
}

/// Whether the key names a flag.
pub open spec fn is_flag_key(key: Seq<char>) -> bool {
    key == "shallow"@ || key == "submodules"@
}

/// Whether the key names an instant.
pub open spec fn is_time_key(key: Seq<char>) -> bool {
    key == "lastModified"@
}

/// Whether the key names a directory inside the referenced tree.
pub open spec fn is_dir_key(key: Seq<char>) -> bool {
    key == "dir"@
}

/// The typed value of the attribute `key` spelled as `text`.
pub open spec fn decode_value(key: Seq<char>, text: Seq<char>) -> Result<
    AttrValueView,
    AttributeError,
> {
    if is_flag_key(key) {
        match parse_bool(text) {
            Some(b) => Ok(AttrValueView::Flag(b)),
            None => Err(AttributeError::Boolean),
        }
    } else if is_time_key(key) {
        match timestamp_from_text(text) {
            Ok(t) => Ok(AttrValueView::Time(t)),
            Err(e) => Err(AttributeError::Timestamp(e)),
        }
    } else if is_dir_key(key) {
        if is_relative_path(text) {
            Ok(AttrValueView::Text(text))
        } else {
            Err(AttributeError::Dir)
        }
    } else {
        Ok(AttrValueView::Text(text))
    }
}

/// The attribute that one `key=value` pair spells.
pub open spec fn parse_pair(pair: Seq<char>) -> Result<AttributeView, AttributeError> {
    let i = find(pair, '=');
    if i == 0 || i >= pair.len() {
        Err(AttributeError::Malformed)
    } else {
        match decode_value(pair.take(i), pair.skip(i + 1)) {
            Ok(value) => Ok(AttributeView { key: pair.take(i), value }),
            Err(e) => Err(e),
        }
    }
}

/// Whether some attribute in `entries` has the key `key`.
pub open spec fn has_key(entries: Seq<AttributeView>, key: Seq<char>) -> bool {
    exists|i: int| 0 <= i < entries.len() && (#[trigger] entries[i]).key == key
}

/// The attributes that the pairs spell, read from the left and added to
/// those already `seen`. The first pair that is malformed, ill-typed or
/// repeats a key decides the error.
pub open spec fn parse_pairs(pairs: Seq<Seq<char>>, seen: Seq<AttributeView>) -> Result<
    Seq<AttributeView>,
    AttributeError,
>
    decreases pairs.len(),
{
    if pairs.len() == 0 {
        Ok(seen)
    } else {
        match parse_pair(pairs[0]) {
            Err(e) => Err(e),
            Ok(a) => if has_key(seen, a.key) {
                Err(AttributeError::Duplicate)
            } else {
                parse_pairs(pairs.skip(1), seen.push(a))
            },
        }
    }
}

/// The attribute set that a query spells. The empty query spells the empty
/// set.
pub open spec fn parse_query(query: Seq<char>) -> Result<Seq<AttributeView>, AttributeError> {
    if query.len() == 0 {
        Ok(Seq::<AttributeView>::empty())
    } else {
        parse_pairs(split(query, '&'), Seq::<AttributeView>::empty())
    }
}

/// The spelling of a value: text as it is, a flag in its native spelling,
/// an instant as decimal epoch seconds.
pub open spec fn render_value(value: AttrValueView) -> Seq<char> {
    match value {
        AttrValueView::Text(text) => text,
        AttrValueView::Flag(b) => render_bool(b),
        AttrValueView::Time(t) => decimal(t.0 as int),
    }
}

/// The spelling of one attribute.
pub open spec fn render_pair(a: AttributeView) -> Seq<char> {
    a.key + seq!['='] + render_value(a.value)
}

/// The spelling of an attribute set: its pairs in order, joined by `&`.
pub open spec fn render_query(entries: Seq<AttributeView>) -> Seq<char> {
    join(entries.map_values(|a: AttributeView| render_pair(a)), '&')
}

/// The value stored under `key`, if any.
pub open spec fn lookup(entries: Seq<AttributeView>, key: Seq<char>) -> Option<AttrValueView>
    decreases entries.len(),
{
    if entries.len() == 0 {
        None
    } else if entries[0].key == key {
        Some(entries[0].value)
    } else {
        lookup(entries.skip(1), key)
    }
}

/// The keys of flags, of instants and of directories are different keys.
pub proof fn lemma_typed_keys_differ()
    ensures
        forall|key: Seq<char>| !(#[trigger] is_flag_key(key) && is_time_key(key)),
        forall|key: Seq<char>| !(#[trigger] is_flag_key(key) && is_dir_key(key)),
        forall|key: Seq<char>| !(#[trigger] is_time_key(key) && is_dir_key(key)),
{
    reveal_strlit("shallow");
    reveal_strlit("submodules");
    reveal_strlit("lastModified");
    reveal_strlit("dir");
    assert("shallow"@.len() == 7);
    assert("submodules"@.len() == 10);
    assert("lastModified"@.len() == 12);
    assert("dir"@.len() == 3);
}

/// Whether the value has the type that its key asks for.
pub open spec fn value_fits(key: Seq<char>, value: AttrValueView) -> bool {
    if is_flag_key(key) {
        value is Flag
    } else if is_time_key(key) {
        value matches AttrValueView::Time(t) && t.is_valid()
    } else if is_dir_key(key) {
        value matches AttrValueView::Text(path) && is_relative_path(path)
    } else {
        value is Text
    }
}

/// Whether an attribute can stand in a reference: its key is not empty and
/// holds neither `=` nor `&`, its value has the type of the key, and a text
/// value holds no `&`.
pub open spec fn attribute_well_formed(a: AttributeView) -> bool {
    &&& a.key.len() > 0
    &&& lacks(a.key, '=')
    &&& lacks(a.key, '&')
    &&& value_fits(a.key, a.value)
    &&& (a.value matches AttrValueView::Text(text) ==> lacks(text, '&'))
}

/// No key occurs twice.
pub open spec fn keys_distinct(entries: Seq<AttributeView>) -> bool {
    forall|i: int, j: int|
        0 <= i < j < entries.len() ==> (#[trigger] entries[i]).key != (#[trigger] entries[j]).key
}

/// Whether an attribute set can stand in a reference.
pub open spec fn attributes_well_formed(entries: Seq<AttributeView>) -> bool {
    &&& forall|i: int| 0 <= i < entries.len() ==> attribute_well_formed(#[trigger] entries[i])
    &&& keys_distinct(entries)
}

/// Whether the date parser reads the value back from its spelling. This
/// is asked of instants only: they are the one kind of value that an
/// outside parser reads.
pub open spec fn reads_back(value: AttrValueView) -> bool {
    value matches AttrValueView::Time(t) ==> naive_epoch_seconds(decimal(t.0 as int), "%s"@)
        == Some(t.0)
}

/// Whether the date parser reads every instant of the set back from its
/// decimal spelling.
pub open spec fn instants_read_back(entries: Seq<AttributeView>) -> bool {
    forall|i: int| 0 <= i < entries.len() ==> reads_back((#[trigger] entries[i]).value)
}

/// The attribute that a pair without `&` spells is well formed.
pub proof fn lemma_pair_well_formed(pair: Seq<char>)
    requires
        lacks(pair, '&'),
    ensures
        parse_pair(pair) matches Ok(a) ==> attribute_well_formed(a),
{
    lemma_find_from(pair, '=', 0);
}

proof fn lemma_pairs_well_formed(pairs: Seq<Seq<char>>, seen: Seq<AttributeView>)
    requires
        attributes_well_formed(seen),
        forall|i: int| 0 <= i < pairs.len() ==> lacks(#[trigger] pairs[i], '&'),
    ensures
        parse_pairs(pairs, seen) matches Ok(a) ==> attributes_well_formed(a),
    decreases pairs.len(),
{
    if pairs.len() > 0 {
        lemma_pair_well_formed(pairs[0]);
        if let Ok(a) = parse_pair(pairs[0]) {
            if !has_key(seen, a.key) {
                let next = seen.push(a);
                assert forall|i: int| 0 <= i < next.len() implies attribute_well_formed(
                    #[trigger] next[i],
                ) by {
                    if i < seen.len() {
                        assert(next[i] == seen[i]);
                    }
                }
                assert forall|i: int, j: int| 0 <= i < j < next.len() implies (
                #[trigger] next[i]).key != (#[trigger] next[j]).key by {
                    if j < seen.len() {
                        assert(next[i] == seen[i] && next[j] == seen[j]);
                    } else {
                        assert(next[i] == seen[i]);
                    }
                }
                assert forall|i: int| 0 <= i < pairs.skip(1).len() implies lacks(
                    #[trigger] pairs.skip(1)[i],
                    '&',
                ) by {
                    assert(pairs.skip(1)[i] == pairs[i + 1]);
                }
                lemma_pairs_well_formed(pairs.skip(1), next);
            }
        }
    }
}

/// The attribute set that a query spells is well formed.
pub proof fn lemma_query_well_formed(query: Seq<char>)
    ensures
        parse_query(query) matches Ok(a) ==> attributes_well_formed(a),
{
    if query.len() > 0 {
        lemma_split_pieces(query, '&');
        lemma_pairs_well_formed(split(query, '&'), Seq::<AttributeView>::empty());
    }
}

/// The spelling of a well-formed attribute holds no `&`, and reads back as
/// the attribute where the date parser reads its instant back.
pub proof fn lemma_pair_round_trip(a: AttributeView)
    requires
        attribute_well_formed(a),
        reads_back(a.value),
    ensures
        lacks(render_pair(a), '&'),
        render_pair(a).len() > 0,
        parse_pair(render_pair(a)) == Ok::<AttributeView, AttributeError>(a),
{
    lemma_spellings();
    let spelled = render_value(a.value);
    match a.value {
        AttrValueView::Time(t) => {
            lemma_decimal_chars(t.0 as int);
        },
        _ => {},
    }
    assert(lacks(spelled, '&'));
    let tail = seq!['='] + spelled;
    let pair = render_pair(a);
    assert(pair =~= a.key + tail);
    lemma_find_after(a.key, tail, '=');
    assert(tail.skip(1) =~= spelled);
    assert(pair.take(a.key.len() as int) == a.key);
    assert(pair.skip(a.key.len() as int + 1) == spelled);
}

proof fn lemma_pairs_round_trip(entries: Seq<AttributeView>, k: int)
    requires
        attributes_well_formed(entries),
        instants_read_back(entries),
        0 <= k <= entries.len(),
    ensures
        parse_pairs(
            entries.map_values(|a: AttributeView| render_pair(a)).skip(k),
            entries.take(k),
        ) == Ok::<Seq<AttributeView>, AttributeError>(entries),
    decreases entries.len() - k,
{
    let pairs = entries.map_values(|a: AttributeView| render_pair(a));
    if k == entries.len() {
        assert(entries.take(k) =~= entries);
    } else {
        let a = entries[k];
        lemma_pair_round_trip(a);
        assert(pairs.skip(k)[0] == render_pair(a));
        assert(!has_key(entries.take(k), a.key)) by {
            assert forall|i: int| 0 <= i < entries.take(k).len() implies (
            #[trigger] entries.take(k)[i]).key != a.key by {
                assert(entries.take(k)[i] == entries[i]);
            }
        }
        assert(entries.take(k).push(a) =~= entries.take(k + 1));
        assert(pairs.skip(k).skip(1) =~= pairs.skip(k + 1));
        lemma_pairs_round_trip(entries, k + 1);
    }
}

/// Reading the spelling of a well-formed attribute set that is not empty
/// gives the set back, where the date parser reads its instants back.
pub proof fn lemma_query_round_trip(entries: Seq<AttributeView>)
    requires
        attributes_well_formed(entries),
        instants_read_back(entries),
        entries.len() > 0,
    ensures
        render_query(entries).len() > 0,
        parse_query(render_query(entries)) == Ok::<Seq<AttributeView>, AttributeError>(entries),
{
    let pairs = entries.map_values(|a: AttributeView| render_pair(a));
    assert forall|i: int| 0 <= i < pairs.len() implies lacks(#[trigger] pairs[i], '&') by {
        lemma_pair_round_trip(entries[i]);
    }
    lemma_split_join(pairs, '&');
    lemma_pairs_round_trip(entries, 0);
    assert(pairs.skip(0) =~= pairs);
    assert(entries.take(0) =~= Seq::<AttributeView>::empty());
    lemma_pair_round_trip(entries[0]);
    assert(pairs[0].len() > 0);
    if pairs.len() > 1 {
        assert(join(pairs, '&') == pairs[0] + seq!['&'] + join(pairs.skip(1), '&'));
    }
}

/// Whether a pair is the spelling that the library itself gives to the
/// attribute it spells. Every pair is, but one that spells an instant
/// otherwise than in plain decimal.
pub open spec fn pair_is_plain(pair: Seq<char>) -> bool {
    parse_pair(pair) matches Ok(a) ==> render_pair(a) == pair
}

/// Whether a query is not empty and each of its pairs is plain.
pub open spec fn query_is_plain(query: Seq<char>) -> bool {
    &&& query.len() > 0
    &&& forall|i: int|
        0 <= i < split(query, '&').len() ==> pair_is_plain(#[trigger] split(query, '&')[i])
}

/// A pair that spells no instant is plain.
pub proof fn lemma_pair_without_instant_is_plain(pair: Seq<char>)
    requires
        !is_time_key(pair.take(find(pair, '='))),
    ensures
        pair_is_plain(pair),
{
    lemma_spellings();
    lemma_find_from(pair, '=', 0);
    let i = find(pair, '=');
    if let Ok(a) = parse_pair(pair) {
        assert(pair =~= pair.take(i) + seq!['='] + pair.skip(i + 1));
    }
}

proof fn lemma_plain_pairs_are_kept(pairs: Seq<Seq<char>>, seen: Seq<AttributeView>)
    requires
        forall|i: int| 0 <= i < pairs.len() ==> pair_is_plain(#[trigger] pairs[i]),
    ensures
        parse_pairs(pairs, seen) matches Ok(all) ==> all.map_values(
            |a: AttributeView| render_pair(a),
        ) == seen.map_values(|a: AttributeView| render_pair(a)) + pairs,
    decreases pairs.len(),
{
    let spell = |a: AttributeView| render_pair(a);
    if pairs.len() == 0 {
        assert(seen.map_values(spell) + pairs =~= seen.map_values(spell));
    } else if let Ok(a) = parse_pair(pairs[0]) {
        if !has_key(seen, a.key) {
            assert forall|i: int| 0 <= i < pairs.skip(1).len() implies pair_is_plain(
                #[trigger] pairs.skip(1)[i],
            ) by {
                assert(pairs.skip(1)[i] == pairs[i + 1]);
            }
            lemma_plain_pairs_are_kept(pairs.skip(1), seen.push(a));
            assert(seen.push(a).map_values(spell) =~= seen.map_values(spell).push(pairs[0]));
            assert(seen.map_values(spell).push(pairs[0]) + pairs.skip(1) =~= seen.map_values(
                spell,
            ) + pairs);
        }
    }
}

/// The attributes that a plain query spells are spelled as that query.
pub proof fn lemma_plain_query_is_kept(query: Seq<char>)
    requires
        query_is_plain(query),
    ensures
        parse_query(query) matches Ok(all) ==> all.len() > 0 && render_query(all) == query,
{
    let pairs = split(query, '&');
    lemma_split_pieces(query, '&');
    lemma_plain_pairs_are_kept(pairs, Seq::<AttributeView>::empty());
    if let Ok(all) = parse_query(query) {
        let spelled = all.map_values(|a: AttributeView| render_pair(a));
        assert(Seq::<AttributeView>::empty().map_values(|a: AttributeView| render_pair(a))
            + pairs =~= pairs);
        assert(spelled.len() == all.len());
    }
}

fn decode_attribute(key: &[char], text: &[char]) -> (r: Result<AttrValue, AttributeError>)
    ensures
        match r {
            Ok(v) => decode_value(key@, text@) == Ok::<AttrValueView, AttributeError>(v@),
            Err(e) => decode_value(key@, text@) == Err::<AttrValueView, AttributeError>(e),
        },
{
    if is_text(key, "shallow") || is_text(key, "submodules") {
        match read_bool(text) {
            Some(b) => Ok(AttrValue::Flag(b)),
            None => Err(AttributeError::Boolean),
        }
    } else if is_text(key, "lastModified") {
        let spelled = to_string(text);
        match Timestamp::from_text(spelled.as_str()) {
            Ok(t) => Ok(AttrValue::Time(t)),
            Err(e) => Err(AttributeError::Timestamp(e)),
        }
    } else if is_text(key, "dir") {
        if text.len() > 0 && text[0] != '/' {
            Ok(AttrValue::Text(to_string(text)))
        } else {
            Err(AttributeError::Dir)
        }
    } else {
        Ok(AttrValue::Text(to_string(text)))
    }
}

fn read_pair(pair: &[char]) -> (r: Result<Attribute, AttributeError>)
    ensures
        match r {
            Ok(a) => parse_pair(pair@) == Ok::<AttributeView, AttributeError>(a@),
            Err(e) => parse_pair(pair@) == Err::<AttributeView, AttributeError>(e),
        },
{
    let i: usize = find_char(pair, '=');
    if i == 0 || i >= pair.len() {
        return Err(AttributeError::Malformed);
    }
    let key = take_chars(pair, i);
    let text = skip_chars(pair, i + 1);
    match decode_attribute(key, text) {
        Ok(value) => Ok(Attribute { key: to_string(key), value }),
        Err(e) => Err(e),
    }
}

impl Attributes {
    /// The empty attribute set.
    pub fn new() -> (r: Attributes)
        ensures
            r@ == Seq::<AttributeView>::empty(),
    {
        let r = Attributes { entries: Vec::new() };
        assert(r@ =~= Seq::<AttributeView>::empty());
        r
    }

    /// Whether there is no attribute.
    pub fn is_empty(&self) -> (r: bool)
        ensures
            r == (self@.len() == 0),
    {
        self.entries.len() == 0
    }

    /// Whether an attribute with this key is present.
    pub fn contains_key(&self, key: &String) -> (r: bool)
        ensures
            r == has_key(self@, key@),
    {
        let mut i: usize = 0;
        while i < self.entries.len()
            invariant
                i <= self.entries.len(),
                forall|j: int| 0 <= j < i ==> (#[trigger] self@[j]).key != key@,
            decreases self.entries.len() - i,
        {
            if self.entries[i].key == *key {
                assert(self@[i as int].key == key@);
                return true;
            }
            i = i + 1;
        }
        false
    }

    /// The value stored under `key`, if any.
    pub fn get(&self, key: &str) -> (r: Option<&AttrValue>)
        ensures
            match r {
                Some(value) => lookup(self@, key@) == Some(value@),
                None => lookup(self@, key@) is None,
            },
    {
        let mut i: usize = 0;
        assert(self@.skip(0) == self@);
        while i < self.entries.len()
            invariant
                i <= self.entries.len(),
                lookup(self@.skip(i as int), key@) == lookup(self@, key@),
            decreases self.entries.len() - i,
        {
            let entry = &self.entries[i];
            assert(self@.skip(i as int)[0] == entry@);
            assert(self@.skip(i as int).skip(1) == self@.skip(i + 1));
            if is_text(to_chars(entry.key.as_str()).as_slice(), key) {
                return Some(&entry.value);
            }
            i = i + 1;
        }
        None
    }

    /// The text stored under `key`: `None` where the key is missing or
    /// holds a flag or an instant.
    pub fn text(&self, key: &str) -> (r: Option<&String>)
        ensures
            match r {
                Some(text) => lookup(self@, key@) == Some(AttrValueView::Text(text@)),
                None => !(lookup(self@, key@) matches Some(AttrValueView::Text(_))),
            },
    {
        match self.get(key) {
            Some(AttrValue::Text(text)) => Some(text),
            _ => None,
        }
    }

    /// The flag stored under `key`: `None` where the key is missing or
    /// holds no flag.
    pub fn flag(&self, key: &str) -> (r: Option<bool>)
        ensures
            match r {
                Some(b) => lookup(self@, key@) == Some(AttrValueView::Flag(b)),
                None => !(lookup(self@, key@) matches Some(AttrValueView::Flag(_))),
            },
    {
        match self.get(key) {
            Some(AttrValue::Flag(b)) => Some(*b),
            _ => None,
        }
    }

    /// The branch or tag that the attribute `ref` names.
    pub fn reference(&self) -> (r: Option<&String>)
        ensures
            match r {
                Some(text) => lookup(self@, "ref"@) == Some(AttrValueView::Text(text@)),
                None => !(lookup(self@, "ref"@) matches Some(AttrValueView::Text(_))),
            },
    {
        self.text("ref")
    }

    /// The commit that the attribute `rev` names.
    pub fn rev(&self) -> (r: Option<&String>)
        ensures
            match r {
                Some(text) => lookup(self@, "rev"@) == Some(AttrValueView::Text(text@)),
                None => !(lookup(self@, "rev"@) matches Some(AttrValueView::Text(_))),
            },
    {
        self.text("rev")
    }

    /// The directory inside the referenced tree that the attribute `dir`
    /// names.
    pub fn dir(&self) -> (r: Option<&String>)
        ensures
            match r {
                Some(text) => lookup(self@, "dir"@) == Some(AttrValueView::Text(text@)),
                None => !(lookup(self@, "dir"@) matches Some(AttrValueView::Text(_))),
            },
    {
        self.text("dir")
    }

    /// The host that the attribute `host` names in place of the service's
    /// own.
    pub fn host(&self) -> (r: Option<&String>)
        ensures
            match r {
                Some(text) => lookup(self@, "host"@) == Some(AttrValueView::Text(text@)),
                None => !(lookup(self@, "host"@) matches Some(AttrValueView::Text(_))),
            },
    {
        self.text("host")
    }

    /// Whether the attribute `shallow` asks for a shallow clone.
    pub fn shallow(&self) -> (r: Option<bool>)
        ensures
            match r {
                Some(b) => lookup(self@, "shallow"@) == Some(AttrValueView::Flag(b)),
                None => !(lookup(self@, "shallow"@) matches Some(AttrValueView::Flag(_))),
            },
    {
        self.flag("shallow")
    }

    /// Whether the attribute `submodules` asks for the submodules.
    pub fn submodules(&self) -> (r: Option<bool>)
        ensures
            match r {
                Some(b) => lookup(self@, "submodules"@) == Some(AttrValueView::Flag(b)),
                None => !(lookup(self@, "submodules"@) matches Some(AttrValueView::Flag(_))),
            },
    {
        self.flag("submodules")
    }

    /// The instant that the attribute `lastModified` names.
    pub fn last_modified(&self) -> (r: Option<Timestamp>)
        ensures
            match r {
                Some(t) => lookup(self@, "lastModified"@) == Some(AttrValueView::Time(t)),
                None => !(lookup(self@, "lastModified"@) matches Some(AttrValueView::Time(_))),
            },
    {
        match self.get("lastModified") {
            Some(AttrValue::Time(t)) => Some(*t),
            _ => None,
        }
    }

    /// Reads the attribute set that `query` spells.
    pub fn parse(query: &[char]) -> (r: Result<Attributes, AttributeError>)
        ensures
            match r {
                Ok(a) => parse_query(query@) == Ok::<Seq<AttributeView>, AttributeError>(a@),
                Err(e) => parse_query(query@) == Err::<Seq<AttributeView>, AttributeError>(e),
            },
    {
        let mut attributes = Attributes::new();
        if query.len() == 0 {
            return Ok(attributes);
        }
        let pairs = split_chars(query, '&');
        let ghost all = views(pairs@);
        assert(all.skip(0) == all);
        let mut i: usize = 0;
        while i < pairs.len()
            invariant
                i <= pairs.len(),
                query@.len() > 0,
                all == views(pairs@),
                all == split(query@, '&'),
                parse_pairs(all.skip(i as int), attributes@) == parse_pairs(
                    all,
                    Seq::<AttributeView>::empty(),
                ),
            decreases pairs.len() - i,
        {
            assert(all.skip(i as int)[0] == pairs@[i as int]@);
            assert(all.skip(i as int).skip(1) == all.skip(i + 1));
            match read_pair(pairs[i]) {
                Err(e) => {
                    return Err(e);
                },
                Ok(a) => {
                    if attributes.contains_key(&a.key) {
                        return Err(AttributeError::Duplicate);
                    }
                    let ghost before = attributes@;
                    attributes.entries.push(a);
                    assert(attributes@ == before.push(a@));
                },
            }
            i = i + 1;
        }
        Ok(attributes)
    }

    /// Appends the spelling of the attribute set to `out`.
    pub fn render_into(&self, out: &mut String)
        ensures
            final(out)@ == old(out)@ + render_query(self@),
    {
        let ghost pairs = self@.map_values(|a: AttributeView| render_pair(a));
        let ghost start = out@;
        let n: usize = self.entries.len();
        assert(pairs.skip(0) == pairs);
        let mut i: usize = 0;
        while i < n
            invariant
                i <= n,
                n == self.entries.len(),
                n == pairs.len(),
                pairs == self@.map_values(|a: AttributeView| render_pair(a)),
                out@ + join(pairs.skip(i as int), '&') == start + join(pairs, '&'),
            decreases n - i,
        {
            let ghost tail = pairs.skip(i as int);
            let ghost prior = out@;
            let entry = &self.entries[i];
            out.append(entry.key.as_str());
            out.append("=");
            match &entry.value {
                AttrValue::Text(text) => out.append(text.as_str()),
                AttrValue::Flag(b) => out.append(bool_text(*b)),
                AttrValue::Time(t) => push_decimal(out, t.0),
            }
            proof {
                reveal_strlit("=");
                assert("="@ == seq!['=']);
                assert(tail[0] == render_pair(self@[i as int]));
                assert(out@ == prior + tail[0]);
                assert(tail.skip(1) == pairs.skip(i + 1));
            }
            if i + 1 < n {
                out.append("&");
                proof {
                    reveal_strlit("&");
                    assert("&"@ == seq!['&']);
                    assert(join(tail, '&') == tail[0] + seq!['&'] + join(tail.skip(1), '&'));
                    assert(out@ + join(pairs.skip(i + 1), '&') == prior + join(tail, '&'));
                }
            } else {
                assert(tail.len() == 1);
                assert(join(tail, '&') == tail[0]);
                assert(join(tail.skip(1), '&') == Seq::<char>::empty());
                assert(out@ + join(pairs.skip(i + 1), '&') == prior + join(tail, '&'));
            }
            i = i + 1;
        }
        assert(join(pairs.skip(n as int), '&') == Seq::<char>::empty());
        assert(out@ + Seq::<char>::empty() == out@);
    }
}

} // verus!
