//! The boolean codec: a flag arrives as a native boolean or as its
//! spelling, and leaves as a native boolean.

use crate::text::{is_text, to_chars};
use vstd::prelude::*;
use vstd::std_specs::convert::TryFromSpecImpl;

verus! {

/// The two shapes in which a boolean attribute arrives.
#[derive(Debug, Clone, PartialEq, Eq)]
pub enum BoolReprs {
    String(String),
    Bool(bool),
}

/// A spelling that is neither `true` nor `false`.
#[derive(Debug, Clone, Copy, PartialEq, Eq, Structural)]
pub struct BooleanDecodeError;

/// The boolean that a spelling denotes, if any.
pub open spec fn parse_bool(text: Seq<char>) -> Option<bool> {
    if text == "true"@ {
        Some(true)
    } else if text == "false"@ {
        Some(false)
    } else {
        None
    }
}

/// The native spelling of a boolean.
pub open spec fn render_bool(b: bool) -> Seq<char> {
    if b {
        "true"@
    } else {
        "false"@
    }
}

/// What decoding a boolean attribute yields.
pub open spec fn decoded_bool(value: BoolReprs) -> Result<bool, BooleanDecodeError> {
    match value {
        BoolReprs::Bool(b) => Ok(b),
        BoolReprs::String(s) => match parse_bool(s@) {
            Some(b) => Ok(b),
            None => Err(BooleanDecodeError),
        },
    }
}

/// Reads the spelling of a boolean.
pub fn read_bool(text: &[char]) -> (r: Option<bool>)
    ensures
        r == parse_bool(text@),
{
    if is_text(text, "true") {
        Some(true)
    } else if is_text(text, "false") {
        Some(false)
    } else {
        None
    }
}

/// The native spelling of `b`.
pub fn bool_text(b: bool) -> (r: &'static str)
    ensures
        r@ == render_bool(b),
{
    if b {
        "true"
    } else {
        "false"
    }
}

/// The native spelling of `b`, as an owned string.
pub fn bool_string(b: bool) -> (r: String)
    ensures
        r@ == render_bool(b),
{
    bool_text(b).to_owned()
}

impl BoolReprs {
    /// Decodes a boolean attribute: a native boolean stands for itself, a
    /// string must spell `true` or `false`.
    pub fn deserialize_bool(value: BoolReprs) -> (r: Result<bool, BooleanDecodeError>)
        ensures
            r == decoded_bool(value),
    {
        match value {
            BoolReprs::Bool(b) => Ok(b),
            BoolReprs::String(s) => {
                let chars = to_chars(s.as_str());
                match read_bool(chars.as_slice()) {
                    Some(b) => Ok(b),
                    None => Err(BooleanDecodeError),
                }
            },
        }
    }
}

impl TryFrom<BoolReprs> for bool {
    type Error = BooleanDecodeError;

    fn try_from(value: BoolReprs) -> (r: Result<bool, BooleanDecodeError>) {
        BoolReprs::deserialize_bool(value)
    }
}

impl TryFromSpecImpl<BoolReprs> for bool {
    open spec fn obeys_try_from_spec() -> bool {
        true
    }

    open spec fn try_from_spec(value: BoolReprs) -> Result<bool, BooleanDecodeError> {
        decoded_bool(value)
    }
}

/// The characters of the two spellings.
pub proof fn lemma_spellings()
    ensures
        "true"@ == seq!['t', 'r', 'u', 'e'],
        "false"@ == seq!['f', 'a', 'l', 's', 'e'],
        "true"@ != "false"@,
{
    reveal_strlit("true");
    reveal_strlit("false");
    assert("true"@ =~= seq!['t', 'r', 'u', 'e']);
    assert("false"@ =~= seq!['f', 'a', 'l', 's', 'e']);
    assert("true"@.len() != "false"@.len());
}

/// Decoding is insensitive to the shape of the input: a native boolean and
/// its native spelling decode to the same value, and that value is the
/// boolean itself. Rendering a decoded value gives back the native spelling.
pub proof fn lemma_bool_codec_normalizes(b: bool, spelled: String)
    requires
        spelled@ == render_bool(b),
    ensures
        decoded_bool(BoolReprs::Bool(b)) == Ok::<bool, BooleanDecodeError>(b),
        decoded_bool(BoolReprs::String(spelled)) == decoded_bool(BoolReprs::Bool(b)),
        parse_bool(render_bool(b)) == Some(b),
{
    lemma_spellings();
}

} // verus!
