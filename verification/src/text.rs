//! Text helpers: lower-casing, and the textual form of the completion flag.

use vstd::prelude::*;
use vstd::string::*;

verus! {

/// The lower-case form of a text, as `str::to_lowercase` computes it.
pub uninterp spec fn lowercase_of(text: Seq<char>) -> Seq<char>;

/// `str::to_lowercase`: the result is the lower-case form of the argument,
/// which depends on the characters of the argument alone.
#[verifier::external_body]
pub(crate) fn to_lowercase(text: &str) -> (r: String)
    ensures
        r@ == lowercase_of(text@),
{
    text.to_lowercase()
}

/// Whether an already lower-cased flag text stands for `true`.
pub open spec fn is_truthy(lowered: Seq<char>) -> bool {
    lowered == "true"@ || lowered == "1"@
}

/// The boolean that a stored flag text stands for: `true` for the texts whose
/// lower-case form is `true` or `1`, `false` for every other text.
pub open spec fn flag_of(text: Seq<char>) -> bool {
    is_truthy(lowercase_of(text))
}

/// The text under which a flag is stored.
pub open spec fn flag_text(value: bool) -> Seq<char> {
    if value {
        "true"@
    } else {
        "false"@
    }
}

/// Decides a flag from its lower-cased text.
pub fn flag_from_lowered(lowered: &str) -> (value: bool)
    ensures
        value == is_truthy(lowered@),
{
    let yes = String::from_str("true");
    let one = String::from_str("1");
    let given = String::from_str(lowered);
    given == yes || given == one
}

/// Decodes a stored flag text. Unrecognised texts decode to `false`.
pub fn decode_flag(text: &str) -> (value: bool)
    ensures
        value == flag_of(text@),
{
    let lowered = to_lowercase(text);
    flag_from_lowered(lowered.as_str())
}

/// Encodes a flag as the text that is stored for it.
pub fn encode_flag(value: bool) -> (text: String)
    ensures
        text@ == flag_text(value),
{
    if value {
        String::from_str("true")
    } else {
        String::from_str("false")
    }
}

} // verus!
