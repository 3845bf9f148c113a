//! Battle cries and lettering.

use vstd::prelude::*;
use vstd::string::StringExecFns;

verus! {

/// `text` with every letter in upper case, as Unicode defines it.
pub uninterp spec fn uppercase(text: Seq<char>) -> Seq<char>;

/// Upper-cases `text` through `str::to_uppercase`, which maps each
/// character by the Unicode rules and depends on nothing else.
#[verifier::external_body]
fn to_uppercase(text: &str) -> (upper: String)
    ensures
        upper@ == uppercase(text@),
{
    text.to_uppercase()
}

/// The cry of the stand.
pub fn get_stand_cry() -> (cry: &'static str)
    ensures
        cry@ == "KILLER QUEEN!"@,
{
    "KILLER QUEEN!"
}

/// The ornament that stands on either side of a lettered text.
pub open spec fn ornament() -> Seq<char> {
    seq!['\u{e2}', '\u{153}', '\u{a8}']
}

/// `text` as it stands, set between two ornaments.
pub open spec fn adorned(text: Seq<char>) -> Seq<char> {
    ornament() + seq![' '] + text + seq![' '] + ornament()
}

/// `text` as it stands, set between two ornaments.
pub fn adorn(text: &str) -> (lettered: String)
    ensures
        lettered@ == adorned(text@),
{
    proof {
        reveal_strlit("\u{e2}\u{153}\u{a8} ");
        reveal_strlit(" \u{e2}\u{153}\u{a8}");
    }
    let mut lettered = String::from_str("\u{e2}\u{153}\u{a8} ");
    lettered.append(text);
    lettered.append(" \u{e2}\u{153}\u{a8}");
    assert(lettered@ =~= adorned(text@));
    lettered
}

/// `text` in upper case, set between two ornaments.
pub fn format_jojo_text(text: &str) -> (lettered: String)
    ensures
        lettered@ == adorned(uppercase(text@)),
{
    let upper = to_uppercase(text);
    adorn(upper.as_str())
}

} // verus!
