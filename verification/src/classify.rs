//! Static classification of tag names: membership in the fixed sets of
//! self-closing (void) elements and inline elements. Classification is total:
//! names outside both sets are neither self-closing nor inline.

use vstd::prelude::*;

verus! {

/// Relies on `str`'s `PartialEq`: the comparison returns true exactly when
/// the two strings hold the same characters.
#[verifier::external_body]
fn str_eq(a: &str, b: &str) -> (r: bool)
    ensures
        r == (a@ == b@),
{
    a == b
}

/// The fixed set of tag names whose elements render as self-closing.
pub open spec fn spec_is_self_closing(s: Seq<char>) -> bool {
    ||| s == "meta"@
    ||| s == "link"@
    ||| s == "img"@
    ||| s == "br"@
    ||| s == "hr"@
    ||| s == "input"@
    ||| s == "area"@
    ||| s == "base"@
    ||| s == "col"@
    ||| s == "embed"@
    ||| s == "source"@
    ||| s == "track"@
    ||| s == "wbr"@
}

/// The fixed set of tag names classified as inline elements.
pub open spec fn spec_is_inline(s: Seq<char>) -> bool {
    ||| s == "a"@
    ||| s == "abbr"@
    ||| s == "acronym"@
    ||| s == "b"@
    ||| s == "bdo"@
    ||| s == "big"@
    ||| s == "br"@
    ||| s == "button"@
    ||| s == "cite"@
    ||| s == "code"@
    ||| s == "dfn"@
    ||| s == "em"@
    ||| s == "i"@
    ||| s == "img"@
    ||| s == "input"@
    ||| s == "kbd"@
    ||| s == "label"@
    ||| s == "map"@
    ||| s == "object"@
    ||| s == "output"@
    ||| s == "q"@
    ||| s == "samp"@
    ||| s == "script"@
    ||| s == "select"@
    ||| s == "small"@
    ||| s == "span"@
    ||| s == "strong"@
    ||| s == "sub"@
    ||| s == "sup"@
    ||| s == "textarea"@
    ||| s == "time"@
    ||| s == "tt"@
    ||| s == "var"@
}

/// True exactly when `name` is one of the void elements that render in
/// self-closing form.
pub fn is_self_closing(name: &str) -> (r: bool)
    ensures
        r == spec_is_self_closing(name@),
{
    str_eq(name, "meta") || str_eq(name, "link") || str_eq(name, "img") || str_eq(name, "br")
        || str_eq(name, "hr") || str_eq(name, "input") || str_eq(name, "area")
        || str_eq(name, "base") || str_eq(name, "col") || str_eq(name, "embed")
        || str_eq(name, "source") || str_eq(name, "track") || str_eq(name, "wbr")
}

/// True exactly when `name` is one of the standard inline elements.
pub fn is_inline(name: &str) -> (r: bool)
    ensures
        r == spec_is_inline(name@),
{
    str_eq(name, "a") || str_eq(name, "abbr") || str_eq(name, "acronym") || str_eq(name, "b")
        || str_eq(name, "bdo") || str_eq(name, "big") || str_eq(name, "br")
        || str_eq(name, "button") || str_eq(name, "cite") || str_eq(name, "code")
        || str_eq(name, "dfn") || str_eq(name, "em") || str_eq(name, "i") || str_eq(name, "img")
        || str_eq(name, "input") || str_eq(name, "kbd") || str_eq(name, "label")
        || str_eq(name, "map") || str_eq(name, "object") || str_eq(name, "output")
        || str_eq(name, "q") || str_eq(name, "samp") || str_eq(name, "script")
        || str_eq(name, "select") || str_eq(name, "small") || str_eq(name, "span")
        || str_eq(name, "strong") || str_eq(name, "sub") || str_eq(name, "sup")
        || str_eq(name, "textarea") || str_eq(name, "time") || str_eq(name, "tt")
        || str_eq(name, "var")
}

} // verus!
