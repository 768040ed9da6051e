//! Names of generated functions.
//!
//! Each generated test is named after the function it instantiates and the
//! resource it is instantiated with: the two are joined by an underscore and
//! the result is canonicalized.  A name derived from list content is first
//! clipped to a fixed number of UTF-8 bytes.

use vstd::prelude::*;
use crate::canon::{canonical, canonicalize_chars};
use crate::clip::{clip_chars, clip_is_clean, clipped};
use crate::expr::{expr_stringified, expr_view, spec_stringified, ListExpr};
use crate::strconv::{chars_to_string, str_to_chars};

verus! {

/// How many bytes of stringified list content are kept in a name.
pub const CONTENT_MAX_LEN: usize = 100;

/// A character the library accepts inside a generated identifier: the ASCII
/// identifier characters, and any character beyond ASCII.  The compiler's
/// own identifier rule is narrower for some characters beyond ASCII; a name
/// holding such a character passes here and fails at compile time instead.
pub open spec fn is_name_char(c: char) -> bool {
    crate::parse::is_ident_cont(c) || c as u32 >= 0x80
}

/// A character the library accepts at the start of a generated identifier.
pub open spec fn is_name_start(c: char) -> bool {
    crate::parse::is_ident_start(c) || c as u32 >= 0x80
}

/// Whether a generated name is a legal identifier: nonempty, starting and
/// continuing with identifier characters.  A name failing this cannot head
/// a generated function.
pub open spec fn spec_valid_ident(s: Seq<char>) -> bool {
    &&& s.len() > 0
    &&& is_name_start(s[0])
    &&& forall|i: int| 0 <= i < s.len() ==> is_name_char(#[trigger] s[i])
}

/// Decide whether a generated name is a legal identifier, as
/// `spec_valid_ident` says.
pub fn valid_ident(s: &Vec<char>) -> (r: bool)
    ensures
        r == spec_valid_ident(s@),
{
    if s.len() == 0 {
        return false;
    }
    let c0: char = s[0];
    if !(crate::parse::ident_start_char(c0) || c0 as u32 >= 0x80) {
        return false;
    }
    let mut i: usize = 0;
    while i < s.len()
        invariant
            i <= s@.len(),
            s@.len() > 0,
            is_name_start(s@[0]),
            forall|j: int| 0 <= j < i ==> is_name_char(#[trigger] s@[j]),
        decreases s@.len() - i,
    {
        let c: char = s[i];
        if !(crate::parse::ident_cont_char(c) || c as u32 >= 0x80) {
            return false;
        }
        i = i + 1;
    }
    true
}

/// The name of a generated function: the target identifier, an underscore,
/// and the resource text, canonicalized.
pub open spec fn spec_generated_name(ident: Seq<char>, tail: Seq<char>) -> Seq<char> {
    canonical(ident + seq!['_'] + tail)
}

/// Join an identifier and a resource text with an underscore and
/// canonicalize the result.
pub fn joined_canonical(ident: &Vec<char>, tail: &Vec<char>) -> (r: Vec<char>)
    ensures
        r@ == spec_generated_name(ident@, tail@),
{
    let mut joined: Vec<char> = Vec::new();
    joined.extend_from_slice(ident.as_slice());
    joined.push('_');
    joined.extend_from_slice(tail.as_slice());
    proof {
        assert(joined@ =~= ident@ + seq!['_'] + tail@);
    }
    canonicalize_chars(&joined)
}

/// Compose the generated function's identifier from the target identifier
/// and a matched path.
///
/// The composed name must be a legal identifier; `valid_ident` decides that
/// for a caller that cannot know it.
pub fn fn_ident_from_path(fn_ident: &str, path: &str) -> (r: String)
    requires
        spec_valid_ident(spec_generated_name(fn_ident@, path@)),
    ensures
        r@ == spec_generated_name(fn_ident@, path@),
{
    let ident = str_to_chars(fn_ident);
    let tail = str_to_chars(path);
    let name = joined_canonical(&ident, &tail);
    chars_to_string(&name)
}

/// Compose the generated function's identifier from the target identifier
/// and arbitrary content, kept to at most `CONTENT_MAX_LEN` bytes.
///
/// The clip must fall on a character boundary (`clip::check_clip_clean`
/// decides that for a caller that cannot know it), and the composed name
/// must be a legal identifier (`valid_ident` decides that).
pub fn fn_ident_from_string(fn_ident: &str, name: &str) -> (r: String)
    requires
        clip_is_clean(name@, CONTENT_MAX_LEN as nat),
        spec_valid_ident(
            spec_generated_name(fn_ident@, clipped(name@, CONTENT_MAX_LEN as nat)),
        ),
    ensures
        r@ == spec_generated_name(fn_ident@, clipped(name@, CONTENT_MAX_LEN as nat)),
{
    let ident = str_to_chars(fn_ident);
    let content = str_to_chars(name);
    let safe = clip_chars(&content, CONTENT_MAX_LEN);
    let generated = joined_canonical(&ident, &safe);
    chars_to_string(&generated)
}

/// Compose the generated function's identifier from the target identifier
/// and a stringified list expression.  The clip must fall on a character
/// boundary and the composed name must be a legal identifier.
pub fn fn_ident_from_expr(fn_ident: &str, expr: &ListExpr) -> (r: String)
    requires
        clip_is_clean(spec_stringified(expr_view(*expr), false), CONTENT_MAX_LEN as nat),
        spec_valid_ident(
            spec_generated_name(
                fn_ident@,
                clipped(spec_stringified(expr_view(*expr), false), CONTENT_MAX_LEN as nat),
            ),
        ),
    ensures
        r@ == spec_generated_name(
            fn_ident@,
            clipped(spec_stringified(expr_view(*expr), false), CONTENT_MAX_LEN as nat),
        ),
{
    let ident = str_to_chars(fn_ident);
    let content = expr_stringified(expr, false);
    let safe = clip_chars(&content, CONTENT_MAX_LEN);
    let generated = joined_canonical(&ident, &safe);
    chars_to_string(&generated)
}

} // verus!
