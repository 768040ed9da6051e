//! Stringification of list-expansion expressions.
//!
//! A list-expansion macro takes a bracketed list of expressions and embeds
//! each element into the name of one generated function.  The supported
//! shapes are literals (integer, character, string, float), arrays of
//! expressions, plain paths, and references; each is turned into text that
//! `canon` can then make identifier-safe.  Integers inside an array are
//! rendered as fixed-width hexadecimal and grouped by eight; top-level
//! integers are rendered as padded decimal.

use vstd::prelude::*;
use crate::numfmt::{
    dec_digits, hex_digits, render_dec_padded10, render_hex_byte, render_hex_padded16, zero_pad,
};

verus! {

broadcast use {
    vstd::std_specs::vec::axiom_vec_index_decreases,
    vstd::seq::axiom_seq_index_decreases,
    vstd::seq::axiom_seq_subrange_decreases,
};

/// One expression of the list grammar.
///
/// A float literal carries its source text: its name contribution is textual,
/// and no floating-point value is ever computed from it.
#[derive(Debug)]
pub enum ListExpr {
    /// An unsuffixed integer literal.
    IntLit(u64),
    /// A character literal's value.
    CharLit(char),
    /// A string literal's value, after escape processing.
    StrLit(Vec<char>),
    /// A float literal's source text.
    FloatLit(Vec<char>),
    /// A bracketed array of expressions.
    Array(Vec<ListExpr>),
    /// A path: optional leading separator, then identifier segments.
    PathExpr { leading_colon: bool, segments: Vec<Vec<char>> },
    /// A reference to an expression.
    Reference(Box<ListExpr>),
}

/// The mathematical form of one expression.
pub enum SpecExpr {
    IntLit(u64),
    CharLit(char),
    StrLit(Seq<char>),
    FloatLit(Seq<char>),
    Array(Seq<SpecExpr>),
    PathExpr { leading_colon: bool, segments: Seq<Seq<char>> },
    Reference(Box<SpecExpr>),
}

/// The mathematical form of a path's segments.
pub open spec fn segments_view(segments: Seq<Vec<char>>) -> Seq<Seq<char>>
    decreases segments.len(),
{
    if segments.len() == 0 {
        Seq::empty()
    } else {
        segments_view(segments.drop_last()).push(segments.last()@)
    }
}

/// The mathematical form of an expression.
pub open spec fn expr_view(e: ListExpr) -> SpecExpr
    decreases e, 0nat,
{
    match e {
        ListExpr::IntLit(v) => SpecExpr::IntLit(v),
        ListExpr::CharLit(c) => SpecExpr::CharLit(c),
        ListExpr::StrLit(s) => SpecExpr::StrLit(s@),
        ListExpr::FloatLit(t) => SpecExpr::FloatLit(t@),
        ListExpr::Array(elems) => SpecExpr::Array(exprs_view(elems@)),
        ListExpr::PathExpr { leading_colon, segments } => SpecExpr::PathExpr {
            leading_colon,
            segments: segments_view(segments@),
        },
        ListExpr::Reference(inner) => SpecExpr::Reference(Box::new(expr_view(*inner))),
    }
}

/// The mathematical form of a sequence of expressions.
pub open spec fn exprs_view(v: Seq<ListExpr>) -> Seq<SpecExpr>
    decreases v, 1nat,
{
    if v.len() == 0 {
        Seq::empty()
    } else {
        exprs_view(v.drop_last()).push(expr_view(v.last()))
    }
}

/// Taking views keeps a sequence's length.
pub proof fn lemma_exprs_view_len(v: Seq<ListExpr>)
    ensures
        exprs_view(v).len() == v.len(),
    decreases v.len(),
{
    if v.len() > 0 {
        lemma_exprs_view_len(v.drop_last());
    }
}

/// Taking views and indexing commute.
pub proof fn lemma_exprs_view_index(v: Seq<ListExpr>, i: int)
    requires
        0 <= i < v.len(),
    ensures
        exprs_view(v).len() == v.len(),
        exprs_view(v)[i] == expr_view(v[i]),
    decreases v.len(),
{
    lemma_exprs_view_len(v);
    if i < v.len() - 1 {
        lemma_exprs_view_index(v.drop_last(), i);
    } else {
        lemma_exprs_view_len(v.drop_last());
    }
}

/// Taking segment views keeps a sequence's length.
pub proof fn lemma_segments_view_len(v: Seq<Vec<char>>)
    ensures
        segments_view(v).len() == v.len(),
    decreases v.len(),
{
    if v.len() > 0 {
        lemma_segments_view_len(v.drop_last());
    }
}

/// Taking segment views and indexing commute.
pub proof fn lemma_segments_view_index(v: Seq<Vec<char>>, i: int)
    requires
        0 <= i < v.len(),
    ensures
        segments_view(v).len() == v.len(),
        segments_view(v)[i] == v[i]@,
    decreases v.len(),
{
    lemma_segments_view_len(v);
    if i < v.len() - 1 {
        lemma_segments_view_index(v.drop_last(), i);
    } else {
        lemma_segments_view_len(v.drop_last());
    }
}

/// The text of an integer literal inside a name: padded decimal at top
/// level, fixed-width lowercase hexadecimal inside an array (two digits for
/// a byte value, sixteen otherwise).
pub open spec fn spec_int_text(v: u64, int_as_hex: bool) -> Seq<char> {
    if int_as_hex {
        if v > 255 {
            zero_pad(hex_digits(v as nat), 16)
        } else {
            zero_pad(hex_digits(v as nat), 2)
        }
    } else {
        zero_pad(dec_digits(v as nat), 10)
    }
}

/// The text of the first `n` elements of an array: elements are concatenated
/// and an underscore is inserted before every eighth element.
pub open spec fn spec_array_prefix_text(elems: Seq<SpecExpr>, n: nat) -> Seq<char>
    recommends
        n <= elems.len(),
    decreases elems, n,
        when n <= elems.len()
{
    if n == 0 {
        Seq::empty()
    } else {
        let prev = spec_array_prefix_text(elems, (n - 1) as nat);
        let sep: Seq<char> = if n - 1 > 0 && (n - 1) % 8 == 0 {
            seq!['_']
        } else {
            Seq::empty()
        };
        prev + sep + spec_stringified(elems[n - 1], true)
    }
}

/// The text of the first `n` segments of a path: segments joined by
/// underscores, with a leading underscore when the path starts with its
/// separator.
pub open spec fn spec_path_prefix_text(
    segments: Seq<Seq<char>>,
    leading_colon: bool,
    n: nat,
) -> Seq<char>
    recommends
        n <= segments.len(),
    decreases n,
{
    if n == 0 {
        Seq::empty()
    } else {
        let prev = spec_path_prefix_text(segments, leading_colon, (n - 1) as nat);
        let sep: Seq<char> = if prev.len() > 0 || leading_colon {
            seq!['_']
        } else {
            Seq::empty()
        };
        prev + sep + segments[n - 1]
    }
}

/// The text an expression contributes to a generated function name.
pub open spec fn spec_stringified(e: SpecExpr, int_as_hex: bool) -> Seq<char>
    decreases e, 0nat,
{
    match e {
        SpecExpr::IntLit(v) => spec_int_text(v, int_as_hex),
        SpecExpr::CharLit(c) => seq![c],
        SpecExpr::StrLit(s) => s,
        SpecExpr::FloatLit(t) => t,
        SpecExpr::Array(elems) => spec_array_prefix_text(elems, elems.len()),
        SpecExpr::PathExpr { leading_colon, segments } => spec_path_prefix_text(
            segments,
            leading_colon,
            segments.len(),
        ),
        SpecExpr::Reference(inner) => spec_stringified(*inner, int_as_hex),
    }
}

/// Stringify an expression, as `spec_stringified` says of its mathematical
/// form.
pub fn expr_stringified(e: &ListExpr, int_as_hex: bool) -> (r: Vec<char>)
    ensures
        r@ == spec_stringified(expr_view(*e), int_as_hex),
    decreases *e, 0nat,
{
    match e {
        ListExpr::IntLit(v) => {
            if int_as_hex {
                if *v > 255 {
                    render_hex_padded16(*v)
                } else {
                    render_hex_byte(*v as u8)
                }
            } else {
                render_dec_padded10(*v)
            }
        },
        ListExpr::CharLit(c) => {
            let mut r: Vec<char> = Vec::new();
            r.push(*c);
            proof {
                assert(r@ =~= seq![*c]);
            }
            r
        },
        ListExpr::StrLit(s) => {
            let mut r: Vec<char> = Vec::new();
            r.extend_from_slice(s.as_slice());
            proof {
                assert(r@ =~= s@);
            }
            r
        },
        ListExpr::FloatLit(t) => {
            let mut r: Vec<char> = Vec::new();
            r.extend_from_slice(t.as_slice());
            proof {
                assert(r@ =~= t@);
            }
            r
        },
        ListExpr::Array(elems) => {
            let ghost selems = exprs_view(elems@);
            proof {
                lemma_exprs_view_len(elems@);
            }
            let mut composed: Vec<char> = Vec::new();
            let mut i: usize = 0;
            while i < elems.len()
                invariant
                    i <= elems@.len(),
                    selems == exprs_view(elems@),
                    selems.len() == elems@.len(),
                    composed@ == spec_array_prefix_text(selems, i as nat),
                    forall|j: int|
                        0 <= j < elems@.len() ==> #[trigger] (decreases_to!(*e => elems@[j])),
                decreases elems@.len() - i,
            {
                if i > 0 && i % 8 == 0 {
                    composed.push('_');
                }
                let part = expr_stringified(&elems[i], true);
                composed.extend_from_slice(part.as_slice());
                i = i + 1;
                proof {
                    lemma_exprs_view_index(elems@, i - 1);
                    assert(composed@ =~= spec_array_prefix_text(selems, i as nat));
                }
            }
            composed
        },
        ListExpr::PathExpr { leading_colon, segments } => {
            let ghost ssegs = segments_view(segments@);
            proof {
                lemma_segments_view_len(segments@);
            }
            let mut composed: Vec<char> = Vec::new();
            let mut i: usize = 0;
            while i < segments.len()
                invariant
                    i <= segments@.len(),
                    ssegs == segments_view(segments@),
                    ssegs.len() == segments@.len(),
                    composed@ == spec_path_prefix_text(ssegs, *leading_colon, i as nat),
                decreases segments@.len() - i,
            {
                if composed.len() > 0 || *leading_colon {
                    composed.push('_');
                }
                composed.extend_from_slice(segments[i].as_slice());
                i = i + 1;
                proof {
                    lemma_segments_view_index(segments@, i - 1);
                    assert(composed@ =~= spec_path_prefix_text(ssegs, *leading_colon, i as nat));
                }
            }
            composed
        },
        ListExpr::Reference(inner) => expr_stringified(&**inner, int_as_hex),
    }
}

} // verus!
