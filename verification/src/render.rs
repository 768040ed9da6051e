//! Rendering of generated items as source text.
//!
//! Each macro emits one item per resource.  This module renders those items:
//! string and character literals with their escapes, list expressions as
//! expression source, and the generated test or benchmark functions
//! themselves.

use vstd::prelude::*;
use crate::expr::{
    expr_view, exprs_view, lemma_exprs_view_index, lemma_exprs_view_len,
    lemma_segments_view_index, lemma_segments_view_len, segments_view, ListExpr, SpecExpr,
};
use crate::numfmt::{dec_digits, render_dec};
use crate::strconv::str_to_chars;

verus! {

broadcast use {
    vstd::std_specs::vec::axiom_vec_index_decreases,
    vstd::seq::axiom_seq_index_decreases,
};

/// How one character is written inside an emitted string or character
/// literal.
pub open spec fn escape_char_text(c: char) -> Seq<char> {
    if c == '\\' {
        seq!['\\', '\\']
    } else if c == '"' {
        seq!['\\', '"']
    } else if c == '\'' {
        seq!['\\', '\'']
    } else if c == '\n' {
        seq!['\\', 'n']
    } else if c == '\t' {
        seq!['\\', 't']
    } else if c == '\r' {
        seq!['\\', 'r']
    } else if c == '\0' {
        seq!['\\', '0']
    } else {
        seq![c]
    }
}

/// A text with every character escaped as `escape_char_text` says.
pub open spec fn escaped_text(s: Seq<char>) -> Seq<char>
    decreases s.len(),
{
    if s.len() == 0 {
        Seq::empty()
    } else {
        escaped_text(s.drop_last()) + escape_char_text(s.last())
    }
}

/// An emitted string literal: the text escaped, between double quotes.
pub open spec fn spec_str_literal(s: Seq<char>) -> Seq<char> {
    seq!['"'] + escaped_text(s) + seq!['"']
}

/// An emitted character literal.
pub open spec fn spec_char_literal(c: char) -> Seq<char> {
    seq!['\''] + escape_char_text(c) + seq!['\'']
}

/// Append one escaped character to a buffer.
fn push_escaped_char(out: &mut Vec<char>, c: char)
    ensures
        final(out)@ == old(out)@ + escape_char_text(c),
{
    if c == '\\' {
        out.push('\\');
        out.push('\\');
    } else if c == '"' {
        out.push('\\');
        out.push('"');
    } else if c == '\'' {
        out.push('\\');
        out.push('\'');
    } else if c == '\n' {
        out.push('\\');
        out.push('n');
    } else if c == '\t' {
        out.push('\\');
        out.push('t');
    } else if c == '\r' {
        out.push('\\');
        out.push('r');
    } else if c == '\0' {
        out.push('\\');
        out.push('0');
    } else {
        out.push(c);
    }
    proof {
        assert(out@ =~= old(out)@ + escape_char_text(c));
    }
}

/// Append a whole escaped text to a buffer.
fn push_escaped_text(out: &mut Vec<char>, s: &Vec<char>)
    ensures
        final(out)@ == old(out)@ + escaped_text(s@),
{
    let mut i: usize = 0;
    while i < s.len()
        invariant
            i <= s@.len(),
            out@ == old(out)@ + escaped_text(s@.take(i as int)),
        decreases s@.len() - i,
    {
        push_escaped_char(out, s[i]);
        i = i + 1;
        proof {
            assert(s@.take(i as int).drop_last() =~= s@.take(i - 1));
            assert(out@ =~= old(out)@ + escaped_text(s@.take(i as int)));
        }
    }
    proof {
        assert(s@.take(s@.len() as int) =~= s@);
    }
}

/// Append a string slice's characters to a buffer.
pub fn push_str_chars(out: &mut Vec<char>, s: &str)
    ensures
        final(out)@ == old(out)@ + s@,
{
    let cs = str_to_chars(s);
    out.extend_from_slice(cs.as_slice());
    proof {
        assert(out@ =~= old(out)@ + s@);
    }
}

/// Append an emitted string literal to a buffer.
fn push_str_literal(out: &mut Vec<char>, s: &Vec<char>)
    ensures
        final(out)@ == old(out)@ + spec_str_literal(s@),
{
    out.push('"');
    push_escaped_text(out, s);
    out.push('"');
    proof {
        assert(out@ =~= old(out)@ + spec_str_literal(s@));
    }
}

/// The source text of the first `n` elements of an array, comma-separated.
pub open spec fn spec_expr_list_source(elems: Seq<SpecExpr>, n: nat) -> Seq<char>
    recommends
        n <= elems.len(),
    decreases elems, n,
        when n <= elems.len()
{
    if n == 0 {
        Seq::empty()
    } else {
        let prev = spec_expr_list_source(elems, (n - 1) as nat);
        let sep: Seq<char> = if n - 1 > 0 {
            seq![',', ' ']
        } else {
            Seq::empty()
        };
        prev + sep + spec_expr_source(elems[n - 1])
    }
}

/// The source text of the first `n` segments of a path, joined by `::`.
pub open spec fn spec_path_source(segments: Seq<Seq<char>>, leading_colon: bool, n: nat) -> Seq<
    char,
>
    recommends
        n <= segments.len(),
    decreases n,
{
    if n == 0 {
        Seq::empty()
    } else {
        let prev = spec_path_source(segments, leading_colon, (n - 1) as nat);
        let sep: Seq<char> = if n - 1 > 0 || leading_colon {
            seq![':', ':']
        } else {
            Seq::empty()
        };
        prev + sep + segments[n - 1]
    }
}

/// The source text of a list expression, as it is embedded in a generated
/// item.
pub open spec fn spec_expr_source(e: SpecExpr) -> Seq<char>
    decreases e, 0nat,
{
    match e {
        SpecExpr::IntLit(v) => dec_digits(v as nat),
        SpecExpr::CharLit(c) => spec_char_literal(c),
        SpecExpr::StrLit(s) => spec_str_literal(s),
        SpecExpr::FloatLit(t) => t,
        SpecExpr::Array(elems) => seq!['['] + spec_expr_list_source(elems, elems.len())
            + seq![']'],
        SpecExpr::PathExpr { leading_colon, segments } => spec_path_source(
            segments,
            leading_colon,
            segments.len(),
        ),
        SpecExpr::Reference(inner) => seq!['&'] + spec_expr_source(*inner),
    }
}

/// Render a list expression as source text, as `spec_expr_source` says of
/// its mathematical form.
pub fn expr_source(e: &ListExpr) -> (r: Vec<char>)
    ensures
        r@ == spec_expr_source(expr_view(*e)),
    decreases *e, 0nat,
{
    match e {
        ListExpr::IntLit(v) => render_dec(*v),
        ListExpr::CharLit(c) => {
            let mut out: Vec<char> = Vec::new();
            out.push('\'');
            push_escaped_char(&mut out, *c);
            out.push('\'');
            proof {
                assert(out@ =~= spec_char_literal(*c));
            }
            out
        },
        ListExpr::StrLit(s) => {
            let mut out: Vec<char> = Vec::new();
            push_str_literal(&mut out, s);
            proof {
                assert(out@ =~= spec_str_literal(s@));
            }
            out
        },
        ListExpr::FloatLit(t) => {
            let mut out: Vec<char> = Vec::new();
            out.extend_from_slice(t.as_slice());
            proof {
                assert(out@ =~= t@);
            }
            out
        },
        ListExpr::Array(elems) => {
            let ghost selems = exprs_view(elems@);
            proof {
                lemma_exprs_view_len(elems@);
            }
            let mut out: Vec<char> = Vec::new();
            out.push('[');
            let mut i: usize = 0;
            while i < elems.len()
                invariant
                    i <= elems@.len(),
                    selems == exprs_view(elems@),
                    selems.len() == elems@.len(),
                    out@ == seq!['['] + spec_expr_list_source(selems, i as nat),
                    forall|j: int|
                        0 <= j < elems@.len() ==> #[trigger] (decreases_to!(*e => elems@[j])),
                decreases elems@.len() - i,
            {
                if i > 0 {
                    out.push(',');
                    out.push(' ');
                }
                let part = expr_source(&elems[i]);
                out.extend_from_slice(part.as_slice());
                i = i + 1;
                proof {
                    lemma_exprs_view_index(elems@, i - 1);
                    assert(out@ =~= seq!['['] + spec_expr_list_source(selems, i as nat));
                }
            }
            out.push(']');
            proof {
                assert(out@ =~= seq!['['] + spec_expr_list_source(selems, selems.len())
                    + seq![']']);
            }
            out
        },
        ListExpr::PathExpr { leading_colon, segments } => {
            let ghost ssegs = segments_view(segments@);
            proof {
                lemma_segments_view_len(segments@);
            }
            let mut out: Vec<char> = Vec::new();
            let mut i: usize = 0;
            while i < segments.len()
                invariant
                    i <= segments@.len(),
                    ssegs == segments_view(segments@),
                    ssegs.len() == segments@.len(),
                    out@ == spec_path_source(ssegs, *leading_colon, i as nat),
                decreases segments@.len() - i,
            {
                if i > 0 || *leading_colon {
                    out.push(':');
                    out.push(':');
                }
                out.extend_from_slice(segments[i].as_slice());
                i = i + 1;
                proof {
                    lemma_segments_view_index(segments@, i - 1);
                    assert(out@ =~= spec_path_source(ssegs, *leading_colon, i as nat));
                }
            }
            out
        },
        ListExpr::Reference(inner) => {
            let mut out: Vec<char> = Vec::new();
            out.push('&');
            let part = expr_source(&**inner);
            out.extend_from_slice(part.as_slice());
            proof {
                assert(out@ =~= seq!['&'] + spec_expr_source(expr_view(*&**inner)));
            }
            out
        },
    }
}

/// The generated test for one resource path: named `name`, it hands the path
/// to the target function through `.into()`.
pub open spec fn spec_test_resources_item(name: Seq<char>, target: Seq<char>, path: Seq<char>) -> Seq<
    char,
> {
    "#[test]\n#[allow(non_snake_case)]\nfn "@ + name + "() {\n    "@ + target + "("@
        + spec_str_literal(path) + ".into());\n}\n"@
}

/// The generated benchmark for one resource path.
pub open spec fn spec_bench_resources_item(name: Seq<char>, target: Seq<char>, path: Seq<char>) -> Seq<
    char,
> {
    "#[bench]\n#[allow(non_snake_case)]\nfn "@ + name + "(b: &mut test::Bencher) {\n    "@ + target
        + "(b, "@ + spec_str_literal(path) + ".into());\n}\n"@
}

/// The generated test of the pattern-expansion macro: it binds the target
/// and applies it to the matched path.
pub open spec fn spec_glob_expand_item(name: Seq<char>, lambda: Seq<char>, path: Seq<char>) -> Seq<
    char,
> {
    "#[test]\nfn "@ + name + "() {\n    let f = "@ + lambda + ";\n    f("@ + spec_str_literal(path)
        + ");\n}\n"@
}

/// The generated test of the path-expansion macro.
pub open spec fn spec_test_paths_item(name: Seq<char>, target: Seq<char>, path: Seq<char>) -> Seq<
    char,
> {
    "#[test]\nfn "@ + name + "() {\n    "@ + target + "("@ + spec_str_literal(path) + ");\n}\n"@
}

/// The generated benchmark of the path-expansion macro.
pub open spec fn spec_bench_paths_item(name: Seq<char>, target: Seq<char>, path: Seq<char>) -> Seq<
    char,
> {
    "#[bench]\nfn "@ + name + "(bencher: &mut test::Bencher) {\n    "@ + target + "(bencher, "@
        + spec_str_literal(path) + ");\n}\n"@
}

/// The reference prefix put before an embedded list element: one that is
/// already a reference is embedded as it stands.
pub open spec fn spec_ref_prefix(e: SpecExpr) -> Seq<char> {
    if e is Reference {
        Seq::empty()
    } else {
        seq!['&']
    }
}

/// The generated test for one list element.
pub open spec fn spec_test_list_item(name: Seq<char>, target: Seq<char>, e: SpecExpr) -> Seq<char> {
    "#[test]\nfn "@ + name + "() {\n    let local = "@ + spec_ref_prefix(e) + spec_expr_source(e)
        + ";\n    "@ + target + "(local);\n}\n"@
}

/// The generated benchmark for one list element.
pub open spec fn spec_bench_list_item(name: Seq<char>, target: Seq<char>, e: SpecExpr) -> Seq<char> {
    "#[bench]\nfn "@ + name + "(bencher: &mut test::Bencher) {\n    let local = "@
        + spec_ref_prefix(e) + spec_expr_source(e) + ";\n    "@ + target + "(bencher, local);\n}\n"@
}

/// Render the generated test for one resource path.
pub fn test_resources_item(name: &Vec<char>, target: &Vec<char>, path: &Vec<char>) -> (r: Vec<char>)
    ensures
        r@ == spec_test_resources_item(name@, target@, path@),
{
    let mut out: Vec<char> = Vec::new();
    push_str_chars(&mut out, "#[test]\n#[allow(non_snake_case)]\nfn ");
    out.extend_from_slice(name.as_slice());
    push_str_chars(&mut out, "() {\n    ");
    out.extend_from_slice(target.as_slice());
    push_str_chars(&mut out, "(");
    push_str_literal(&mut out, path);
    push_str_chars(&mut out, ".into());\n}\n");
    proof {
        assert(out@ =~= spec_test_resources_item(name@, target@, path@));
    }
    out
}

/// Render the generated benchmark for one resource path.
pub fn bench_resources_item(name: &Vec<char>, target: &Vec<char>, path: &Vec<char>) -> (r: Vec<
    char,
>)
    ensures
        r@ == spec_bench_resources_item(name@, target@, path@),
{
    let mut out: Vec<char> = Vec::new();
    push_str_chars(&mut out, "#[bench]\n#[allow(non_snake_case)]\nfn ");
    out.extend_from_slice(name.as_slice());
    push_str_chars(&mut out, "(b: &mut test::Bencher) {\n    ");
    out.extend_from_slice(target.as_slice());
    push_str_chars(&mut out, "(b, ");
    push_str_literal(&mut out, path);
    push_str_chars(&mut out, ".into());\n}\n");
    proof {
        assert(out@ =~= spec_bench_resources_item(name@, target@, path@));
    }
    out
}

/// Render the generated test of the pattern-expansion macro.
pub fn glob_expand_item(name: &Vec<char>, lambda: &Vec<char>, path: &Vec<char>) -> (r: Vec<char>)
    ensures
        r@ == spec_glob_expand_item(name@, lambda@, path@),
{
    let mut out: Vec<char> = Vec::new();
    push_str_chars(&mut out, "#[test]\nfn ");
    out.extend_from_slice(name.as_slice());
    push_str_chars(&mut out, "() {\n    let f = ");
    out.extend_from_slice(lambda.as_slice());
    push_str_chars(&mut out, ";\n    f(");
    push_str_literal(&mut out, path);
    push_str_chars(&mut out, ");\n}\n");
    proof {
        assert(out@ =~= spec_glob_expand_item(name@, lambda@, path@));
    }
    out
}

/// Render the generated test of the path-expansion macro.
pub fn test_paths_item(name: &Vec<char>, target: &Vec<char>, path: &Vec<char>) -> (r: Vec<char>)
    ensures
        r@ == spec_test_paths_item(name@, target@, path@),
{
    let mut out: Vec<char> = Vec::new();
    push_str_chars(&mut out, "#[test]\nfn ");
    out.extend_from_slice(name.as_slice());
    push_str_chars(&mut out, "() {\n    ");
    out.extend_from_slice(target.as_slice());
    push_str_chars(&mut out, "(");
    push_str_literal(&mut out, path);
    push_str_chars(&mut out, ");\n}\n");
    proof {
        assert(out@ =~= spec_test_paths_item(name@, target@, path@));
    }
    out
}

/// Render the generated benchmark of the path-expansion macro.
pub fn bench_paths_item(name: &Vec<char>, target: &Vec<char>, path: &Vec<char>) -> (r: Vec<char>)
    ensures
        r@ == spec_bench_paths_item(name@, target@, path@),
{
    let mut out: Vec<char> = Vec::new();
    push_str_chars(&mut out, "#[bench]\nfn ");
    out.extend_from_slice(name.as_slice());
    push_str_chars(&mut out, "(bencher: &mut test::Bencher) {\n    ");
    out.extend_from_slice(target.as_slice());
    push_str_chars(&mut out, "(bencher, ");
    push_str_literal(&mut out, path);
    push_str_chars(&mut out, ");\n}\n");
    proof {
        assert(out@ =~= spec_bench_paths_item(name@, target@, path@));
    }
    out
}

/// Render the generated test for one list element.
pub fn test_list_item(name: &Vec<char>, target: &Vec<char>, e: &ListExpr) -> (r: Vec<char>)
    ensures
        r@ == spec_test_list_item(name@, target@, expr_view(*e)),
{
    let mut out: Vec<char> = Vec::new();
    push_str_chars(&mut out, "#[test]\nfn ");
    out.extend_from_slice(name.as_slice());
    push_str_chars(&mut out, "() {\n    let local = ");
    if !matches!(e, ListExpr::Reference(_)) {
        out.push('&');
    }
    let src = expr_source(e);
    out.extend_from_slice(src.as_slice());
    push_str_chars(&mut out, ";\n    ");
    out.extend_from_slice(target.as_slice());
    push_str_chars(&mut out, "(local);\n}\n");
    proof {
        assert(out@ =~= spec_test_list_item(name@, target@, expr_view(*e)));
    }
    out
}

/// Render the generated benchmark for one list element.
pub fn bench_list_item(name: &Vec<char>, target: &Vec<char>, e: &ListExpr) -> (r: Vec<char>)
    ensures
        r@ == spec_bench_list_item(name@, target@, expr_view(*e)),
{
    let mut out: Vec<char> = Vec::new();
    push_str_chars(&mut out, "#[bench]\nfn ");
    out.extend_from_slice(name.as_slice());
    push_str_chars(&mut out, "(bencher: &mut test::Bencher) {\n    let local = ");
    if !matches!(e, ListExpr::Reference(_)) {
        out.push('&');
    }
    let src = expr_source(e);
    out.extend_from_slice(src.as_slice());
    push_str_chars(&mut out, ";\n    ");
    out.extend_from_slice(target.as_slice());
    push_str_chars(&mut out, "(bencher, local);\n}\n");
    proof {
        assert(out@ =~= spec_bench_list_item(name@, target@, expr_view(*e)));
    }
    out
}

} // verus!
