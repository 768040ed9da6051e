//! The macro input grammar.
//!
//! A macro invocation hands over plain text; this module lexes and parses
//! it.  The grammar is small: a pattern macro takes a string literal and an
//! identifier separated by a semicolon, an attribute takes one string
//! literal, and a list macro takes an identifier and a bracketed list of
//! expressions.
//!
//! The literal grammar is a subset of the language's own: identifiers are
//! ASCII; integer literals are unsuffixed decimal without digit separators;
//! float literals are plain `digits.digits` without exponent or suffix;
//! string and character literals know the escapes `\\ \" \' \n \t \r \0`
//! and no others (`\u{..}` and `\x..` are rejected); path expressions take
//! no generic arguments.  Input outside this subset is rejected with a
//! parse error rather than accepted differently.

use vstd::prelude::*;
use crate::expr::{expr_view, exprs_view, ListExpr, SpecExpr};
use crate::strconv::chars_to_string;

verus! {

broadcast use {
    vstd::std_specs::vec::axiom_vec_index_decreases,
    vstd::seq::axiom_seq_index_decreases,
};

/// Why an input is rejected by the grammar.
#[derive(Debug, PartialEq, Eq)]
pub enum ParseError {
    /// A character no token of the grammar can start, or a malformed
    /// literal.
    BadToken,
    /// An integer literal beyond the largest representable value.
    NumberTooLarge,
    /// The input ends where the grammar needs more.
    UnexpectedEnd,
    /// A token that does not fit the grammar here.
    UnexpectedToken,
    /// A literal was found where a string literal is needed.
    ExpectedString,
    /// The macro's single expression must be a bracketed array.
    ExpectedArray,
    /// The input goes on after the grammar's end.
    TrailingTokens,
}

/// One token of the macro input grammar.
#[derive(Debug, PartialEq, Eq)]
pub enum Token {
    /// An identifier or keyword.
    Ident(Vec<char>),
    /// An unsuffixed decimal integer literal.
    IntLit(u64),
    /// A float literal, kept as its source text.
    FloatLit(Vec<char>),
    /// A string literal's value, after escape processing.
    StrLit(Vec<char>),
    /// A character literal's value.
    CharLit(char),
    /// `;`
    Semi,
    /// `,`
    Comma,
    /// `[`
    LBracket,
    /// `]`
    RBracket,
    /// `&`
    Amp,
    /// `::`
    PathSep,
}

/// The mathematical form of one token.
pub enum SpecTok {
    Ident(Seq<char>),
    IntLit(u64),
    FloatLit(Seq<char>),
    StrLit(Seq<char>),
    CharLit(char),
    Semi,
    Comma,
    LBracket,
    RBracket,
    Amp,
    PathSep,
}

impl View for Token {
    type V = SpecTok;

    open spec fn view(&self) -> SpecTok {
        match self {
            Token::Ident(s) => SpecTok::Ident(s@),
            Token::IntLit(v) => SpecTok::IntLit(*v),
            Token::FloatLit(t) => SpecTok::FloatLit(t@),
            Token::StrLit(s) => SpecTok::StrLit(s@),
            Token::CharLit(c) => SpecTok::CharLit(*c),
            Token::Semi => SpecTok::Semi,
            Token::Comma => SpecTok::Comma,
            Token::LBracket => SpecTok::LBracket,
            Token::RBracket => SpecTok::RBracket,
            Token::Amp => SpecTok::Amp,
            Token::PathSep => SpecTok::PathSep,
        }
    }
}

impl DeepView for Token {
    type V = SpecTok;

    open spec fn deep_view(&self) -> SpecTok {
        self.view()
    }
}

/// Whitespace between tokens.
pub open spec fn is_ws(c: char) -> bool {
    c == ' ' || c == '\t' || c == '\n' || c == '\r'
}

/// A character that can start an identifier.
pub open spec fn is_ident_start(c: char) -> bool {
    ('a' <= c && c <= 'z') || ('A' <= c && c <= 'Z') || c == '_'
}

/// A character that can continue an identifier.
pub open spec fn is_ident_cont(c: char) -> bool {
    is_ident_start(c) || is_dec_digit(c)
}

/// A decimal digit.
pub open spec fn is_dec_digit(c: char) -> bool {
    '0' <= c && c <= '9'
}

/// A digit's value.
pub open spec fn digit_val(c: char) -> nat {
    (c as u32 - '0' as u32) as nat
}

/// Decide whitespace, as `is_ws` says.
pub fn ws_char(c: char) -> (r: bool)
    ensures
        r == is_ws(c),
{
    c == ' ' || c == '\t' || c == '\n' || c == '\r'
}

/// Decide an identifier start, as `is_ident_start` says.
pub fn ident_start_char(c: char) -> (r: bool)
    ensures
        r == is_ident_start(c),
{
    ('a' <= c && c <= 'z') || ('A' <= c && c <= 'Z') || c == '_'
}

/// Decide an identifier continuation, as `is_ident_cont` says.
pub fn ident_cont_char(c: char) -> (r: bool)
    ensures
        r == is_ident_cont(c),
{
    ident_start_char(c) || dec_digit_char(c)
}

/// Decide a decimal digit, as `is_dec_digit` says.
pub fn dec_digit_char(c: char) -> (r: bool)
    ensures
        r == is_dec_digit(c),
{
    '0' <= c && c <= '9'
}

/// Where a run of identifier characters starting at `i` ends.
pub open spec fn ident_end(s: Seq<char>, i: int) -> int
    recommends
        0 <= i <= s.len(),
    decreases s.len() - i,
        when 0 <= i <= s.len()
{
    if i == s.len() || !is_ident_cont(s[i]) {
        i
    } else {
        ident_end(s, i + 1)
    }
}

/// `ident_end` stays within the text and after `i`.
pub proof fn lemma_ident_end_bounds(s: Seq<char>, i: int)
    requires
        0 <= i <= s.len(),
    ensures
        i <= ident_end(s, i) <= s.len(),
    decreases s.len() - i,
{
    if i < s.len() && is_ident_cont(s[i]) {
        lemma_ident_end_bounds(s, i + 1);
    }
}

/// Where a run of decimal digits starting at `i` ends.
pub open spec fn digits_end(s: Seq<char>, i: int) -> int
    recommends
        0 <= i <= s.len(),
    decreases s.len() - i,
        when 0 <= i <= s.len()
{
    if i == s.len() || !is_dec_digit(s[i]) {
        i
    } else {
        digits_end(s, i + 1)
    }
}

/// `digits_end` stays within the text and after `i`.
pub proof fn lemma_digits_end_bounds(s: Seq<char>, i: int)
    requires
        0 <= i <= s.len(),
    ensures
        i <= digits_end(s, i) <= s.len(),
    decreases s.len() - i,
{
    if i < s.len() && is_dec_digit(s[i]) {
        lemma_digits_end_bounds(s, i + 1);
    }
}

/// The value of a run of decimal digits.
pub open spec fn dec_val(digits: Seq<char>) -> nat
    decreases digits.len(),
{
    if digits.len() == 0 {
        0
    } else {
        dec_val(digits.drop_last()) * 10 + digit_val(digits.last())
    }
}

/// A longer digit run never has a smaller value.
proof fn lemma_dec_val_prefix(s: Seq<char>, k: int, m: int)
    requires
        0 <= k <= m <= s.len(),
    ensures
        dec_val(s.subrange(0, k)) <= dec_val(s.subrange(0, m)),
    decreases m - k,
{
    if k < m {
        lemma_dec_val_prefix(s, k, m - 1);
        assert(s.subrange(0, m).drop_last() =~= s.subrange(0, m - 1));
    }
}

/// Find where the identifier run starting at `i` ends.
pub fn scan_ident_end(s: &Vec<char>, i: usize) -> (r: usize)
    requires
        i <= s@.len(),
    ensures
        r == ident_end(s@, i as int),
        i <= r <= s@.len(),
{
    let mut k: usize = i;
    while k < s.len() && ident_cont_char(s[k])
        invariant
            i <= k <= s@.len(),
            ident_end(s@, i as int) == ident_end(s@, k as int),
        decreases s@.len() - k,
    {
        k = k + 1;
    }
    proof {
        lemma_ident_end_bounds(s@, i as int);
    }
    k
}

/// Copy the characters between two positions.
pub fn subvec(s: &Vec<char>, from: usize, to: usize) -> (r: Vec<char>)
    requires
        from <= to <= s@.len(),
    ensures
        r@ == s@.subrange(from as int, to as int),
{
    let mut r: Vec<char> = Vec::new();
    let mut k: usize = from;
    while k < to
        invariant
            from <= k <= to <= s@.len(),
            r@ == s@.subrange(from as int, k as int),
        decreases to - k,
    {
        r.push(s[k]);
        k = k + 1;
        proof {
            assert(s@.subrange(from as int, k as int) =~= s@.subrange(from as int, k - 1).push(
                s@[k - 1],
            ));
        }
    }
    r
}

/// What a backslash escape stands for; escapes outside this set are
/// rejected.
pub open spec fn spec_unescape(c: char) -> Option<char> {
    if c == 'n' {
        Some('\n')
    } else if c == 't' {
        Some('\t')
    } else if c == 'r' {
        Some('\r')
    } else if c == '\\' {
        Some('\\')
    } else if c == '"' {
        Some('"')
    } else if c == '\'' {
        Some('\'')
    } else if c == '0' {
        Some('\0')
    } else {
        None
    }
}

/// Resolve a backslash escape, as `spec_unescape` says.
pub fn unescape_char(c: char) -> (r: Option<char>)
    ensures
        r == spec_unescape(c),
{
    if c == 'n' {
        Some('\n')
    } else if c == 't' {
        Some('\t')
    } else if c == 'r' {
        Some('\r')
    } else if c == '\\' {
        Some('\\')
    } else if c == '"' {
        Some('"')
    } else if c == '\'' {
        Some('\'')
    } else if c == '0' {
        Some('\0')
    } else {
        None
    }
}

/// The body of a string literal from just after its opening quote: its
/// value, and the position after the closing quote.
pub open spec fn spec_str_body(s: Seq<char>, i: int) -> Result<(Seq<char>, int), ParseError>
    decreases s.len() - i,
        when 0 <= i <= s.len()
{
    if i == s.len() {
        Err(ParseError::BadToken)
    } else if s[i] == '"' {
        Ok((Seq::empty(), i + 1))
    } else if s[i] == '\\' {
        if i + 1 == s.len() {
            Err(ParseError::BadToken)
        } else {
            match spec_unescape(s[i + 1]) {
                None => Err(ParseError::BadToken),
                Some(c) => match spec_str_body(s, i + 2) {
                    Err(e) => Err(e),
                    Ok((v, j)) => Ok((seq![c] + v, j)),
                },
            }
        }
    } else {
        match spec_str_body(s, i + 1) {
            Err(e) => Err(e),
            Ok((v, j)) => Ok((seq![s[i]] + v, j)),
        }
    }
}

/// A string body ends after where it starts and within the text.
proof fn lemma_str_body_bounds(s: Seq<char>, i: int)
    requires
        0 <= i <= s.len(),
    ensures
        spec_str_body(s, i) matches Ok(r) ==> i < r.1 <= s.len(),
    decreases s.len() - i,
{
    if i < s.len() && s[i] != '"' {
        if s[i] == '\\' {
            if i + 1 < s.len() {
                lemma_str_body_bounds(s, i + 2);
            }
        } else {
            lemma_str_body_bounds(s, i + 1);
        }
    }
}

/// A character literal starting at its opening quote: its value, and the
/// position after the closing quote.
pub open spec fn spec_char_lit(s: Seq<char>, i: int) -> Result<(char, int), ParseError>
    recommends
        0 <= i < s.len(),
{
    if i + 1 >= s.len() {
        Err(ParseError::BadToken)
    } else if s[i + 1] == '\\' {
        if i + 2 >= s.len() {
            Err(ParseError::BadToken)
        } else {
            match spec_unescape(s[i + 2]) {
                None => Err(ParseError::BadToken),
                Some(c) => if i + 3 >= s.len() || s[i + 3] != '\'' {
                    Err(ParseError::BadToken)
                } else {
                    Ok((c, i + 4))
                },
            }
        }
    } else if s[i + 1] == '\'' {
        Err(ParseError::BadToken)
    } else if i + 2 >= s.len() || s[i + 2] != '\'' {
        Err(ParseError::BadToken)
    } else {
        Ok((s[i + 1], i + 3))
    }
}

/// The token of a run of digits: a float literal's text when a fraction
/// follows, else the decimal value.
pub open spec fn spec_num_tok(s: Seq<char>, i: int) -> Result<(SpecTok, int), ParseError>
    recommends
        0 <= i < s.len(),
        is_dec_digit(s[i]),
{
    let j = digits_end(s, i);
    if j < s.len() && s[j] == '.' && j + 1 < s.len() && is_dec_digit(s[j + 1]) {
        let k = digits_end(s, j + 1);
        Ok((SpecTok::FloatLit(s.subrange(i, k)), k))
    } else {
        let v = dec_val(s.subrange(i, j));
        if v > u64::MAX {
            Err(ParseError::NumberTooLarge)
        } else {
            Ok((SpecTok::IntLit(v as u64), j))
        }
    }
}

/// Every character of a digit run is a digit.
proof fn lemma_digits_end_all(s: Seq<char>, i: int)
    requires
        0 <= i <= s.len(),
    ensures
        forall|m: int| i <= m < digits_end(s, i) ==> is_dec_digit(s[m]),
    decreases s.len() - i,
{
    if i < s.len() && is_dec_digit(s[i]) {
        lemma_digits_end_all(s, i + 1);
        lemma_digits_end_bounds(s, i + 1);
    }
}

/// Read the body of a string literal, as `spec_str_body` says.
fn lex_str_body(s: &Vec<char>, i: usize) -> (r: Result<(Vec<char>, usize), ParseError>)
    requires
        i <= s@.len(),
    ensures
        r is Ok <==> spec_str_body(s@, i as int) is Ok,
        r matches Ok((v, j)) ==> spec_str_body(s@, i as int) matches Ok(sp) && v@ == sp.0 && j
            == sp.1,
        r matches Err(e) ==> spec_str_body(s@, i as int) matches Err(e2) && e == e2,
    decreases s@.len() - i,
{
    if i == s.len() {
        return Err(ParseError::BadToken);
    }
    let c = s[i];
    if c == '"' {
        let v: Vec<char> = Vec::new();
        proof {
            assert(v@ =~= Seq::<char>::empty());
        }
        return Ok((v, i + 1));
    }
    if c == '\\' {
        if i + 1 == s.len() {
            return Err(ParseError::BadToken);
        }
        match unescape_char(s[i + 1]) {
            None => Err(ParseError::BadToken),
            Some(u) => match lex_str_body(s, i + 2) {
                Err(e) => Err(e),
                Ok((v, j)) => {
                    let mut out: Vec<char> = Vec::new();
                    out.push(u);
                    out.extend_from_slice(v.as_slice());
                    proof {
                        assert(out@ =~= seq![u] + v@);
                    }
                    Ok((out, j))
                },
            },
        }
    } else {
        match lex_str_body(s, i + 1) {
            Err(e) => Err(e),
            Ok((v, j)) => {
                let mut out: Vec<char> = Vec::new();
                out.push(c);
                out.extend_from_slice(v.as_slice());
                proof {
                    assert(out@ =~= seq![c] + v@);
                }
                Ok((out, j))
            },
        }
    }
}

/// Read a character literal, as `spec_char_lit` says.
fn lex_char_lit(s: &Vec<char>, i: usize) -> (r: Result<(char, usize), ParseError>)
    requires
        i < s@.len(),
    ensures
        r is Ok <==> spec_char_lit(s@, i as int) is Ok,
        r matches Ok((c, j)) ==> spec_char_lit(s@, i as int) matches Ok(sp) && c == sp.0 && j
            == sp.1 && i < j <= s@.len(),
        r matches Err(e) ==> spec_char_lit(s@, i as int) matches Err(e2) && e == e2,
{
    let n: usize = s.len();
    if i + 1 >= n {
        return Err(ParseError::BadToken);
    }
    if s[i + 1] == '\\' {
        if i + 2 >= n {
            return Err(ParseError::BadToken);
        }
        match unescape_char(s[i + 2]) {
            None => Err(ParseError::BadToken),
            Some(c) => {
                if i + 3 >= n {
                    return Err(ParseError::BadToken);
                }
                if s[i + 3] != '\'' {
                    return Err(ParseError::BadToken);
                }
                Ok((c, i + 4))
            },
        }
    } else if s[i + 1] == '\'' {
        Err(ParseError::BadToken)
    } else {
        if i + 2 >= n {
            return Err(ParseError::BadToken);
        }
        if s[i + 2] != '\'' {
            return Err(ParseError::BadToken);
        }
        Ok((s[i + 1], i + 3))
    }
}

/// Find where the digit run starting at `i` ends.
fn scan_digits_end(s: &Vec<char>, i: usize) -> (r: usize)
    requires
        i <= s@.len(),
    ensures
        r == digits_end(s@, i as int),
        i <= r <= s@.len(),
{
    let mut k: usize = i;
    while k < s.len() && dec_digit_char(s[k])
        invariant
            i <= k <= s@.len(),
            digits_end(s@, i as int) == digits_end(s@, k as int),
        decreases s@.len() - k,
    {
        k = k + 1;
    }
    proof {
        lemma_digits_end_bounds(s@, i as int);
    }
    k
}

/// A digit's value.
fn digit_value(c: char) -> (r: u64)
    requires
        is_dec_digit(c),
    ensures
        r == digit_val(c),
{
    (c as u32 - '0' as u32) as u64
}

/// Read a number token, as `spec_num_tok` says.
fn lex_number(s: &Vec<char>, i: usize) -> (r: Result<(Token, usize), ParseError>)
    requires
        i < s@.len(),
        is_dec_digit(s@[i as int]),
    ensures
        r is Ok <==> spec_num_tok(s@, i as int) is Ok,
        r matches Ok((t, j)) ==> spec_num_tok(s@, i as int) matches Ok(sp) && t@ == sp.0 && j
            == sp.1 && i < j <= s@.len(),
        r matches Err(e) ==> spec_num_tok(s@, i as int) matches Err(e2) && e == e2,
{
    let j = scan_digits_end(s, i);
    proof {
        assert(digits_end(s@, i as int) == digits_end(s@, i + 1));
        lemma_digits_end_bounds(s@, i + 1);
    }
    if j < s.len() && s[j] == '.' && j + 1 < s.len() && dec_digit_char(s[j + 1]) {
        let k = scan_digits_end(s, j + 1);
        let text = subvec(s, i, k);
        return Ok((Token::FloatLit(text), k));
    }
    let ghost digits = s@.subrange(i as int, j as int);
    proof {
        lemma_digits_end_all(s@, i as int);
    }
    let mut v: u64 = 0;
    let mut k: usize = i;
    while k < j
        invariant
            i <= k <= j <= s@.len(),
            j == digits_end(s@, i as int),
            digits == s@.subrange(i as int, j as int),
            forall|m: int| i <= m < j ==> is_dec_digit(s@[m]),
            v == dec_val(s@.subrange(i as int, k as int)),
            !(j < s@.len() && s@[j as int] == '.' && j + 1 < s@.len() && is_dec_digit(
                s@[j + 1],
            )),
        decreases j - k,
    {
        let d = digit_value(s[k]);
        proof {
            assert(s@.subrange(i as int, k + 1).drop_last() =~= s@.subrange(i as int, k as int));
        }
        if v > u64::MAX / 10 || (v == u64::MAX / 10 && d > u64::MAX % 10) {
            proof {
                assert(v * 10 + d > u64::MAX);
                assert(dec_val(s@.subrange(i as int, k + 1)) > u64::MAX);
                assert(digits.subrange(0, k + 1 - i) =~= s@.subrange(i as int, k + 1));
                assert(digits.subrange(0, digits.len() as int) =~= digits);
                lemma_dec_val_prefix(digits, k + 1 - i, digits.len() as int);
            }
            return Err(ParseError::NumberTooLarge);
        }
        proof {
            assert(v * 10 + d <= u64::MAX);
        }
        v = v * 10 + d;
        k = k + 1;
    }
    proof {
        assert(s@.subrange(i as int, j as int) =~= digits);
    }
    Ok((Token::IntLit(v), j))
}

/// The token starting at a non-whitespace position, and where it ends.
pub open spec fn spec_token_at(s: Seq<char>, i: int) -> Result<(SpecTok, int), ParseError>
    recommends
        0 <= i < s.len(),
        !is_ws(s[i]),
{
    let c = s[i];
    if is_ident_start(c) {
        Ok((SpecTok::Ident(s.subrange(i, ident_end(s, i))), ident_end(s, i)))
    } else if is_dec_digit(c) {
        spec_num_tok(s, i)
    } else if c == '"' {
        match spec_str_body(s, i + 1) {
            Err(e) => Err(e),
            Ok((v, j)) => Ok((SpecTok::StrLit(v), j)),
        }
    } else if c == '\'' {
        match spec_char_lit(s, i) {
            Err(e) => Err(e),
            Ok((cc, j)) => Ok((SpecTok::CharLit(cc), j)),
        }
    } else if c == ';' {
        Ok((SpecTok::Semi, i + 1))
    } else if c == ',' {
        Ok((SpecTok::Comma, i + 1))
    } else if c == '[' {
        Ok((SpecTok::LBracket, i + 1))
    } else if c == ']' {
        Ok((SpecTok::RBracket, i + 1))
    } else if c == '&' {
        Ok((SpecTok::Amp, i + 1))
    } else if c == ':' {
        if i + 1 < s.len() && s[i + 1] == ':' {
            Ok((SpecTok::PathSep, i + 2))
        } else {
            Err(ParseError::BadToken)
        }
    } else {
        Err(ParseError::BadToken)
    }
}

/// Read the token starting at a non-whitespace position, as
/// `spec_token_at` says.
fn token_at(s: &Vec<char>, i: usize) -> (r: Result<(Token, usize), ParseError>)
    requires
        i < s@.len(),
        !is_ws(s@[i as int]),
    ensures
        r is Ok <==> spec_token_at(s@, i as int) is Ok,
        r matches Ok((t, j)) ==> spec_token_at(s@, i as int) matches Ok(sp) && t@ == sp.0 && j
            == sp.1 && i < j <= s@.len(),
        r matches Err(e) ==> spec_token_at(s@, i as int) matches Err(e2) && e == e2,
{
    let n: usize = s.len();
    let c = s[i];
    if ident_start_char(c) {
        let j = scan_ident_end(s, i);
        proof {
            assert(ident_end(s@, i as int) == ident_end(s@, i + 1));
            lemma_ident_end_bounds(s@, i + 1);
        }
        let text = subvec(s, i, j);
        Ok((Token::Ident(text), j))
    } else if dec_digit_char(c) {
        lex_number(s, i)
    } else if c == '"' {
        proof {
            lemma_str_body_bounds(s@, i + 1);
        }
        match lex_str_body(s, i + 1) {
            Err(e) => Err(e),
            Ok((v, j)) => Ok((Token::StrLit(v), j)),
        }
    } else if c == '\'' {
        match lex_char_lit(s, i) {
            Err(e) => Err(e),
            Ok((cc, j)) => Ok((Token::CharLit(cc), j)),
        }
    } else if c == ';' {
        Ok((Token::Semi, i + 1))
    } else if c == ',' {
        Ok((Token::Comma, i + 1))
    } else if c == '[' {
        Ok((Token::LBracket, i + 1))
    } else if c == ']' {
        Ok((Token::RBracket, i + 1))
    } else if c == '&' {
        Ok((Token::Amp, i + 1))
    } else if c == ':' {
        if i + 1 < n && s[i + 1] == ':' {
            Ok((Token::PathSep, i + 2))
        } else {
            Err(ParseError::BadToken)
        }
    } else {
        Err(ParseError::BadToken)
    }
}

/// The tokens of the input from position `i` on.
pub open spec fn spec_lex(s: Seq<char>, i: int) -> Result<Seq<SpecTok>, ParseError>
    decreases s.len() - i,
        when 0 <= i <= s.len()
{
    if i == s.len() {
        Ok(Seq::empty())
    } else if is_ws(s[i]) {
        spec_lex(s, i + 1)
    } else {
        match spec_token_at(s, i) {
            Err(e) => Err(e),
            // A token always ends after it starts; the guard keeps the
            // recursion well founded.
            Ok((t, j)) => if !(i < j <= s.len()) {
                Err(ParseError::BadToken)
            } else {
                match spec_lex(s, j) {
                    Err(e) => Err(e),
                    Ok(ts) => Ok(seq![t] + ts),
                }
            },
        }
    }
}

/// Lex the input from position `i` on, as `spec_lex` says.
fn lex_from(s: &Vec<char>, i: usize) -> (r: Result<Vec<Token>, ParseError>)
    requires
        i <= s@.len(),
    ensures
        r is Ok <==> spec_lex(s@, i as int) is Ok,
        r matches Ok(ts) ==> spec_lex(s@, i as int) matches Ok(sts) && ts.deep_view() == sts,
        r matches Err(e) ==> spec_lex(s@, i as int) matches Err(e2) && e == e2,
    decreases s@.len() - i,
{
    if i == s.len() {
        let ts: Vec<Token> = Vec::new();
        proof {
            assert(ts.deep_view() =~~= Seq::<SpecTok>::empty());
        }
        return Ok(ts);
    }
    if ws_char(s[i]) {
        return lex_from(s, i + 1);
    }
    match token_at(s, i) {
        Err(e) => Err(e),
        Ok((t, j)) => match lex_from(s, j) {
            Err(e) => Err(e),
            Ok(ts) => {
                let ghost prev = ts.deep_view();
                let mut ts = ts;
                ts.insert(0, t);
                proof {
                    assert(ts.deep_view() =~~= seq![t@] + prev);
                }
                Ok(ts)
            },
        },
    }
}

/// Lex a whole macro input.
pub fn lex_input(input: &str) -> (r: Result<Vec<Token>, ParseError>)
    ensures
        r is Ok <==> spec_lex(input@, 0) is Ok,
        r matches Ok(ts) ==> spec_lex(input@, 0) matches Ok(sts) && ts.deep_view() == sts,
        r matches Err(e) ==> spec_lex(input@, 0) matches Err(e2) && e == e2,
{
    let chars = crate::strconv::str_to_chars(input);
    lex_from(&chars, 0)
}

/// The two keyword literals the expression grammar rejects: the original
/// macros support no boolean list elements.
pub open spec fn is_bool_keyword(s: Seq<char>) -> bool {
    s == seq!['t', 'r', 'u', 'e'] || s == seq!['f', 'a', 'l', 's', 'e']
}

/// Decide a boolean keyword, as `is_bool_keyword` says.
pub fn bool_keyword(s: &Vec<char>) -> (r: bool)
    ensures
        r == is_bool_keyword(s@),
{
    if s.len() == 4 && s[0] == 't' && s[1] == 'r' && s[2] == 'u' && s[3] == 'e' {
        proof {
            assert(s@ =~= seq!['t', 'r', 'u', 'e']);
        }
        true
    } else if s.len() == 5 && s[0] == 'f' && s[1] == 'a' && s[2] == 'l' && s[3] == 's' && s[4]
        == 'e' {
        proof {
            assert(s@ =~= seq!['f', 'a', 'l', 's', 'e']);
        }
        true
    } else {
        proof {
            if s@ == seq!['t', 'r', 'u', 'e'] || s@ == seq!['f', 'a', 'l', 's', 'e'] {
                assert(false);
            }
        }
        false
    }
}

/// The segments of a path from an identifier position on: identifiers
/// separated by `::`, and where the path ends.
pub open spec fn spec_parse_path(ts: Seq<SpecTok>, i: int) -> Result<
    (Seq<Seq<char>>, int),
    ParseError,
>
    decreases ts.len() - i, 0nat,
        when 0 <= i <= ts.len()
{
    if i == ts.len() {
        Err(ParseError::UnexpectedEnd)
    } else {
        match ts[i] {
            SpecTok::Ident(name) => if i + 1 < ts.len() && ts[i + 1] is PathSep {
                match spec_parse_path(ts, i + 2) {
                    Err(e) => Err(e),
                    Ok((segs, j)) => Ok((seq![name] + segs, j)),
                }
            } else {
                Ok((seq![name], i + 1))
            },
            _ => Err(ParseError::UnexpectedToken),
        }
    }
}

/// One expression of the list grammar, and where it ends.
pub open spec fn spec_parse_expr(ts: Seq<SpecTok>, i: int) -> Result<(SpecExpr, int), ParseError>
    decreases ts.len() - i, 1nat,
        when 0 <= i <= ts.len()
{
    if i == ts.len() {
        Err(ParseError::UnexpectedEnd)
    } else {
        match ts[i] {
            SpecTok::IntLit(v) => Ok((SpecExpr::IntLit(v), i + 1)),
            SpecTok::FloatLit(t) => Ok((SpecExpr::FloatLit(t), i + 1)),
            SpecTok::StrLit(s) => Ok((SpecExpr::StrLit(s), i + 1)),
            SpecTok::CharLit(c) => Ok((SpecExpr::CharLit(c), i + 1)),
            SpecTok::Amp => match spec_parse_expr(ts, i + 1) {
                Err(e) => Err(e),
                Ok((e, j)) => Ok((SpecExpr::Reference(Box::new(e)), j)),
            },
            SpecTok::LBracket => match spec_parse_elems(ts, i + 1) {
                Err(e) => Err(e),
                Ok((elems, j)) => Ok((SpecExpr::Array(elems), j)),
            },
            SpecTok::Ident(name) => if is_bool_keyword(name) {
                Err(ParseError::UnexpectedToken)
            } else {
                match spec_parse_path(ts, i) {
                    Err(e) => Err(e),
                    Ok((segs, j)) => Ok(
                        (SpecExpr::PathExpr { leading_colon: false, segments: segs }, j),
                    ),
                }
            },
            SpecTok::PathSep => match spec_parse_path(ts, i + 1) {
                Err(e) => Err(e),
                Ok((segs, j)) => Ok(
                    (SpecExpr::PathExpr { leading_colon: true, segments: segs }, j),
                ),
            },
            _ => Err(ParseError::UnexpectedToken),
        }
    }
}

/// The elements of an array from just after its opening bracket: expressions
/// separated by commas, a trailing comma allowed, up to the closing bracket.
pub open spec fn spec_parse_elems(ts: Seq<SpecTok>, i: int) -> Result<
    (Seq<SpecExpr>, int),
    ParseError,
>
    decreases ts.len() - i, 2nat,
        when 0 <= i <= ts.len()
{
    if i == ts.len() {
        Err(ParseError::UnexpectedEnd)
    } else if ts[i] is RBracket {
        Ok((Seq::empty(), i + 1))
    } else {
        match spec_parse_expr(ts, i) {
            Err(e) => Err(e),
            // An expression always ends after it starts; the guard keeps
            // the recursion well founded.
            Ok((e, j)) => if !(i < j <= ts.len()) {
                Err(ParseError::BadToken)
            } else if j == ts.len() {
                Err(ParseError::UnexpectedEnd)
            } else if ts[j] is RBracket {
                Ok((seq![e], j + 1))
            } else if ts[j] is Comma {
                match spec_parse_elems(ts, j + 1) {
                    Err(e2) => Err(e2),
                    Ok((rest, k)) => Ok((seq![e] + rest, k)),
                }
            } else {
                Err(ParseError::UnexpectedToken)
            },
        }
    }
}

/// Prepending an expression and taking views commute.
proof fn lemma_exprs_view_prepend(e: ListExpr, v: Seq<ListExpr>)
    ensures
        exprs_view(seq![e] + v) =~= seq![expr_view(e)] + exprs_view(v),
    decreases v.len(),
{
    if v.len() == 0 {
        assert((seq![e] + v) =~= seq![e]);
        assert(seq![e].drop_last() =~= Seq::<ListExpr>::empty());
        assert(exprs_view(Seq::<ListExpr>::empty()) =~= Seq::<SpecExpr>::empty());
        assert(exprs_view(seq![e]) =~= seq![expr_view(e)]);
    } else {
        assert((seq![e] + v).drop_last() =~= seq![e] + v.drop_last());
        assert((seq![e] + v).last() == v.last());
        lemma_exprs_view_prepend(e, v.drop_last());
    }
}

/// Prepending a segment and taking views commute.
proof fn lemma_segments_view_prepend(s: Vec<char>, v: Seq<Vec<char>>)
    ensures
        crate::expr::segments_view(seq![s] + v) =~= seq![s@] + crate::expr::segments_view(v),
    decreases v.len(),
{
    if v.len() == 0 {
        assert((seq![s] + v) =~= seq![s]);
        assert(seq![s].drop_last() =~= Seq::<Vec<char>>::empty());
        assert(crate::expr::segments_view(Seq::<Vec<char>>::empty()) =~= Seq::<
            Seq<char>,
        >::empty());
        assert(crate::expr::segments_view(seq![s]) =~= seq![s@]);
    } else {
        assert((seq![s] + v).drop_last() =~= seq![s] + v.drop_last());
        assert((seq![s] + v).last() == v.last());
        lemma_segments_view_prepend(s, v.drop_last());
    }
}

/// Parse a path's segments, as `spec_parse_path` says.
fn parse_path_toks(ts: &Vec<Token>, i: usize) -> (r: Result<(Vec<Vec<char>>, usize), ParseError>)
    requires
        i <= ts@.len(),
    ensures
        r is Ok <==> spec_parse_path(ts.deep_view(), i as int) is Ok,
        r matches Ok((segs, j)) ==> spec_parse_path(ts.deep_view(), i as int) matches Ok(sp)
            && crate::expr::segments_view(segs@) == sp.0 && j == sp.1 && i < j <= ts@.len(),
        r matches Err(e) ==> spec_parse_path(ts.deep_view(), i as int) matches Err(e2) && e == e2,
    decreases ts@.len() - i, 0nat,
{
    if i == ts.len() {
        return Err(ParseError::UnexpectedEnd);
    }
    match &ts[i] {
        Token::Ident(name) => {
            let more = i + 1 < ts.len() && matches!(&ts[i + 1], Token::PathSep);
            if more {
                match parse_path_toks(ts, i + 2) {
                    Err(e) => Err(e),
                    Ok((segs, j)) => {
                        let ghost rest = segs@;
                        let head = name.clone();
                        let ghost headg = head;
                        let mut segs = segs;
                        segs.insert(0, head);
                        proof {
                            assert(headg@ =~= name@);
                            assert(segs@ =~= seq![headg] + rest);
                            lemma_segments_view_prepend(headg, rest);
                        }
                        Ok((segs, j))
                    },
                }
            } else {
                let head = name.clone();
                let ghost headg = head;
                let mut segs: Vec<Vec<char>> = Vec::new();
                segs.push(head);
                proof {
                    assert(headg@ =~= name@);
                    assert(segs@ =~= seq![headg]);
                    assert(seq![headg].drop_last() =~= Seq::<Vec<char>>::empty());
                    assert(crate::expr::segments_view(Seq::<Vec<char>>::empty()) =~= Seq::<
                        Seq<char>,
                    >::empty());
                    assert(crate::expr::segments_view(segs@) =~= seq![name@]);
                }
                Ok((segs, i + 1))
            }
        },
        _ => Err(ParseError::UnexpectedToken),
    }
}

/// Parse one expression, as `spec_parse_expr` says.
pub fn parse_expr_toks(ts: &Vec<Token>, i: usize) -> (r: Result<(ListExpr, usize), ParseError>)
    requires
        i <= ts@.len(),
    ensures
        r is Ok <==> spec_parse_expr(ts.deep_view(), i as int) is Ok,
        r matches Ok((e, j)) ==> spec_parse_expr(ts.deep_view(), i as int) matches Ok(sp)
            && expr_view(e) == sp.0 && j == sp.1 && i < j <= ts@.len(),
        r matches Err(err) ==> spec_parse_expr(ts.deep_view(), i as int) matches Err(e2) && err
            == e2,
    decreases ts@.len() - i, 1nat,
{
    if i == ts.len() {
        return Err(ParseError::UnexpectedEnd);
    }
    match &ts[i] {
        Token::IntLit(v) => Ok((ListExpr::IntLit(*v), i + 1)),
        Token::FloatLit(t) => Ok((ListExpr::FloatLit(t.clone()), i + 1)),
        Token::StrLit(s) => Ok((ListExpr::StrLit(s.clone()), i + 1)),
        Token::CharLit(c) => Ok((ListExpr::CharLit(*c), i + 1)),
        Token::Amp => match parse_expr_toks(ts, i + 1) {
            Err(e) => Err(e),
            Ok((e, j)) => Ok((ListExpr::Reference(Box::new(e)), j)),
        },
        Token::LBracket => match parse_elems_toks(ts, i + 1) {
            Err(e) => Err(e),
            Ok((elems, j)) => Ok((ListExpr::Array(elems), j)),
        },
        Token::Ident(name) => {
            if bool_keyword(name) {
                return Err(ParseError::UnexpectedToken);
            }
            match parse_path_toks(ts, i) {
                Err(e) => Err(e),
                Ok((segs, j)) => Ok(
                    (ListExpr::PathExpr { leading_colon: false, segments: segs }, j),
                ),
            }
        },
        Token::PathSep => match parse_path_toks(ts, i + 1) {
            Err(e) => Err(e),
            Ok((segs, j)) => Ok((ListExpr::PathExpr { leading_colon: true, segments: segs }, j)),
        },
        _ => Err(ParseError::UnexpectedToken),
    }
}

/// Whether a token is a literal of the grammar; the keywords `true` and
/// `false` count as literals here, as the attribute grammar must tell a
/// boolean apart from a missing literal.
pub open spec fn is_lit_tok(t: SpecTok) -> bool {
    match t {
        SpecTok::IntLit(_) => true,
        SpecTok::FloatLit(_) => true,
        SpecTok::StrLit(_) => true,
        SpecTok::CharLit(_) => true,
        SpecTok::Ident(n) => is_bool_keyword(n),
        _ => false,
    }
}

/// Decide a literal token, as `is_lit_tok` says.
fn lit_tok(t: &Token) -> (r: bool)
    ensures
        r == is_lit_tok(t@),
{
    match t {
        Token::IntLit(_) => true,
        Token::FloatLit(_) => true,
        Token::StrLit(_) => true,
        Token::CharLit(_) => true,
        Token::Ident(n) => bool_keyword(n),
        _ => false,
    }
}

/// The attribute grammar: exactly one literal, which must be a string; its
/// value is the resource pattern.
pub open spec fn spec_parse_macro_attributes(ts: Seq<SpecTok>) -> Result<Seq<char>, ParseError> {
    if ts.len() == 0 {
        Err(ParseError::UnexpectedEnd)
    } else if !is_lit_tok(ts[0]) {
        Err(ParseError::UnexpectedToken)
    } else if ts.len() > 1 {
        Err(ParseError::TrailingTokens)
    } else {
        match ts[0] {
            SpecTok::StrLit(s) => Ok(s),
            _ => Err(ParseError::ExpectedString),
        }
    }
}

/// Parse an attribute's argument, as `spec_parse_macro_attributes` says.
pub fn parse_macro_attributes(ts: &Vec<Token>) -> (r: Result<Vec<char>, ParseError>)
    ensures
        r is Ok <==> spec_parse_macro_attributes(ts.deep_view()) is Ok,
        r matches Ok(p) ==> spec_parse_macro_attributes(ts.deep_view()) matches Ok(sp) && p@
            == sp,
        r matches Err(e) ==> spec_parse_macro_attributes(ts.deep_view()) matches Err(e2) && e
            == e2,
{
    if ts.len() == 0 {
        return Err(ParseError::UnexpectedEnd);
    }
    if !lit_tok(&ts[0]) {
        return Err(ParseError::UnexpectedToken);
    }
    if ts.len() > 1 {
        return Err(ParseError::TrailingTokens);
    }
    match &ts[0] {
        Token::StrLit(s) => Ok(s.clone()),
        _ => Err(ParseError::ExpectedString),
    }
}

/// The pattern-expansion grammar: a literal, a semicolon, an identifier; the
/// literal must be a string.  The value is the pattern and the identifier.
pub open spec fn spec_parse_glob_expand(ts: Seq<SpecTok>) -> Result<
    (Seq<char>, Seq<char>),
    ParseError,
> {
    if ts.len() == 0 {
        Err(ParseError::UnexpectedEnd)
    } else if !is_lit_tok(ts[0]) {
        Err(ParseError::UnexpectedToken)
    } else if ts.len() < 2 {
        Err(ParseError::UnexpectedEnd)
    } else if !(ts[1] is Semi) {
        Err(ParseError::UnexpectedToken)
    } else if ts.len() < 3 {
        Err(ParseError::UnexpectedEnd)
    } else {
        match ts[2] {
            SpecTok::Ident(name) => if is_bool_keyword(name) {
                Err(ParseError::UnexpectedToken)
            } else if ts.len() > 3 {
                Err(ParseError::TrailingTokens)
            } else {
                match ts[0] {
                    SpecTok::StrLit(s) => Ok((s, name)),
                    _ => Err(ParseError::ExpectedString),
                }
            },
            _ => Err(ParseError::UnexpectedToken),
        }
    }
}

/// Parse a pattern-expansion input, as `spec_parse_glob_expand` says.
pub fn parse_glob_expand(ts: &Vec<Token>) -> (r: Result<(Vec<char>, Vec<char>), ParseError>)
    ensures
        r is Ok <==> spec_parse_glob_expand(ts.deep_view()) is Ok,
        r matches Ok(p) ==> spec_parse_glob_expand(ts.deep_view()) matches Ok(sp) && p.0@ == sp.0
            && p.1@ == sp.1,
        r matches Err(e) ==> spec_parse_glob_expand(ts.deep_view()) matches Err(e2) && e == e2,
{
    if ts.len() == 0 {
        return Err(ParseError::UnexpectedEnd);
    }
    if !lit_tok(&ts[0]) {
        return Err(ParseError::UnexpectedToken);
    }
    if ts.len() < 2 {
        return Err(ParseError::UnexpectedEnd);
    }
    if !matches!(&ts[1], Token::Semi) {
        return Err(ParseError::UnexpectedToken);
    }
    if ts.len() < 3 {
        return Err(ParseError::UnexpectedEnd);
    }
    match &ts[2] {
        Token::Ident(name) => {
            if bool_keyword(name) {
                return Err(ParseError::UnexpectedToken);
            }
            if ts.len() > 3 {
                return Err(ParseError::TrailingTokens);
            }
            match &ts[0] {
                Token::StrLit(s) => Ok((s.clone(), name.clone())),
                _ => Err(ParseError::ExpectedString),
            }
        },
        _ => Err(ParseError::UnexpectedToken),
    }
}

/// The path-expansion grammar: an identifier, a semicolon, a literal; the
/// literal must be a string.  The value is the identifier and the pattern.
pub open spec fn spec_parse_expand_paths(ts: Seq<SpecTok>) -> Result<
    (Seq<char>, Seq<char>),
    ParseError,
> {
    if ts.len() == 0 {
        Err(ParseError::UnexpectedEnd)
    } else {
        match ts[0] {
            SpecTok::Ident(name) => if is_bool_keyword(name) {
                Err(ParseError::UnexpectedToken)
            } else if ts.len() < 2 {
                Err(ParseError::UnexpectedEnd)
            } else if !(ts[1] is Semi) {
                Err(ParseError::UnexpectedToken)
            } else if ts.len() < 3 {
                Err(ParseError::UnexpectedEnd)
            } else if !is_lit_tok(ts[2]) {
                Err(ParseError::UnexpectedToken)
            } else if ts.len() > 3 {
                Err(ParseError::TrailingTokens)
            } else {
                match ts[2] {
                    SpecTok::StrLit(s) => Ok((name, s)),
                    _ => Err(ParseError::ExpectedString),
                }
            },
            _ => Err(ParseError::UnexpectedToken),
        }
    }
}

/// Parse a path-expansion input, as `spec_parse_expand_paths` says.
pub fn parse_expand_paths(ts: &Vec<Token>) -> (r: Result<(Vec<char>, Vec<char>), ParseError>)
    ensures
        r is Ok <==> spec_parse_expand_paths(ts.deep_view()) is Ok,
        r matches Ok(p) ==> spec_parse_expand_paths(ts.deep_view()) matches Ok(sp) && p.0@ == sp.0
            && p.1@ == sp.1,
        r matches Err(e) ==> spec_parse_expand_paths(ts.deep_view()) matches Err(e2) && e == e2,
{
    if ts.len() == 0 {
        return Err(ParseError::UnexpectedEnd);
    }
    match &ts[0] {
        Token::Ident(name) => {
            if bool_keyword(name) {
                return Err(ParseError::UnexpectedToken);
            }
            if ts.len() < 2 {
                return Err(ParseError::UnexpectedEnd);
            }
            if !matches!(&ts[1], Token::Semi) {
                return Err(ParseError::UnexpectedToken);
            }
            if ts.len() < 3 {
                return Err(ParseError::UnexpectedEnd);
            }
            if !lit_tok(&ts[2]) {
                return Err(ParseError::UnexpectedToken);
            }
            if ts.len() > 3 {
                return Err(ParseError::TrailingTokens);
            }
            match &ts[2] {
                Token::StrLit(s) => Ok((name.clone(), s.clone())),
                _ => Err(ParseError::ExpectedString),
            }
        },
        _ => Err(ParseError::UnexpectedToken),
    }
}

/// The list-expansion grammar: an identifier, a semicolon, one expression
/// that must be a bracketed array.  The value is the identifier and the
/// array's elements.
pub open spec fn spec_parse_expand_list(ts: Seq<SpecTok>) -> Result<
    (Seq<char>, Seq<SpecExpr>),
    ParseError,
> {
    if ts.len() == 0 {
        Err(ParseError::UnexpectedEnd)
    } else {
        match ts[0] {
            SpecTok::Ident(name) => if is_bool_keyword(name) {
                Err(ParseError::UnexpectedToken)
            } else if ts.len() < 2 {
                Err(ParseError::UnexpectedEnd)
            } else if !(ts[1] is Semi) {
                Err(ParseError::UnexpectedToken)
            } else {
                match spec_parse_expr(ts, 2) {
                    Err(e) => Err(e),
                    Ok((e, j)) => if j != ts.len() {
                        Err(ParseError::TrailingTokens)
                    } else {
                        match e {
                            SpecExpr::Array(elems) => Ok((name, elems)),
                            _ => Err(ParseError::ExpectedArray),
                        }
                    },
                }
            },
            _ => Err(ParseError::UnexpectedToken),
        }
    }
}

/// Parse a list-expansion input, as `spec_parse_expand_list` says.
pub fn parse_expand_list(ts: &Vec<Token>) -> (r: Result<(Vec<char>, Vec<ListExpr>), ParseError>)
    ensures
        r is Ok <==> spec_parse_expand_list(ts.deep_view()) is Ok,
        r matches Ok(p) ==> spec_parse_expand_list(ts.deep_view()) matches Ok(sp) && p.0@ == sp.0
            && exprs_view(p.1@) == sp.1,
        r matches Err(e) ==> spec_parse_expand_list(ts.deep_view()) matches Err(e2) && e == e2,
{
    if ts.len() == 0 {
        return Err(ParseError::UnexpectedEnd);
    }
    match &ts[0] {
        Token::Ident(name) => {
            if bool_keyword(name) {
                return Err(ParseError::UnexpectedToken);
            }
            if ts.len() < 2 {
                return Err(ParseError::UnexpectedEnd);
            }
            if !matches!(&ts[1], Token::Semi) {
                return Err(ParseError::UnexpectedToken);
            }
            match parse_expr_toks(ts, 2) {
                Err(e) => Err(e),
                Ok((e, j)) => {
                    if j != ts.len() {
                        return Err(ParseError::TrailingTokens);
                    }
                    match e {
                        ListExpr::Array(elems) => Ok((name.clone(), elems)),
                        _ => Err(ParseError::ExpectedArray),
                    }
                },
            }
        },
        _ => Err(ParseError::UnexpectedToken),
    }
}

/// Parse an array's elements, as `spec_parse_elems` says.
fn parse_elems_toks(ts: &Vec<Token>, i: usize) -> (r: Result<(Vec<ListExpr>, usize), ParseError>)
    requires
        i <= ts@.len(),
    ensures
        r is Ok <==> spec_parse_elems(ts.deep_view(), i as int) is Ok,
        r matches Ok((elems, j)) ==> spec_parse_elems(ts.deep_view(), i as int) matches Ok(sp)
            && exprs_view(elems@) == sp.0 && j == sp.1 && i < j <= ts@.len(),
        r matches Err(e) ==> spec_parse_elems(ts.deep_view(), i as int) matches Err(e2) && e
            == e2,
    decreases ts@.len() - i, 2nat,
{
    if i == ts.len() {
        return Err(ParseError::UnexpectedEnd);
    }
    if matches!(&ts[i], Token::RBracket) {
        let elems: Vec<ListExpr> = Vec::new();
        proof {
            assert(exprs_view(elems@) =~= Seq::<SpecExpr>::empty());
        }
        return Ok((elems, i + 1));
    }
    match parse_expr_toks(ts, i) {
        Err(e) => Err(e),
        Ok((e, j)) => {
            if j == ts.len() {
                return Err(ParseError::UnexpectedEnd);
            }
            if matches!(&ts[j], Token::RBracket) {
                let ghost eg = e;
                let mut elems: Vec<ListExpr> = Vec::new();
                elems.push(e);
                proof {
                    assert(elems@ =~= seq![eg]);
                    assert(elems@.drop_last() =~= Seq::<ListExpr>::empty());
                    assert(exprs_view(Seq::<ListExpr>::empty()) =~= Seq::<SpecExpr>::empty());
                    assert(exprs_view(elems@) =~= seq![expr_view(eg)]);
                }
                return Ok((elems, j + 1));
            }
            if matches!(&ts[j], Token::Comma) {
                match parse_elems_toks(ts, j + 1) {
                    Err(e2) => Err(e2),
                    Ok((rest, k)) => {
                        let ghost rest_snap = rest@;
                        let ghost e_snap = e;
                        let mut elems = rest;
                        elems.insert(0, e);
                        proof {
                            assert(elems@ =~= seq![e_snap] + rest_snap);
                            lemma_exprs_view_prepend(e_snap, rest_snap);
                        }
                        Ok((elems, k))
                    },
                }
            } else {
                Err(ParseError::UnexpectedToken)
            }
        },
    }
}

/// Where a run of whitespace starting at `i` ends.
pub open spec fn ws_end(s: Seq<char>, i: int) -> int
    recommends
        0 <= i <= s.len(),
    decreases s.len() - i,
        when 0 <= i <= s.len()
{
    if i == s.len() || !is_ws(s[i]) {
        i
    } else {
        ws_end(s, i + 1)
    }
}

/// `ws_end` stays within the text and after `i`.
proof fn lemma_ws_end_bounds(s: Seq<char>, i: int)
    requires
        0 <= i <= s.len(),
    ensures
        i <= ws_end(s, i) <= s.len(),
    decreases s.len() - i,
{
    if i < s.len() && is_ws(s[i]) {
        lemma_ws_end_bounds(s, i + 1);
    }
}

/// Whether the standalone word `fn` stands at position `k`.
pub open spec fn fn_word_at(s: Seq<char>, k: int) -> bool {
    &&& 0 <= k
    &&& k + 2 <= s.len()
    &&& s[k] == 'f'
    &&& s[k + 1] == 'n'
    &&& (k == 0 || !is_ident_cont(s[k - 1]))
    &&& (k + 2 == s.len() || !is_ident_cont(s[k + 2]))
}

/// The first standalone `fn` word at or after position `i`.
pub open spec fn spec_find_fn(s: Seq<char>, i: int) -> Option<int>
    recommends
        0 <= i <= s.len(),
    decreases s.len() - i,
        when 0 <= i <= s.len()
{
    if i + 2 > s.len() {
        None
    } else if fn_word_at(s, i) {
        Some(i)
    } else {
        spec_find_fn(s, i + 1)
    }
}

/// The identifier of the function an item's text declares: the first
/// identifier after the first standalone `fn` word.  This reads only what
/// the expansion needs of the item; the item's text itself is kept as it
/// stands.
///
/// The scan is an approximation of a full function-item parse: a standalone
/// `fn` word inside a comment, a string literal, or a non-function item is
/// taken as the declaration, and text that declares no function at all is
/// rejected only when no such word is followed by an identifier.
pub open spec fn spec_fn_ident(s: Seq<char>) -> Option<Seq<char>> {
    match spec_find_fn(s, 0) {
        None => None,
        Some(k) => {
            let j = ws_end(s, k + 2);
            if j < s.len() && is_ident_start(s[j]) {
                Some(s.subrange(j, ident_end(s, j)))
            } else {
                None
            }
        },
    }
}

/// Extract the declared function's identifier, as `spec_fn_ident` says;
/// see there for how far the scan approximates a full item parse.
pub fn extract_fn_ident(func: &str) -> (r: Option<String>)
    ensures
        r is Some <==> spec_fn_ident(func@) is Some,
        r matches Some(name) ==> spec_fn_ident(func@) matches Some(sn) && name@ == sn,
{
    let s = crate::strconv::str_to_chars(func);
    let n: usize = s.len();
    let mut i: usize = 0;
    let mut found: Option<usize> = None;
    loop
        invariant_except_break
            found is None,
        invariant
            i <= n,
            n == s@.len(),
            s@ == func@,
            spec_find_fn(s@, 0) == spec_find_fn(s@, i as int),
        ensures
            n == s@.len(),
            s@ == func@,
            match found {
                Some(k) => spec_find_fn(s@, 0) == Some(k as int) && k + 2 <= n,
                None => spec_find_fn(s@, 0) is None,
            },
        decreases n - i,
    {
        if n < 2 || i > n - 2 {
            break ;
        }
        let word_here = s[i] == 'f' && s[i + 1] == 'n' && (i == 0 || !ident_cont_char(s[i - 1]))
            && (i + 2 == n || !ident_cont_char(s[i + 2]));
        if word_here {
            found = Some(i);
            break ;
        }
        i = i + 1;
    }
    match found {
        None => None,
        Some(k) => {
            let mut j: usize = k + 2;
            while j < n && ws_char(s[j])
                invariant
                    k + 2 <= j <= n,
                    n == s@.len(),
                    ws_end(s@, k + 2) == ws_end(s@, j as int),
                decreases n - j,
            {
                j = j + 1;
            }
            proof {
                lemma_ws_end_bounds(s@, k + 2);
            }
            if j < n && ident_start_char(s[j]) {
                let e = scan_ident_end(&s, j);
                let name = subvec(&s, j, e);
                Some(chars_to_string(&name))
            } else {
                None
            }
        },
    }
}

/// Lex and parse an attribute's argument: the resource pattern it names.
pub open spec fn spec_attr_input(s: Seq<char>) -> Result<Seq<char>, ParseError> {
    match spec_lex(s, 0) {
        Err(e) => Err(e),
        Ok(ts) => spec_parse_macro_attributes(ts),
    }
}

/// Parse an attribute's argument text, as `spec_attr_input` says.
pub fn parse_attr_input(input: &str) -> (r: Result<String, ParseError>)
    ensures
        r is Ok <==> spec_attr_input(input@) is Ok,
        r matches Ok(p) ==> spec_attr_input(input@) matches Ok(sp) && p@ == sp,
        r matches Err(e) ==> spec_attr_input(input@) matches Err(e2) && e == e2,
{
    match lex_input(input) {
        Err(e) => Err(e),
        Ok(ts) => match parse_macro_attributes(&ts) {
            Err(e) => Err(e),
            Ok(p) => Ok(chars_to_string(&p)),
        },
    }
}

/// Lex and parse a pattern-expansion input: the pattern and the identifier.
pub open spec fn spec_glob_expand_input(s: Seq<char>) -> Result<
    (Seq<char>, Seq<char>),
    ParseError,
> {
    match spec_lex(s, 0) {
        Err(e) => Err(e),
        Ok(ts) => spec_parse_glob_expand(ts),
    }
}

/// Parse a pattern-expansion input text, as `spec_glob_expand_input` says.
pub fn parse_glob_expand_input(input: &str) -> (r: Result<(String, String), ParseError>)
    ensures
        r is Ok <==> spec_glob_expand_input(input@) is Ok,
        r matches Ok(p) ==> spec_glob_expand_input(input@) matches Ok(sp) && p.0@ == sp.0 && p.1@
            == sp.1,
        r matches Err(e) ==> spec_glob_expand_input(input@) matches Err(e2) && e == e2,
{
    match lex_input(input) {
        Err(e) => Err(e),
        Ok(ts) => match parse_glob_expand(&ts) {
            Err(e) => Err(e),
            Ok((p, l)) => Ok((chars_to_string(&p), chars_to_string(&l))),
        },
    }
}

/// Lex and parse a path-expansion input: the identifier and the pattern.
pub open spec fn spec_expand_paths_input(s: Seq<char>) -> Result<
    (Seq<char>, Seq<char>),
    ParseError,
> {
    match spec_lex(s, 0) {
        Err(e) => Err(e),
        Ok(ts) => spec_parse_expand_paths(ts),
    }
}

/// Parse a path-expansion input text, as `spec_expand_paths_input` says.
pub fn parse_expand_paths_input(input: &str) -> (r: Result<(String, String), ParseError>)
    ensures
        r is Ok <==> spec_expand_paths_input(input@) is Ok,
        r matches Ok(p) ==> spec_expand_paths_input(input@) matches Ok(sp) && p.0@ == sp.0
            && p.1@ == sp.1,
        r matches Err(e) ==> spec_expand_paths_input(input@) matches Err(e2) && e == e2,
{
    match lex_input(input) {
        Err(e) => Err(e),
        Ok(ts) => match parse_expand_paths(&ts) {
            Err(e) => Err(e),
            Ok((n, p)) => Ok((chars_to_string(&n), chars_to_string(&p))),
        },
    }
}

/// Lex and parse a list-expansion input: the identifier and the elements.
pub open spec fn spec_expand_list_input(s: Seq<char>) -> Result<
    (Seq<char>, Seq<SpecExpr>),
    ParseError,
> {
    match spec_lex(s, 0) {
        Err(e) => Err(e),
        Ok(ts) => spec_parse_expand_list(ts),
    }
}

/// Parse a list-expansion input text, as `spec_expand_list_input` says.
pub fn parse_expand_list_input(input: &str) -> (r: Result<(String, Vec<ListExpr>), ParseError>)
    ensures
        r is Ok <==> spec_expand_list_input(input@) is Ok,
        r matches Ok(p) ==> spec_expand_list_input(input@) matches Ok(sp) && p.0@ == sp.0
            && exprs_view(p.1@) == sp.1,
        r matches Err(e) ==> spec_expand_list_input(input@) matches Err(e2) && e == e2,
{
    match lex_input(input) {
        Err(e) => Err(e),
        Ok(ts) => match parse_expand_list(&ts) {
            Err(e) => Err(e),
            Ok((n, elems)) => Ok((chars_to_string(&n), elems)),
        },
    }
}

} // verus!
