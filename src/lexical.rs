use vstd::prelude::*;
use crate::token::{KindView, Punct, TokenView, eof_view, word_kind};

verus! {

/// Character classes whose maximal runs make up the longer lexemes.
#[derive(Clone, Copy, Debug, PartialEq, Eq, Structural)]
pub enum CharClass {
    /// `0`-`9`.
    Digit,
    /// Letters, digits and `_`: the body of an identifier.
    Word,
    /// Anything but a newline: the body of a line comment.
    LineBody,
    /// Anything but `"`: the body of a string literal.
    StringBody,
}

pub open spec fn is_digit(c: char) -> bool {
    '0' <= c && c <= '9'
}

/// A character that may begin an identifier.
pub open spec fn is_word_start(c: char) -> bool {
    ('a' <= c && c <= 'z') || ('A' <= c && c <= 'Z') || c == '_'
}

pub open spec fn in_class(c: char, class: CharClass) -> bool {
    match class {
        CharClass::Digit => is_digit(c),
        CharClass::Word => is_word_start(c) || is_digit(c),
        CharClass::LineBody => c != '\n',
        CharClass::StringBody => c != '"',
    }
}

/// Whitespace that separates tokens (newline included).
pub open spec fn is_blank(c: char) -> bool {
    c == ' ' || c == '\r' || c == '\t' || c == '\n'
}

/// The length of the longest run of characters of `class` in `s` from `i` on.
pub open spec fn run_len(s: Seq<char>, i: int, class: CharClass) -> nat
    decreases s.len() - i,
{
    if 0 <= i < s.len() && in_class(s[i], class) {
        1 + run_len(s, i + 1, class)
    } else {
        0
    }
}

/// The punctuation that a character stands for on its own, whatever follows.
pub open spec fn single_punct(c: char) -> Option<Punct> {
    if c == '(' {
        Some(Punct::LeftParen)
    } else if c == ')' {
        Some(Punct::RightParen)
    } else if c == '{' {
        Some(Punct::LeftBrace)
    } else if c == '}' {
        Some(Punct::RightBrace)
    } else if c == ',' {
        Some(Punct::Comma)
    } else if c == '.' {
        Some(Punct::Dot)
    } else if c == '-' {
        Some(Punct::Minus)
    } else if c == '+' {
        Some(Punct::Plus)
    } else if c == '*' {
        Some(Punct::Star)
    } else if c == ';' {
        Some(Punct::Semicolon)
    } else {
        None
    }
}

/// For `!`, `=`, `<` and `>`: the operator alone, and the operator followed by `=`.
pub open spec fn paired_punct(c: char) -> Option<(Punct, Punct)> {
    if c == '!' {
        Some((Punct::Bang, Punct::BangEqual))
    } else if c == '=' {
        Some((Punct::Equal, Punct::DoubleEqual))
    } else if c == '<' {
        Some((Punct::LessThan, Punct::LessThanEqual))
    } else if c == '>' {
        Some((Punct::GreaterThan, Punct::GreaterThanEqual))
    } else {
        None
    }
}

/// What the scanner finds at one position.
pub enum Lexed {
    /// A token, and the position just after its text.
    Token(TokenView, int),
    /// Whitespace or a comment, up to the given position.
    Skip(int),
    /// A character that no rule accepts.
    Unexpected(char),
    /// A string literal that the input ends inside.
    Unterminated,
}

/// The token made of `s[i..e]` with the given kind.
pub open spec fn token_at(s: Seq<char>, i: int, e: int, kind: KindView) -> Lexed {
    Lexed::Token(TokenView { kind, lexeme: s.subrange(i, e) }, e)
}

/// The end of the numeral that starts at `i`: a run of digits, then a decimal
/// point and a second run of digits only where a digit follows the point.
pub open spec fn number_end(s: Seq<char>, i: int) -> int {
    let a = i + run_len(s, i, CharClass::Digit);
    if a + 1 < s.len() && s[a] == '.' && is_digit(s[a + 1]) {
        a + 1 + run_len(s, a + 1, CharClass::Digit)
    } else {
        a
    }
}

/// The end of the string body that starts after the quote at `i`.
pub open spec fn string_end(s: Seq<char>, i: int) -> int {
    i + 1 + run_len(s, i + 1, CharClass::StringBody)
}

/// What the scanner does at position `i` of `s`, where `0 <= i < s.len()`.
pub open spec fn lex_at(s: Seq<char>, i: int) -> Lexed {
    let c = s[i];
    let next_is = |d: char| i + 1 < s.len() && s[i + 1] == d;
    if single_punct(c) is Some {
        token_at(s, i, i + 1, KindView::Punct(single_punct(c)->0))
    } else if let Some((alone, with_equal)) = paired_punct(c) {
        if next_is('=') {
            token_at(s, i, i + 2, KindView::Punct(with_equal))
        } else {
            token_at(s, i, i + 1, KindView::Punct(alone))
        }
    } else if c == '/' {
        if next_is('/') {
            Lexed::Skip(i + run_len(s, i, CharClass::LineBody))
        } else {
            token_at(s, i, i + 1, KindView::Punct(Punct::Slash))
        }
    } else if is_blank(c) {
        Lexed::Skip(i + 1)
    } else if c == '"' {
        let e = string_end(s, i);
        if e < s.len() {
            let body = s.subrange(i + 1, e);
            Lexed::Token(TokenView { kind: KindView::String(body), lexeme: body }, e + 1)
        } else {
            Lexed::Unterminated
        }
    } else if is_digit(c) {
        let e = number_end(s, i);
        token_at(s, i, e, KindView::Number(s.subrange(i, e)))
    } else if is_word_start(c) {
        let e = i + run_len(s, i, CharClass::Word);
        token_at(s, i, e, word_kind(s.subrange(i, e)))
    } else {
        Lexed::Unexpected(c)
    }
}

/// The outcome of scanning: the tokens produced, the characters reported as
/// unexpected, and whether the scan reached the end of the input (it does not
/// when a string literal is left open). Tokens and reports are those made
/// before the scan stopped.
#[verifier::ext_equal]
pub struct Scan {
    pub tokens: Seq<TokenView>,
    pub unexpected: Seq<char>,
    pub complete: bool,
}

/// `r` preceded by the given tokens and reports.
pub open spec fn preceded(tokens: Seq<TokenView>, unexpected: Seq<char>, r: Scan) -> Scan {
    Scan { tokens: tokens + r.tokens, unexpected: unexpected + r.unexpected, complete: r.complete }
}

/// Scanning `s` from position `i` to its end.
pub open spec fn scan_from(s: Seq<char>, i: int) -> Scan
    decreases s.len() - i,
    via scan_from_decreases
{
    if i < 0 || i >= s.len() {
        Scan { tokens: seq![eof_view()], unexpected: Seq::empty(), complete: true }
    } else {
        match lex_at(s, i) {
            Lexed::Token(t, e) => preceded(seq![t], Seq::empty(), scan_from(s, e)),
            Lexed::Skip(e) => scan_from(s, e),
            Lexed::Unexpected(c) => preceded(Seq::empty(), seq![c], scan_from(s, i + 1)),
            Lexed::Unterminated => Scan {
                tokens: Seq::empty(),
                unexpected: Seq::empty(),
                complete: false,
            },
        }
    }
}

#[via_fn]
proof fn scan_from_decreases(s: Seq<char>, i: int) {
    if 0 <= i < s.len() {
        lemma_lex_advances(s, i);
    }
}

/// Scanning the whole of `s`.
pub open spec fn scan(s: Seq<char>) -> Scan {
    scan_from(s, 0)
}

/// A run never leaves the sequence.
pub proof fn lemma_run_len_bound(s: Seq<char>, i: int, class: CharClass)
    requires
        0 <= i <= s.len(),
    ensures
        i + run_len(s, i, class) <= s.len(),
    decreases s.len() - i,
{
    if i < s.len() {
        lemma_run_len_bound(s, i + 1, class);
    }
}

/// Every step moves forward and stays within the input.
pub proof fn lemma_lex_advances(s: Seq<char>, i: int)
    requires
        0 <= i < s.len(),
    ensures
        match lex_at(s, i) {
            Lexed::Token(_, e) => i < e <= s.len(),
            Lexed::Skip(e) => i < e <= s.len(),
            _ => true,
        },
{
    lemma_run_len_bound(s, i, CharClass::Digit);
    lemma_run_len_bound(s, i, CharClass::Word);
    lemma_run_len_bound(s, i, CharClass::LineBody);
    lemma_run_len_bound(s, i + 1, CharClass::StringBody);
    let a = i + run_len(s, i, CharClass::Digit);
    if a + 1 < s.len() {
        lemma_run_len_bound(s, a + 1, CharClass::Digit);
    }
}

/// Whether a token is the end-of-input token.
pub open spec fn is_eof(t: TokenView) -> bool {
    t.kind is Eof
}

/// The tokens of a completed scan end with the end-of-input token, and no
/// other token is one.
pub open spec fn ends_with_single_eof(tokens: Seq<TokenView>) -> bool {
    &&& tokens.len() > 0
    &&& tokens.last() == eof_view()
    &&& forall|j: int| 0 <= j < tokens.len() - 1 ==> !is_eof(#[trigger] tokens[j])
}

/// No step of the scan yields an end-of-input token.
pub proof fn lemma_lex_not_eof(s: Seq<char>, i: int)
    requires
        0 <= i < s.len(),
    ensures
        lex_at(s, i) matches Lexed::Token(t, _) ==> !is_eof(t),
{
}

/// Every completed scan from any position ends with exactly one
/// end-of-input token, in last place.
pub proof fn lemma_scan_from_ends_with_eof(s: Seq<char>, i: int)
    ensures
        scan_from(s, i).complete ==> ends_with_single_eof(scan_from(s, i).tokens),
    decreases s.len() - i,
{
    if 0 <= i < s.len() {
        lemma_lex_advances(s, i);
        lemma_lex_not_eof(s, i);
        match lex_at(s, i) {
            Lexed::Token(t, e) => {
                lemma_scan_from_ends_with_eof(s, e);
                let rest = scan_from(s, e).tokens;
                let all = seq![t] + rest;
                if scan_from(s, i).complete {
                    assert(all.last() == rest.last());
                    assert forall|j: int| 0 <= j < all.len() - 1 implies !is_eof(#[trigger] all[j]) by {
                        if j > 0 {
                            assert(all[j] == rest[j - 1]);
                        }
                    }
                }
            },
            Lexed::Skip(e) => {
                lemma_scan_from_ends_with_eof(s, e);
            },
            Lexed::Unexpected(_) => {
                lemma_scan_from_ends_with_eof(s, i + 1);
                assert(scan_from(s, i).tokens =~= scan_from(s, i + 1).tokens);
            },
            Lexed::Unterminated => {},
        }
    }
}

/// Whenever a scan reaches the end of its input, its last token is the
/// end-of-input token and it is the only one.
pub proof fn lemma_eof_last_and_only(s: Seq<char>)
    ensures
        scan(s).complete ==> ends_with_single_eof(scan(s).tokens),
{
    lemma_scan_from_ends_with_eof(s, 0);
}

} // verus!
