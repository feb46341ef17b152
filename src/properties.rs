use vstd::prelude::*;
use crate::lexical::{
    CharClass, Lexed, Scan, in_class, is_blank, is_digit, is_word_start, lemma_lex_advances,
    lemma_run_len_bound, lex_at, number_end, paired_punct, preceded, run_len, scan, scan_from,
    single_punct,
};
use crate::token::{KindView, Punct, TokenView, eof_view};

verus! {

/// The outcome of scanning text that holds no token.
pub open spec fn empty_scan() -> Scan {
    Scan { tokens: seq![eof_view()], unexpected: Seq::empty(), complete: true }
}

/// Whether `s` from position `i` on holds only whitespace, newlines and line
/// comments (`//` up to the end of the line).
pub open spec fn only_blank_from(s: Seq<char>, i: int) -> bool
    decreases s.len() - i,
    via only_blank_from_decreases
{
    if i < 0 || i >= s.len() {
        true
    } else if is_blank(s[i]) {
        only_blank_from(s, i + 1)
    } else if s[i] == '/' && i + 1 < s.len() && s[i + 1] == '/' {
        only_blank_from(s, i + 1 + run_len(s, i + 1, CharClass::LineBody))
    } else {
        false
    }
}

#[via_fn]
proof fn only_blank_from_decreases(s: Seq<char>, i: int) {
    if 0 <= i && i + 1 < s.len() {
        lemma_run_len_bound(s, i + 1, CharClass::LineBody);
    }
}

/// Text made only of whitespace, newlines and line comments scans to the
/// end-of-input token alone.
pub proof fn lemma_blank_text_scans_to_eof(s: Seq<char>)
    requires
        only_blank_from(s, 0),
    ensures
        scan(s) == empty_scan(),
{
    lemma_blank_from(s, 0);
}

proof fn lemma_blank_from(s: Seq<char>, i: int)
    requires
        only_blank_from(s, i),
    ensures
        scan_from(s, i) == empty_scan(),
    decreases s.len() - i,
{
    if 0 <= i < s.len() {
        if is_blank(s[i]) {
            lemma_blank_from(s, i + 1);
        } else {
            assert(run_len(s, i, CharClass::LineBody) == 1 + run_len(s, i + 1, CharClass::LineBody));
            lemma_run_len_bound(s, i + 1, CharClass::LineBody);
            lemma_blank_from(s, i + 1 + run_len(s, i + 1, CharClass::LineBody));
        }
    }
}

/// The text of a punctuation or operator token.
pub open spec fn punct_text(p: Punct) -> Seq<char> {
    match p {
        Punct::LeftParen => seq!['('],
        Punct::RightParen => seq![')'],
        Punct::LeftBrace => seq!['{'],
        Punct::RightBrace => seq!['}'],
        Punct::Comma => seq![','],
        Punct::Dot => seq!['.'],
        Punct::Minus => seq!['-'],
        Punct::Plus => seq!['+'],
        Punct::Star => seq!['*'],
        Punct::Slash => seq!['/'],
        Punct::Semicolon => seq![';'],
        Punct::Equal => seq!['='],
        Punct::Bang => seq!['!'],
        Punct::GreaterThan => seq!['>'],
        Punct::LessThan => seq!['<'],
        Punct::DoubleEqual => seq!['=', '='],
        Punct::BangEqual => seq!['!', '='],
        Punct::GreaterThanEqual => seq!['>', '='],
        Punct::LessThanEqual => seq!['<', '='],
    }
}

/// The text of any punctuation or operator scans back to that one token,
/// with the whole text as its lexeme, followed by the end-of-input token.
pub proof fn lemma_operator_round_trip(p: Punct)
    ensures
        scan(punct_text(p)) == (Scan {
            tokens: seq![TokenView { kind: KindView::Punct(p), lexeme: punct_text(p) }, eof_view()],
            unexpected: Seq::empty(),
            complete: true,
        }),
{
    let s = punct_text(p);
    let t = TokenView { kind: KindView::Punct(p), lexeme: s };
    assert(s.subrange(0, s.len() as int) =~= s);
    assert(lex_at(s, 0) == Lexed::Token(t, s.len() as int)) by {
        match p {
            Punct::Slash => {},
            _ => {},
        }
    }
    assert(scan_from(s, s.len() as int) == empty_scan());
    assert(scan(s) =~= (Scan { tokens: seq![t, eof_view()], unexpected: Seq::empty(), complete: true }));
}

/// A quote with no closing quote after it stops the scan.
pub proof fn lemma_open_quote_stops_scan(t: Seq<char>)
    requires
        forall|k: int| 0 <= k < t.len() ==> t[k] != '"',
    ensures
        !scan(seq!['"'] + t).complete,
{
    let s = seq!['"'] + t;
    lemma_run_reaches_end(s, 1, CharClass::StringBody);
    assert(lex_at(s, 0) == Lexed::Unterminated);
}

/// A run over characters all of its class reaches the end of the input.
proof fn lemma_run_reaches_end(s: Seq<char>, i: int, class: CharClass)
    requires
        0 <= i <= s.len(),
        forall|k: int| i <= k < s.len() ==> in_class(#[trigger] s[k], class),
    ensures
        i + run_len(s, i, class) == s.len(),
    decreases s.len() - i,
{
    if i < s.len() {
        lemma_run_reaches_end(s, i + 1, class);
    }
}

/// A step's outcome moved `n` positions to the right.
pub open spec fn shifted(l: Lexed, n: int) -> Lexed {
    match l {
        Lexed::Token(t, e) => Lexed::Token(t, e + n),
        Lexed::Skip(e) => Lexed::Skip(e + n),
        _ => l,
    }
}

proof fn lemma_run_len_shift(p: Seq<char>, t: Seq<char>, i: int, class: CharClass)
    requires
        0 <= i,
    ensures
        run_len(p + t, p.len() + i, class) == run_len(t, i, class),
    decreases t.len() - i,
{
    if i < t.len() {
        assert((p + t)[p.len() + i] == t[i]);
        lemma_run_len_shift(p, t, i + 1, class);
    }
}

/// The scanner never looks behind its position, so text in front of that
/// position does not change what it finds there.
proof fn lemma_lex_shift(p: Seq<char>, t: Seq<char>, i: int)
    requires
        0 <= i < t.len(),
    ensures
        lex_at(p + t, p.len() + i) == shifted(lex_at(t, i), p.len() as int),
{
    let u = p + t;
    let n = p.len() as int;
    assert forall|k: int| 0 <= k < t.len() implies u[n + k] == #[trigger] t[k] by {}
    assert forall|a: int, b: int| 0 <= a <= b <= t.len() implies u.subrange(n + a, n + b)
        =~= #[trigger] t.subrange(a, b) by {
        assert forall|k: int| 0 <= k < b - a implies u.subrange(n + a, n + b)[k] == t.subrange(a, b)[k] by {
            assert(u[n + a + k] == t[a + k]);
        }
    }
    lemma_run_len_shift(p, t, i, CharClass::Digit);
    lemma_run_len_shift(p, t, i, CharClass::Word);
    lemma_run_len_shift(p, t, i + 1, CharClass::LineBody);
    lemma_run_len_shift(p, t, i, CharClass::LineBody);
    lemma_run_len_shift(p, t, i + 1, CharClass::StringBody);
    lemma_run_len_bound(t, i, CharClass::Digit);
    lemma_run_len_bound(t, i, CharClass::Word);
    lemma_run_len_bound(t, i + 1, CharClass::StringBody);
    let a = i + run_len(t, i, CharClass::Digit);
    lemma_run_len_shift(p, t, a + 1, CharClass::Digit);
    if a + 1 < t.len() {
        lemma_run_len_bound(t, a + 1, CharClass::Digit);
    }
    if i + 1 < t.len() {
        assert(u[n + i + 1] == t[i + 1]);
    }
    if a + 1 < t.len() {
        assert(u[n + a] == t[a]);
        assert(u[n + a + 1] == t[a + 1]);
    }
}

proof fn lemma_scan_shift(p: Seq<char>, t: Seq<char>, i: int)
    requires
        0 <= i,
    ensures
        scan_from(p + t, p.len() + i) == scan_from(t, i),
    decreases t.len() - i,
{
    if i < t.len() {
        lemma_lex_shift(p, t, i);
        lemma_lex_advances(t, i);
        match lex_at(t, i) {
            Lexed::Token(_, e) => {
                lemma_scan_shift(p, t, e);
            },
            Lexed::Skip(e) => {
                lemma_scan_shift(p, t, e);
            },
            Lexed::Unexpected(_) => {
                lemma_scan_shift(p, t, i + 1);
            },
            Lexed::Unterminated => {},
        }
    }
}

/// A character that no scanning rule accepts.
pub open spec fn is_unsupported(c: char) -> bool {
    &&& single_punct(c) is None
    &&& paired_punct(c) is None
    &&& c != '/'
    &&& c != '"'
    &&& !is_blank(c)
    &&& !is_digit(c)
    &&& !is_word_start(c)
}

/// An unsupported character in front of any text is reported once and
/// otherwise leaves the scan of that text as it was.
pub proof fn lemma_unsupported_char_skipped(c: char, t: Seq<char>)
    requires
        is_unsupported(c),
    ensures
        scan(seq![c] + t) == preceded(Seq::empty(), seq![c], scan(t)),
{
    let s = seq![c] + t;
    assert(s[0] == c);
    assert(lex_at(s, 0) == Lexed::Unexpected(c));
    lemma_scan_shift(seq![c], t, 0);
}

/// Decimal digits with at most one inner decimal point, which has a digit on
/// each side.
pub open spec fn is_numeral(t: Seq<char>) -> bool {
    ||| (t.len() > 0 && forall|k: int| 0 <= k < t.len() ==> is_digit(#[trigger] t[k]))
    ||| exists|d: int|
        0 < d < t.len() - 1 && #[trigger] t[d] == '.' && forall|k: int|
            0 <= k < t.len() && k != d ==> is_digit(#[trigger] t[k])
}

/// A literal token carries its decoded value: a number its numeral, which is
/// also its lexeme; a string the text between its quotes, which holds no quote
/// and is also its lexeme.
pub open spec fn literal_well_formed(t: TokenView) -> bool {
    match t.kind {
        KindView::Number(n) => n == t.lexeme && is_numeral(n),
        KindView::String(v) => v == t.lexeme && forall|k: int| 0 <= k < v.len() ==> v[k] != '"',
        _ => true,
    }
}

proof fn lemma_run_in_class(s: Seq<char>, i: int, class: CharClass)
    requires
        0 <= i,
    ensures
        forall|k: int| i <= k < i + run_len(s, i, class) ==> in_class(#[trigger] s[k], class),
    decreases s.len() - i,
{
    if i < s.len() {
        lemma_run_in_class(s, i + 1, class);
    }
}

proof fn lemma_lex_literal_well_formed(s: Seq<char>, i: int)
    requires
        0 <= i < s.len(),
    ensures
        lex_at(s, i) matches Lexed::Token(t, _) ==> literal_well_formed(t),
{
    lemma_lex_advances(s, i);
    lemma_run_in_class(s, i + 1, CharClass::StringBody);
    lemma_run_in_class(s, i, CharClass::Digit);
    lemma_run_len_bound(s, i, CharClass::Digit);
    let a = i + run_len(s, i, CharClass::Digit);
    lemma_run_in_class(s, a + 1, CharClass::Digit);
    if is_digit(s[i]) && single_punct(s[i]) is None && paired_punct(s[i]) is None {
        let e = number_end(s, i);
        let n = s.subrange(i, e);
        assert(run_len(s, i, CharClass::Digit) > 0);
        if a + 1 < s.len() && s[a] == '.' && is_digit(s[a + 1]) {
            lemma_run_len_bound(s, a + 1, CharClass::Digit);
            assert(run_len(s, a + 1, CharClass::Digit) > 0);
            let d = a - i;
            assert(n[d] == '.');
            assert forall|k: int| 0 <= k < n.len() && k != d implies is_digit(#[trigger] n[k]) by {
                assert(n[k] == s[i + k]);
            }
        } else {
            assert forall|k: int| 0 <= k < n.len() implies is_digit(#[trigger] n[k]) by {
                assert(n[k] == s[i + k]);
            }
        }
    }
}

/// Every literal token that a scan yields is well formed.
pub proof fn lemma_literals_well_formed(s: Seq<char>)
    ensures
        forall|j: int|
            0 <= j < scan(s).tokens.len() ==> literal_well_formed(#[trigger] scan(s).tokens[j]),
{
    lemma_literals_well_formed_from(s, 0);
}

proof fn lemma_literals_well_formed_from(s: Seq<char>, i: int)
    ensures
        forall|j: int|
            0 <= j < scan_from(s, i).tokens.len() ==> literal_well_formed(
                #[trigger] scan_from(s, i).tokens[j],
            ),
    decreases s.len() - i,
{
    if 0 <= i < s.len() {
        lemma_lex_advances(s, i);
        lemma_lex_literal_well_formed(s, i);
        match lex_at(s, i) {
            Lexed::Token(t, e) => {
                lemma_literals_well_formed_from(s, e);
                let rest = scan_from(s, e).tokens;
                assert forall|j: int| 0 <= j < scan_from(s, i).tokens.len() implies literal_well_formed(
                    #[trigger] scan_from(s, i).tokens[j],
                ) by {
                    if j > 0 {
                        assert(scan_from(s, i).tokens[j] == rest[j - 1]);
                    } else {
                        assert(scan_from(s, i).tokens[j] == t);
                    }
                }
            },
            Lexed::Skip(e) => {
                lemma_literals_well_formed_from(s, e);
                assert(scan_from(s, i) == scan_from(s, e));
            },
            Lexed::Unexpected(_) => {
                lemma_literals_well_formed_from(s, i + 1);
                assert(scan_from(s, i).tokens =~= scan_from(s, i + 1).tokens);
            },
            Lexed::Unterminated => {},
        }
    }
}

} // verus!
