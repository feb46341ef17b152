use vstd::prelude::*;
use crate::lexical::{
    CharClass, Lexed, ends_with_single_eof, in_class, lemma_eof_last_and_only, lemma_lex_advances,
    lemma_run_len_bound, lex_at, number_end, paired_punct, preceded, run_len, scan, scan_from,
    single_punct,
};
use crate::token::{Punct, Token, TokenKind, eof_view, push_char, token_views};
use vstd::std_specs::iter::IteratorSpec;

verus! {

broadcast use vstd::string::group_string_axioms;

/// The fatal scanning error: the input ends inside a string literal.
#[derive(Clone, Copy, Debug, PartialEq, Eq, Structural)]
pub enum ScanError {
    UnterminatedString,
}

/// The characters of `source`, in order.
fn chars_of(source: &str) -> (r: Vec<char>)
    ensures
        r@ == source@,
{
    let mut it = source.chars();
    let mut out: Vec<char> = Vec::new();
    loop
        invariant
            out@ + it.remaining() == source@,
            it.decrease() is Some,
        decreases it.decrease()->0,
    {
        match it.next() {
            Some(c) => {
                out.push(c);
            },
            None => {
                return out;
            },
        }
    }
}

fn class_has(c: char, class: CharClass) -> (r: bool)
    ensures
        r == in_class(c, class),
{
    match class {
        CharClass::Digit => '0' <= c && c <= '9',
        CharClass::Word => ('a' <= c && c <= 'z') || ('A' <= c && c <= 'Z') || c == '_' || (
        '0' <= c && c <= '9'),
        CharClass::LineBody => c != '\n',
        CharClass::StringBody => c != '"',
    }
}

fn single_punct_of(c: char) -> (r: Option<Punct>)
    ensures
        r == single_punct(c),
{
    match c {
        '(' => Some(Punct::LeftParen),
        ')' => Some(Punct::RightParen),
        '{' => Some(Punct::LeftBrace),
        '}' => Some(Punct::RightBrace),
        ',' => Some(Punct::Comma),
        '.' => Some(Punct::Dot),
        '-' => Some(Punct::Minus),
        '+' => Some(Punct::Plus),
        '*' => Some(Punct::Star),
        ';' => Some(Punct::Semicolon),
        _ => None,
    }
}

fn paired_punct_of(c: char) -> (r: Option<(Punct, Punct)>)
    ensures
        r == paired_punct(c),
{
    match c {
        '!' => Some((Punct::Bang, Punct::BangEqual)),
        '=' => Some((Punct::Equal, Punct::DoubleEqual)),
        '<' => Some((Punct::LessThan, Punct::LessThanEqual)),
        '>' => Some((Punct::GreaterThan, Punct::GreaterThanEqual)),
        _ => None,
    }
}

/// One step of the scan, as the executable form of [`Lexed`].
enum Step {
    Token(Token, usize),
    Skip(usize),
    Unexpected(char),
    Unterminated,
}

impl View for Step {
    type V = Lexed;

    closed spec fn view(&self) -> Lexed {
        match self {
            Step::Token(t, e) => Lexed::Token(t@, *e as int),
            Step::Skip(e) => Lexed::Skip(*e as int),
            Step::Unexpected(c) => Lexed::Unexpected(*c),
            Step::Unterminated => Lexed::Unterminated,
        }
    }
}

/// A cursor over the characters of one source text.
pub struct Scanner {
    chars: Vec<char>,
    index: usize,
}

impl Scanner {
    /// The end of the run of `class` that starts at `i`.
    fn run_end(&self, i: usize, class: CharClass) -> (e: usize)
        requires
            i <= self.chars@.len(),
        ensures
            e == i + run_len(self.chars@, i as int, class),
    {
        let ghost s = self.chars@;
        let mut j = i;
        while j < self.chars.len() && class_has(self.chars[j], class)
            invariant
                i <= j <= s.len(),
                s == self.chars@,
                j + run_len(s, j as int, class) == i + run_len(s, i as int, class),
            decreases s.len() - j,
        {
            j = j + 1;
        }
        j
    }

    /// The characters `from..to` as a string.
    fn text(&self, from: usize, to: usize) -> (r: String)
        requires
            from <= to <= self.chars@.len(),
        ensures
            r@ == self.chars@.subrange(from as int, to as int),
    {
        let mut r = String::new();
        let mut j = from;
        while j < to
            invariant
                from <= j <= to <= self.chars@.len(),
                r@ == self.chars@.subrange(from as int, j as int),
            decreases to - j,
        {
            push_char(&mut r, self.chars[j]);
            assert(r@ =~= self.chars@.subrange(from as int, j + 1));
            j = j + 1;
        }
        r
    }

    /// The punctuation token `from..to`.
    fn punct(&self, p: Punct, from: usize, to: usize) -> (r: Step)
        requires
            from <= to <= self.chars@.len(),
        ensures
            r@ == crate::lexical::token_at(self.chars@, from as int, to as int, crate::token::KindView::Punct(p)),
    {
        Step::Token(Token { kind: TokenKind::Punct(p), lexeme: self.text(from, to) }, to)
    }

    /// What the scanner finds at position `i`.
    fn step(&self, i: usize) -> (r: Step)
        requires
            i < self.chars@.len(),
        ensures
            r@ == lex_at(self.chars@, i as int),
    {
        let ghost s = self.chars@;
        proof {
            lemma_lex_advances(s, i as int);
            lemma_run_len_bound(s, i as int, CharClass::Digit);
            lemma_run_len_bound(s, i as int + 1, CharClass::StringBody);
        }
        let n = self.chars.len();
        let c = self.chars[i];
        if let Some(p) = single_punct_of(c) {
            return self.punct(p, i, i + 1);
        }
        if let Some((alone, with_equal)) = paired_punct_of(c) {
            if i + 1 < n && self.chars[i + 1] == '=' {
                return self.punct(with_equal, i, i + 2);
            } else {
                return self.punct(alone, i, i + 1);
            }
        }
        if c == '/' {
            if i + 1 < n && self.chars[i + 1] == '/' {
                return Step::Skip(self.run_end(i, CharClass::LineBody));
            } else {
                return self.punct(Punct::Slash, i, i + 1);
            }
        }
        if c == ' ' || c == '\r' || c == '\t' || c == '\n' {
            return Step::Skip(i + 1);
        }
        if c == '"' {
            let e = self.run_end(i + 1, CharClass::StringBody);
            if e < n {
                let body = self.text(i + 1, e);
                let lexeme = body.clone();
                return Step::Token(Token { kind: TokenKind::String(body), lexeme }, e + 1);
            } else {
                return Step::Unterminated;
            }
        }
        if '0' <= c && c <= '9' {
            let a = self.run_end(i, CharClass::Digit);
            let mut e = a;
            if a < n && a + 1 < n && self.chars[a] == '.' && '0' <= self.chars[a + 1] && self.chars[a + 1]
                <= '9' {
                proof {
                    lemma_run_len_bound(s, a + 1, CharClass::Digit);
                }
                e = self.run_end(a + 1, CharClass::Digit);
            }
            assert(e == number_end(s, i as int));
            let digits = self.text(i, e);
            let lexeme = digits.clone();
            return Step::Token(Token { kind: TokenKind::Number(digits), lexeme }, e);
        }
        if ('a' <= c && c <= 'z') || ('A' <= c && c <= 'Z') || c == '_' {
            proof {
                lemma_run_len_bound(s, i as int, CharClass::Word);
            }
            let e = self.run_end(i, CharClass::Word);
            let kind = TokenKind::for_word(self.chars.as_slice(), i, e);
            return Step::Token(Token { kind, lexeme: self.text(i, e) }, e);
        }
        Step::Unexpected(c)
    }

    /// Scans `source` from start to end. Each character that no rule accepts
    /// is appended to `unexpected` and skipped; an input that ends inside a
    /// string literal stops the scan with an error.
    pub fn tokenize(source: &str, unexpected: &mut Vec<char>) -> (r: Result<Vec<Token>, ScanError>)
        ensures
            final(unexpected)@ == old(unexpected)@ + scan(source@).unexpected,
            r is Ok <==> scan(source@).complete,
            r matches Ok(v) ==> token_views(v@) == scan(source@).tokens,
            r matches Ok(v) ==> ends_with_single_eof(token_views(v@)),
            r matches Err(e) ==> e == ScanError::UnterminatedString,
    {
        let mut sc = Scanner { chars: chars_of(source), index: 0 };
        let ghost s = source@;
        let ghost reported: Seq<char> = Seq::empty();
        let mut tokens: Vec<Token> = Vec::new();
        while sc.index < sc.chars.len()
            invariant
                sc.chars@ == s,
                s == source@,
                sc.index <= s.len(),
                unexpected@ == old(unexpected)@ + reported,
                scan(s) == preceded(token_views(tokens@), reported, scan_from(s, sc.index as int)),
            decreases s.len() - sc.index,
        {
            let i = sc.index;
            proof {
                lemma_lex_advances(s, i as int);
            }
            let ghost before = token_views(tokens@);
            match sc.step(i) {
                Step::Token(t, e) => {
                    tokens.push(t);
                    assert(token_views(tokens@) =~= before.push(t@));
                    assert(scan_from(s, i as int) == preceded(seq![t@], Seq::empty(), scan_from(s, e as int)));
                    sc.index = e;
                },
                Step::Skip(e) => {
                    sc.index = e;
                },
                Step::Unexpected(c) => {
                    unexpected.push(c);
                    proof {
                        reported = reported.push(c);
                    }
                    sc.index = i + 1;
                    assert(scan_from(s, i as int) == preceded(Seq::empty(), seq![c], scan_from(s, i + 1)));
                },
                Step::Unterminated => {
                    return Err(ScanError::UnterminatedString);
                },
            }
            assert(scan(s) =~= preceded(token_views(tokens@), reported, scan_from(s, sc.index as int)));
        }
        let ghost before = token_views(tokens@);
        tokens.push(Token { kind: TokenKind::Eof, lexeme: String::new() });
        assert(token_views(tokens@) =~= before.push(eof_view()));
        assert(token_views(tokens@) =~= scan(s).tokens);
        proof {
            lemma_eof_last_and_only(s);
        }
        Ok(tokens)
    }
}

} // verus!
