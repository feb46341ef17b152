use vstd::prelude::*;

verus! {

/// Punctuation and operator kinds.
#[derive(Clone, Copy, Debug, PartialEq, Eq, Structural)]
pub enum Punct {
    LeftParen,
    RightParen,
    LeftBrace,
    RightBrace,
    Comma,
    Dot,
    Minus,
    Plus,
    Star,
    Slash,
    Semicolon,
    Equal,
    Bang,
    GreaterThan,
    LessThan,
    DoubleEqual,
    BangEqual,
    GreaterThanEqual,
    LessThanEqual,
}

/// The sixteen reserved words.
#[derive(Clone, Copy, Debug, PartialEq, Eq, Structural)]
pub enum Keyword {
    And,
    Or,
    If,
    Else,
    True,
    False,
    Nil,
    For,
    While,
    Class,
    Fun,
    Var,
    This,
    Super,
    Print,
    Return,
}

/// The lexical category of a token. String and number literals carry their
/// decoded text: the characters between the quotes, or the digits (with at
/// most one inner decimal point) of the numeral.
#[derive(Clone, Debug, PartialEq, Eq)]
pub enum TokenKind {
    Punct(Punct),
    Keyword(Keyword),
    Identifier,
    String(String),
    Number(String),
    Eof,
}

/// A classified token and the text it was scanned from.
#[derive(Clone, Debug, PartialEq, Eq)]
pub struct Token {
    pub kind: TokenKind,
    pub lexeme: String,
}

/// The mathematical value of a [`TokenKind`].
pub enum KindView {
    Punct(Punct),
    Keyword(Keyword),
    Identifier,
    String(Seq<char>),
    Number(Seq<char>),
    Eof,
}

/// The mathematical value of a [`Token`].
pub struct TokenView {
    pub kind: KindView,
    pub lexeme: Seq<char>,
}

impl View for TokenKind {
    type V = KindView;

    open spec fn view(&self) -> KindView {
        match self {
            TokenKind::Punct(p) => KindView::Punct(*p),
            TokenKind::Keyword(k) => KindView::Keyword(*k),
            TokenKind::Identifier => KindView::Identifier,
            TokenKind::String(s) => KindView::String(s@),
            TokenKind::Number(n) => KindView::Number(n@),
            TokenKind::Eof => KindView::Eof,
        }
    }
}

impl View for Token {
    type V = TokenView;

    open spec fn view(&self) -> TokenView {
        TokenView { kind: self.kind@, lexeme: self.lexeme@ }
    }
}

/// The views of a sequence of tokens, in order.
pub open spec fn token_views(ts: Seq<Token>) -> Seq<TokenView> {
    ts.map_values(|t: Token| t@)
}

/// The end-of-input token: no text.
pub open spec fn eof_view() -> TokenView {
    TokenView { kind: KindView::Eof, lexeme: Seq::empty() }
}

/// The reserved word spelled exactly by `w`, if any.
pub open spec fn keyword_of(w: Seq<char>) -> Option<Keyword> {
    if w == seq!['a', 'n', 'd'] {
        Some(Keyword::And)
    } else if w == seq!['o', 'r'] {
        Some(Keyword::Or)
    } else if w == seq!['i', 'f'] {
        Some(Keyword::If)
    } else if w == seq!['e', 'l', 's', 'e'] {
        Some(Keyword::Else)
    } else if w == seq!['t', 'r', 'u', 'e'] {
        Some(Keyword::True)
    } else if w == seq!['f', 'a', 'l', 's', 'e'] {
        Some(Keyword::False)
    } else if w == seq!['n', 'i', 'l'] {
        Some(Keyword::Nil)
    } else if w == seq!['f', 'o', 'r'] {
        Some(Keyword::For)
    } else if w == seq!['w', 'h', 'i', 'l', 'e'] {
        Some(Keyword::While)
    } else if w == seq!['c', 'l', 'a', 's', 's'] {
        Some(Keyword::Class)
    } else if w == seq!['f', 'u', 'n'] {
        Some(Keyword::Fun)
    } else if w == seq!['v', 'a', 'r'] {
        Some(Keyword::Var)
    } else if w == seq!['t', 'h', 'i', 's'] {
        Some(Keyword::This)
    } else if w == seq!['s', 'u', 'p', 'e', 'r'] {
        Some(Keyword::Super)
    } else if w == seq!['p', 'r', 'i', 'n', 't'] {
        Some(Keyword::Print)
    } else if w == seq!['r', 'e', 't', 'u', 'r', 'n'] {
        Some(Keyword::Return)
    } else {
        None
    }
}

/// The kind of a scanned word: its reserved word, or an identifier.
pub open spec fn word_kind(w: Seq<char>) -> KindView {
    match keyword_of(w) {
        Some(k) => KindView::Keyword(k),
        None => KindView::Identifier,
    }
}

/// Whether `w[from..to]` spells exactly `k`.
fn spells(w: &[char], from: usize, to: usize, k: &[char]) -> (r: bool)
    requires
        from <= to <= w@.len(),
    ensures
        r == (w@.subrange(from as int, to as int) == k@),
{
    if to - from != k.len() {
        return false;
    }
    let mut j: usize = 0;
    while j < k.len()
        invariant
            to - from == k@.len(),
            from <= to <= w@.len(),
            j <= k@.len(),
            forall|m: int| 0 <= m < j ==> w@[from + m] == k@[m],
        decreases k@.len() - j,
    {
        if w[from + j] != k[j] {
            assert(w@.subrange(from as int, to as int)[j as int] != k@[j as int]);
            return false;
        }
        j = j + 1;
    }
    assert(w@.subrange(from as int, to as int) =~= k@);
    true
}

impl TokenKind {
    /// The kind of the word `w[from..to]`: the reserved word it spells
    /// exactly (case-sensitive, whole word), otherwise an identifier.
    pub fn for_word(w: &[char], from: usize, to: usize) -> (r: TokenKind)
        requires
            from <= to <= w@.len(),
        ensures
            r@ == word_kind(w@.subrange(from as int, to as int)),
    {
        if spells(w, from, to, &['a', 'n', 'd']) {
            TokenKind::Keyword(Keyword::And)
        } else if spells(w, from, to, &['o', 'r']) {
            TokenKind::Keyword(Keyword::Or)
        } else if spells(w, from, to, &['i', 'f']) {
            TokenKind::Keyword(Keyword::If)
        } else if spells(w, from, to, &['e', 'l', 's', 'e']) {
            TokenKind::Keyword(Keyword::Else)
        } else if spells(w, from, to, &['t', 'r', 'u', 'e']) {
            TokenKind::Keyword(Keyword::True)
        } else if spells(w, from, to, &['f', 'a', 'l', 's', 'e']) {
            TokenKind::Keyword(Keyword::False)
        } else if spells(w, from, to, &['n', 'i', 'l']) {
            TokenKind::Keyword(Keyword::Nil)
        } else if spells(w, from, to, &['f', 'o', 'r']) {
            TokenKind::Keyword(Keyword::For)
        } else if spells(w, from, to, &['w', 'h', 'i', 'l', 'e']) {
            TokenKind::Keyword(Keyword::While)
        } else if spells(w, from, to, &['c', 'l', 'a', 's', 's']) {
            TokenKind::Keyword(Keyword::Class)
        } else if spells(w, from, to, &['f', 'u', 'n']) {
            TokenKind::Keyword(Keyword::Fun)
        } else if spells(w, from, to, &['v', 'a', 'r']) {
            TokenKind::Keyword(Keyword::Var)
        } else if spells(w, from, to, &['t', 'h', 'i', 's']) {
            TokenKind::Keyword(Keyword::This)
        } else if spells(w, from, to, &['s', 'u', 'p', 'e', 'r']) {
            TokenKind::Keyword(Keyword::Super)
        } else if spells(w, from, to, &['p', 'r', 'i', 'n', 't']) {
            TokenKind::Keyword(Keyword::Print)
        } else if spells(w, from, to, &['r', 'e', 't', 'u', 'r', 'n']) {
            TokenKind::Keyword(Keyword::Return)
        } else {
            TokenKind::Identifier
        }
    }
}

/// Relies on `String::push`: appends one character.
#[verifier::external_body]
pub(crate) fn push_char(s: &mut String, c: char)
    ensures
        final(s)@ == old(s)@.push(c),
{
    s.push(c);
}

} // verus!
