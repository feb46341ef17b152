use vstd::prelude::*;
use crate::token::{KindView, Keyword, Punct, Token, TokenKind, TokenView, push_char};

verus! {

/// The display name of a punctuation or operator kind.
pub open spec fn punct_name(p: Punct) -> Seq<char> {
    match p {
        Punct::LeftParen => "LEFT_PAREN"@,
        Punct::RightParen => "RIGHT_PAREN"@,
        Punct::LeftBrace => "LEFT_BRACE"@,
        Punct::RightBrace => "RIGHT_BRACE"@,
        Punct::Comma => "COMMA"@,
        Punct::Dot => "DOT"@,
        Punct::Minus => "MINUS"@,
        Punct::Plus => "PLUS"@,
        Punct::Star => "STAR"@,
        Punct::Slash => "SLASH"@,
        Punct::Semicolon => "SEMICOLON"@,
        Punct::Equal => "EQUAL"@,
        Punct::Bang => "BANG"@,
        Punct::GreaterThan => "GREATER"@,
        Punct::LessThan => "LESS"@,
        Punct::DoubleEqual => "EQUAL_EQUAL"@,
        Punct::BangEqual => "BANG_EQUAL"@,
        Punct::GreaterThanEqual => "GREATER_EQUAL"@,
        Punct::LessThanEqual => "LESS_EQUAL"@,
    }
}

/// The display name of a reserved word's kind.
pub open spec fn keyword_name(k: Keyword) -> Seq<char> {
    match k {
        Keyword::And => "AND"@,
        Keyword::Or => "OR"@,
        Keyword::If => "IF"@,
        Keyword::Else => "ELSE"@,
        Keyword::True => "TRUE"@,
        Keyword::False => "FALSE"@,
        Keyword::Nil => "NIL"@,
        Keyword::For => "FOR"@,
        Keyword::While => "WHILE"@,
        Keyword::Class => "CLASS"@,
        Keyword::Fun => "FUN"@,
        Keyword::Var => "VAR"@,
        Keyword::This => "THIS"@,
        Keyword::Super => "SUPER"@,
        Keyword::Print => "PRINT"@,
        Keyword::Return => "RETURN"@,
    }
}

/// The display name of a token kind.
pub open spec fn kind_name_of(k: KindView) -> Seq<char> {
    match k {
        KindView::Punct(p) => punct_name(p),
        KindView::Keyword(w) => keyword_name(w),
        KindView::Identifier => "IDENTIFIER"@,
        KindView::String(_) => "STRING"@,
        KindView::Number(_) => "NUMBER"@,
        KindView::Eof => "EOF"@,
    }
}

/// The lexeme as displayed: a string literal's between quotes.
pub open spec fn shown_lexeme(t: TokenView) -> Seq<char> {
    if t.kind is String {
        seq!['"'] + t.lexeme + seq!['"']
    } else {
        t.lexeme
    }
}

/// The literal as displayed: a string's text, the given rendering of a
/// number's value, and `null` for every other kind.
pub open spec fn literal_text(k: KindView, number_literal: Seq<char>) -> Seq<char> {
    match k {
        KindView::String(v) => v,
        KindView::Number(_) => number_literal,
        _ => "null"@,
    }
}

/// The line that shows a token: kind name, lexeme and literal, separated by
/// single spaces.
pub open spec fn line_of(t: TokenView, number_literal: Seq<char>) -> Seq<char> {
    kind_name_of(t.kind) + seq![' '] + shown_lexeme(t) + seq![' '] + literal_text(
        t.kind,
        number_literal,
    )
}

/// Lines joined by single newlines, with none after the last.
pub open spec fn joined(lines: Seq<Seq<char>>) -> Seq<char>
    decreases lines.len(),
{
    if lines.len() == 0 {
        Seq::empty()
    } else if lines.len() == 1 {
        lines[0]
    } else {
        joined(lines.drop_last()) + seq!['\n'] + lines.last()
    }
}

fn punct_name_str(p: Punct) -> (r: &'static str)
    ensures
        r@ == punct_name(p),
{
    match p {
        Punct::LeftParen => "LEFT_PAREN",
        Punct::RightParen => "RIGHT_PAREN",
        Punct::LeftBrace => "LEFT_BRACE",
        Punct::RightBrace => "RIGHT_BRACE",
        Punct::Comma => "COMMA",
        Punct::Dot => "DOT",
        Punct::Minus => "MINUS",
        Punct::Plus => "PLUS",
        Punct::Star => "STAR",
        Punct::Slash => "SLASH",
        Punct::Semicolon => "SEMICOLON",
        Punct::Equal => "EQUAL",
        Punct::Bang => "BANG",
        Punct::GreaterThan => "GREATER",
        Punct::LessThan => "LESS",
        Punct::DoubleEqual => "EQUAL_EQUAL",
        Punct::BangEqual => "BANG_EQUAL",
        Punct::GreaterThanEqual => "GREATER_EQUAL",
        Punct::LessThanEqual => "LESS_EQUAL",
    }
}

fn keyword_name_str(k: Keyword) -> (r: &'static str)
    ensures
        r@ == keyword_name(k),
{
    match k {
        Keyword::And => "AND",
        Keyword::Or => "OR",
        Keyword::If => "IF",
        Keyword::Else => "ELSE",
        Keyword::True => "TRUE",
        Keyword::False => "FALSE",
        Keyword::Nil => "NIL",
        Keyword::For => "FOR",
        Keyword::While => "WHILE",
        Keyword::Class => "CLASS",
        Keyword::Fun => "FUN",
        Keyword::Var => "VAR",
        Keyword::This => "THIS",
        Keyword::Super => "SUPER",
        Keyword::Print => "PRINT",
        Keyword::Return => "RETURN",
    }
}

/// The display name of a token kind (`LEFT_PAREN`, `AND`, `NUMBER`, ...).
pub fn kind_name(kind: &TokenKind) -> (r: &'static str)
    ensures
        r@ == kind_name_of(kind@),
{
    match kind {
        TokenKind::Punct(p) => punct_name_str(*p),
        TokenKind::Keyword(k) => keyword_name_str(*k),
        TokenKind::Identifier => "IDENTIFIER",
        TokenKind::String(_) => "STRING",
        TokenKind::Number(_) => "NUMBER",
        TokenKind::Eof => "EOF",
    }
}

/// Renders one token as `<KIND> <lexeme> <literal>`. A number's value is
/// shown as `number_literal`, which the caller renders.
pub fn token_line(token: &Token, number_literal: &str) -> (r: String)
    ensures
        r@ == line_of(token@, number_literal@),
{
    let mut r = String::from_str(kind_name(&token.kind));
    push_char(&mut r, ' ');
    match &token.kind {
        TokenKind::String(v) => {
            push_char(&mut r, '"');
            r.append(token.lexeme.as_str());
            push_char(&mut r, '"');
            push_char(&mut r, ' ');
            r.append(v.as_str());
        },
        TokenKind::Number(_) => {
            r.append(token.lexeme.as_str());
            push_char(&mut r, ' ');
            r.append(number_literal);
        },
        _ => {
            r.append(token.lexeme.as_str());
            push_char(&mut r, ' ');
            r.append("null");
        },
    }
    r
}

/// Joins rendered lines into one text, one line per entry.
pub fn join_lines(lines: &Vec<String>) -> (r: String)
    ensures
        r@ == joined(lines@.map_values(|l: String| l@)),
{
    let ghost views = lines@.map_values(|l: String| l@);
    let mut r = String::new();
    let mut j: usize = 0;
    while j < lines.len()
        invariant
            j <= lines@.len(),
            views == lines@.map_values(|l: String| l@),
            r@ == joined(views.take(j as int)),
        decreases lines@.len() - j,
    {
        if j > 0 {
            push_char(&mut r, '\n');
        }
        r.append(lines[j].as_str());
        proof {
            let next = views.take(j + 1);
            assert(next.drop_last() =~= views.take(j as int));
            if j == 0 {
                assert(r@ =~= next[0]);
            }
        }
        j = j + 1;
    }
    assert(views.take(lines@.len() as int) =~= views);
    r
}

} // verus!
