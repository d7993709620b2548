use vstd::prelude::*;

verus! {

/// The class of a lexical unit.
#[derive(Clone, Copy, Debug, PartialEq, Eq, Structural, Hash)]
pub enum TokenKind {
    Ident,
    Int,
    Str,
    Bool,
    KwFn,
    KwLet,
    KwIf,
    KwElse,
    KwFor,
    KwReturn,
    KwPrint,
    KwPrintln,
    KwImport,
    KwPublic,
    Assign,
    AddAssign,
    SubAssign,
    MulAssign,
    DivAssign,
    RemAssign,
    Plus,
    Minus,
    Star,
    Slash,
    Percent,
    Arrow,
    Colon,
    Semi,
    Comma,
    LParen,
    RParen,
    LBrace,
    RBrace,
    Eof,
}

/// A classified lexical unit: its kind, its raw text, and the character
/// offsets `start..end` of that text in the source.
#[derive(Clone, Debug, PartialEq, Eq, Hash)]
pub struct Token {
    pub kind: TokenKind,
    pub text: String,
    pub start: usize,
    pub end: usize,
}

impl Token {
    /// A copy of this token.
    pub fn copied(&self) -> (r: Token)
        ensures
            r == *self,
    {
        Token { kind: self.kind, text: self.text.clone(), start: self.start, end: self.end }
    }
}

/// Why lexing stopped.
#[derive(Clone, Copy, Debug, PartialEq, Eq, Structural, Hash)]
pub enum LexErrorKind {
    UnexpectedChar,
    UnterminatedString,
}

/// A lexing failure at character offset `pos`.
#[derive(Clone, Copy, Debug, PartialEq, Eq, Structural, Hash)]
pub struct LexError {
    pub kind: LexErrorKind,
    pub pos: usize,
}

pub open spec fn is_ws(c: char) -> bool {
    c == ' ' || c == '\t' || c == '\n' || c == '\r'
}

pub open spec fn is_digit(c: char) -> bool {
    '0' <= c && c <= '9'
}

pub open spec fn is_ident_start(c: char) -> bool {
    ('a' <= c && c <= 'z') || ('A' <= c && c <= 'Z') || c == '_'
}

pub open spec fn is_ident_char(c: char) -> bool {
    is_ident_start(c) || is_digit(c)
}

/// The characters that begin an operator or a punctuation token.
pub open spec fn is_symbol(c: char) -> bool {
    c == '=' || c == '+' || c == '-' || c == '*' || c == '/' || c == '%' || c == ':' || c
        == ';' || c == ',' || c == '(' || c == ')' || c == '{' || c == '}'
}

/// The kind of a scanned word: a keyword, a boolean literal, or an identifier.
pub open spec fn word_kind(w: Seq<char>) -> TokenKind {
    if w == "fn"@ || w == "function"@ {
        TokenKind::KwFn
    } else if w == "let"@ {
        TokenKind::KwLet
    } else if w == "if"@ {
        TokenKind::KwIf
    } else if w == "else"@ {
        TokenKind::KwElse
    } else if w == "for"@ {
        TokenKind::KwFor
    } else if w == "return"@ {
        TokenKind::KwReturn
    } else if w == "print"@ {
        TokenKind::KwPrint
    } else if w == "println"@ {
        TokenKind::KwPrintln
    } else if w == "import"@ {
        TokenKind::KwImport
    } else if w == "public"@ {
        TokenKind::KwPublic
    } else if w == "true"@ || w == "false"@ {
        TokenKind::Bool
    } else {
        TokenKind::Ident
    }
}

pub open spec fn is_word_kind(k: TokenKind) -> bool {
    k is Ident || k is Bool || k is KwFn || k is KwLet || k is KwIf || k is KwElse
        || k is KwFor || k is KwReturn || k is KwPrint || k is KwPrintln || k is KwImport
        || k is KwPublic
}

/// The text of an operator or punctuation kind; empty for the other kinds.
pub open spec fn symbol_text(k: TokenKind) -> Seq<char> {
    match k {
        TokenKind::Assign => seq!['='],
        TokenKind::AddAssign => seq!['+', '='],
        TokenKind::SubAssign => seq!['-', '='],
        TokenKind::MulAssign => seq!['*', '='],
        TokenKind::DivAssign => seq!['/', '='],
        TokenKind::RemAssign => seq!['%', '='],
        TokenKind::Plus => seq!['+'],
        TokenKind::Minus => seq!['-'],
        TokenKind::Star => seq!['*'],
        TokenKind::Slash => seq!['/'],
        TokenKind::Percent => seq!['%'],
        TokenKind::Arrow => seq!['-', '>'],
        TokenKind::Colon => seq![':'],
        TokenKind::Semi => seq![';'],
        TokenKind::Comma => seq![','],
        TokenKind::LParen => seq!['('],
        TokenKind::RParen => seq![')'],
        TokenKind::LBrace => seq!['{'],
        TokenKind::RBrace => seq!['}'],
        _ => seq![],
    }
}

/// Whether a one-character operator of kind `k` followed by `c` would be the
/// start of a longer operator (or of a comment).
pub open spec fn extends(k: TokenKind, c: char) -> bool {
    match k {
        TokenKind::Plus | TokenKind::Star | TokenKind::Percent => c == '=',
        TokenKind::Minus => c == '=' || c == '>',
        TokenKind::Slash => c == '=' || c == '/',
        _ => false,
    }
}

/// `src[s..e]` is one maximal lexeme of kind `k`.
#[verifier::opaque]
pub open spec fn lexeme(src: Seq<char>, s: int, e: int, k: TokenKind) -> bool {
    &&& 0 <= s < e <= src.len()
    &&& if is_word_kind(k) {
        &&& is_ident_start(src[s])
        &&& forall|i: int| s < i < e ==> is_ident_char(#[trigger] src[i])
        &&& (e == src.len() || !is_ident_char(src[e]))
        &&& k == word_kind(src.subrange(s, e))
    } else if k is Int {
        &&& forall|i: int| s <= i < e ==> is_digit(#[trigger] src[i])
        &&& (e == src.len() || !is_digit(src[e]))
    } else if k is Str {
        &&& e - s >= 2
        &&& src[s] == '"'
        &&& src[e - 1] == '"'
        &&& forall|i: int| s < i < e - 1 ==> #[trigger] src[i] != '"' && src[i] != '\n'
    } else {
        &&& !(k is Eof)
        &&& src.subrange(s, e) == symbol_text(k)
        &&& (e == src.len() || !extends(k, src[e]))
    }
}

/// A `//` comment that starts at `q` runs on, without a line break, up to
/// and including `i`.
pub open spec fn comment_at(src: Seq<char>, q: int, i: int) -> bool {
    &&& 0 <= q
    &&& q + 1 < src.len()
    &&& src[q] == '/'
    &&& src[q + 1] == '/'
    &&& forall|m: int| q <= m <= i ==> #[trigger] src[m] != '\n'
}

/// Every character of `src[from..to]` is whitespace or part of a comment
/// that starts in that stretch.
pub open spec fn trivia(src: Seq<char>, from: int, to: int) -> bool {
    forall|i: int|
        from <= i < to ==> is_ws(#[trigger] src[i]) || exists|q: int|
            from <= q <= i && #[trigger] comment_at(src, q, i)
}

/// A `//` comment starts at `q`.
pub open spec fn comment_start(src: Seq<char>, q: int) -> bool {
    0 <= q && q + 1 < src.len() && src[q] == '/' && src[q + 1] == '/'
}

/// Every comment that starts in `src[from..to]` ends at a line break before
/// `to`: nothing after `to` belongs to it.
pub open spec fn closed(src: Seq<char>, from: int, to: int) -> bool {
    forall|q: int|
        from <= q && q + 1 < to && #[trigger] comment_start(src, q) ==> exists|m: int|
            q <= m < to && #[trigger] src[m] == '\n'
}

/// The comments skipped before token `i` all end before it.
pub open spec fn gap_closed(src: Seq<char>, toks: Seq<Token>, i: int) -> bool {
    closed(src, if i == 0 { 0 } else { toks[i - 1].end as int }, toks[i].start as int)
}

/// What the lexer skipped before token `i` is whitespace and comments.
pub open spec fn gap_before(src: Seq<char>, toks: Seq<Token>, i: int) -> bool {
    trivia(src, if i == 0 { 0 } else { toks[i - 1].end as int }, toks[i].start as int)
}

/// `toks` are the tokens of `src[..upto]`: each is one maximal lexeme and
/// holds the text it spans, they stand in source order, and whitespace and
/// comments alone lie between them and after the last.
pub open spec fn lexed_prefix(src: Seq<char>, toks: Seq<Token>, upto: int) -> bool {
    &&& forall|i: int|
        0 <= i < toks.len() ==> {
            &&& !((#[trigger] toks[i]).kind is Eof)
            &&& toks[i].start < toks[i].end <= upto
            &&& lexeme(src, toks[i].start as int, toks[i].end as int, toks[i].kind)
            &&& toks[i].text@ == src.subrange(toks[i].start as int, toks[i].end as int)
        }
    &&& forall|i: int, j: int|
        #![trigger toks[i], toks[j]]
        0 <= i < j < toks.len() ==> toks[i].end <= toks[j].start
    &&& forall|i: int| 0 <= i < toks.len() ==> #[trigger] gap_before(src, toks, i)
    &&& forall|i: int| 0 <= i < toks.len() ==> #[trigger] gap_closed(src, toks, i)
    &&& trivia(src, if toks.len() == 0 { 0 } else { toks.last().end as int }, upto)
    &&& closed(src, if toks.len() == 0 { 0 } else { toks.last().end as int }, upto)
}

/// A well-formed token sequence for `src`: in source order, each token's text
/// is the source text it spans and is one maximal lexeme of its kind, and one
/// end-of-input token with empty text closes the sequence at the end of the
/// source. What lies between the tokens is whitespace and comments, and
/// each comment ends at a line break before the next token.
pub open spec fn tokens_wf(src: Seq<char>, toks: Seq<Token>) -> bool {
    &&& toks.len() >= 1
    &&& toks.last().kind is Eof
    &&& toks.last().start == src.len()
    &&& toks.last().end == src.len()
    &&& toks.last().text@ == Seq::<char>::empty()
    &&& forall|i: int|
        0 <= i < toks.len() - 1 ==> {
            &&& !((#[trigger] toks[i]).kind is Eof)
            &&& toks[i].start < toks[i].end <= src.len()
            &&& lexeme(src, toks[i].start as int, toks[i].end as int, toks[i].kind)
            &&& toks[i].text@ == src.subrange(toks[i].start as int, toks[i].end as int)
        }
    &&& forall|i: int, j: int|
        #![trigger toks[i], toks[j]]
        0 <= i < j < toks.len() ==> toks[i].end <= toks[j].start
    &&& forall|i: int| 0 <= i < toks.len() ==> #[trigger] gap_before(src, toks, i)
    &&& forall|i: int| 0 <= i < toks.len() - 1 ==> #[trigger] gap_closed(src, toks, i)
}

} // verus!
