use vstd::prelude::*;
use crate::text::{chars_of, push_range, string_of};
use crate::token::{
    is_digit, is_ident_char, is_ident_start, is_symbol, is_word_kind, is_ws, lexeme, symbol_text,
    tokens_wf, word_kind, LexError, LexErrorKind, Token, TokenKind, trivia, comment_at, gap_before,
    lexed_prefix, closed, comment_start, gap_closed,
};

verus! {

/// `src[pos]` cannot begin any token, whitespace or comment.
pub open spec fn unexpected_at(src: Seq<char>, pos: int) -> bool {
    let c = src[pos];
    !is_ws(c) && !is_ident_start(c) && !is_digit(c) && c != '"' && !is_symbol(c)
}

/// A string literal opens at `pos` and no closing quote follows on its line.
pub open spec fn unterminated_at(src: Seq<char>, pos: int) -> bool {
    &&& src[pos] == '"'
    &&& forall|j: int|
        pos < j < src.len() && #[trigger] src[j] == '"' ==> exists|m: int|
            pos < m < j && #[trigger] src[m] == '\n'
}

/// What a lexing error claims of the source: everything before it lexes,
/// and no token, whitespace or comment can start where it stands.
pub open spec fn lex_fault(src: Seq<char>, e: LexError) -> bool {
    &&& e.pos < src.len()
    &&& exists|toks: Seq<Token>| lexed_prefix(src, toks, e.pos as int)
    &&& fault_at(src, e)
}

/// No token, whitespace or comment can start where `e` stands.
pub open spec fn fault_at(src: Seq<char>, e: LexError) -> bool {
    &&& e.pos < src.len()
    &&& match e.kind {
        LexErrorKind::UnexpectedChar => unexpected_at(src, e.pos as int),
        LexErrorKind::UnterminatedString => unterminated_at(src, e.pos as int),
    }
}

/// The source with each token's raw text put back between the stretches that
/// precede it, starting at offset `from`.
pub open spec fn rebuild(src: Seq<char>, toks: Seq<Token>, from: int) -> Seq<char>
    decreases toks.len(),
{
    if toks.len() == 0 {
        src.subrange(from, src.len() as int)
    } else {
        src.subrange(from, toks[0].start as int) + toks[0].text@ + rebuild(
            src,
            toks.drop_first(),
            toks[0].end as int,
        )
    }
}

proof fn lemma_rebuild_from(src: Seq<char>, toks: Seq<Token>, from: int)
    requires
        0 <= from,
        toks.len() >= 1,
        from <= toks[0].start,
        toks.last().end == src.len(),
        forall|i: int|
            0 <= i < toks.len() ==> #[trigger] toks[i].start <= toks[i].end <= src.len()
                && toks[i].text@ == src.subrange(toks[i].start as int, toks[i].end as int),
        forall|i: int, j: int|
            #![trigger toks[i], toks[j]]
            0 <= i < j < toks.len() ==> toks[i].end <= toks[j].start,
    ensures
        rebuild(src, toks, from) == src.subrange(from, src.len() as int),
    decreases toks.len(),
{
    let t = toks[0];
    let rest = toks.drop_first();
    if toks.len() == 1 {
        assert(rest.len() == 0);
        assert(rebuild(src, rest, t.end as int) == src.subrange(t.end as int, src.len() as int));
    } else {
        assert forall|i: int, j: int|
            #![trigger rest[i], rest[j]]
            0 <= i < j < rest.len() implies rest[i].end <= rest[j].start by {
            assert(toks[i + 1] == rest[i] && toks[j + 1] == rest[j]);
        }
        assert forall|i: int| 0 <= i < rest.len() implies #[trigger] rest[i].start <= rest[i].end
            <= src.len() && rest[i].text@ == src.subrange(
            rest[i].start as int,
            rest[i].end as int,
        ) by {
            assert(toks[i + 1] == rest[i]);
        }
        assert(toks[0].end <= toks[1].start);
        lemma_rebuild_from(src, rest, t.end as int);
    }
    assert(rebuild(src, toks, from) =~= src.subrange(from, src.len() as int));
}

/// Tokenisation loses nothing: putting each token's raw text back between
/// the whitespace and comments that were skipped reproduces the source.
pub proof fn lemma_lossless(src: Seq<char>, toks: Seq<Token>)
    requires
        tokens_wf(src, toks),
    ensures
        rebuild(src, toks, 0) == src,
{
    let n = toks.len() - 1;
    assert(src.subrange(src.len() as int, src.len() as int) =~= toks[n].text@);
    assert forall|i: int| 0 <= i < toks.len() implies #[trigger] toks[i].start <= toks[i].end
        <= src.len() && toks[i].text@ == src.subrange(toks[i].start as int, toks[i].end as int) by {
        if i < n {
            assert(toks[i].start < toks[i].end);
        }
    }
    lemma_rebuild_from(src, toks, 0);
    assert(src.subrange(0, src.len() as int) =~= src);
}

/// Whether `src[s..e]` spells `lit`.
fn range_is(src: &Vec<char>, s: usize, e: usize, lit: &str) -> (r: bool)
    requires
        s <= e <= src@.len(),
    ensures
        r == (src@.subrange(s as int, e as int) == lit@),
{
    let n = lit.unicode_len();
    if e - s != n {
        return false;
    }
    let mut i: usize = 0;
    while i < n
        invariant
            n == lit@.len(),
            e - s == n,
            s <= e <= src@.len(),
            i <= n,
            forall|j: int| 0 <= j < i ==> src@[s + j] == lit@[j],
        decreases n - i,
    {
        if src[s + i] != lit.get_char(i) {
            assert(src@.subrange(s as int, e as int)[i as int] != lit@[i as int]);
            return false;
        }
        i = i + 1;
    }
    assert(src@.subrange(s as int, e as int) =~= lit@);
    true
}

fn word_kind_of(src: &Vec<char>, s: usize, e: usize) -> (k: TokenKind)
    requires
        s <= e <= src@.len(),
    ensures
        k == word_kind(src@.subrange(s as int, e as int)),
{
    if range_is(src, s, e, "fn") || range_is(src, s, e, "function") {
        TokenKind::KwFn
    } else if range_is(src, s, e, "let") {
        TokenKind::KwLet
    } else if range_is(src, s, e, "if") {
        TokenKind::KwIf
    } else if range_is(src, s, e, "else") {
        TokenKind::KwElse
    } else if range_is(src, s, e, "for") {
        TokenKind::KwFor
    } else if range_is(src, s, e, "return") {
        TokenKind::KwReturn
    } else if range_is(src, s, e, "print") {
        TokenKind::KwPrint
    } else if range_is(src, s, e, "println") {
        TokenKind::KwPrintln
    } else if range_is(src, s, e, "import") {
        TokenKind::KwImport
    } else if range_is(src, s, e, "public") {
        TokenKind::KwPublic
    } else if range_is(src, s, e, "true") || range_is(src, s, e, "false") {
        TokenKind::Bool
    } else {
        TokenKind::Ident
    }
}

/// The operator or punctuation lexeme that starts at `pos`, if any.
fn scan_symbol(src: &Vec<char>, pos: usize) -> (r: Option<(TokenKind, usize)>)
    requires
        pos < src@.len(),
        !(src@[pos as int] == '/' && pos + 1 < src@.len() && src@[pos + 1] == '/'),
    ensures
        r is Some <==> is_symbol(src@[pos as int]),
        r matches Some((k, e)) ==> lexeme(src@, pos as int, e as int, k) && !is_word_kind(k)
            && !(k is Int) && !(k is Str),
{
    reveal(lexeme);
    let c = src[pos];
    let next_eq = pos < src.len() - 1 && src[pos + 1] == '=';
    let (k, e): (TokenKind, usize) = if c == '=' {
        (TokenKind::Assign, pos + 1)
    } else if c == '+' {
        if next_eq { (TokenKind::AddAssign, pos + 2) } else { (TokenKind::Plus, pos + 1) }
    } else if c == '-' {
        if next_eq {
            (TokenKind::SubAssign, pos + 2)
        } else if pos < src.len() - 1 && src[pos + 1] == '>' {
            (TokenKind::Arrow, pos + 2)
        } else {
            (TokenKind::Minus, pos + 1)
        }
    } else if c == '*' {
        if next_eq { (TokenKind::MulAssign, pos + 2) } else { (TokenKind::Star, pos + 1) }
    } else if c == '/' {
        if next_eq { (TokenKind::DivAssign, pos + 2) } else { (TokenKind::Slash, pos + 1) }
    } else if c == '%' {
        if next_eq { (TokenKind::RemAssign, pos + 2) } else { (TokenKind::Percent, pos + 1) }
    } else if c == ':' {
        (TokenKind::Colon, pos + 1)
    } else if c == ';' {
        (TokenKind::Semi, pos + 1)
    } else if c == ',' {
        (TokenKind::Comma, pos + 1)
    } else if c == '(' {
        (TokenKind::LParen, pos + 1)
    } else if c == ')' {
        (TokenKind::RParen, pos + 1)
    } else if c == '{' {
        (TokenKind::LBrace, pos + 1)
    } else if c == '}' {
        (TokenKind::RBrace, pos + 1)
    } else {
        return None;
    };
    assert(src@.subrange(pos as int, e as int) =~= symbol_text(k));
    Some((k, e))
}

/// The token that starts at `pos`, which is not whitespace or a comment.
fn scan_token(src: &Vec<char>, pos: usize) -> (r: Result<(TokenKind, usize), LexError>)
    requires
        pos < src@.len(),
        !is_ws(src@[pos as int]),
        !(src@[pos as int] == '/' && pos + 1 < src@.len() && src@[pos + 1] == '/'),
    ensures
        r matches Ok((k, e)) ==> !(k is Eof) && pos < e <= src@.len() && lexeme(
            src@,
            pos as int,
            e as int,
            k,
        ),
        r matches Err(err) ==> err.pos == pos && fault_at(src@, err),
        r is Err ==> !is_ident_start(src@[pos as int]) && !is_digit(src@[pos as int]),
{
    reveal(lexeme);
    let n = src.len();
    let c = src[pos];
    if is_ident_start_char(c) {
        let mut e: usize = pos + 1;
        while e < n && is_ident_char_char(src[e])
            invariant
                pos < e <= n == src@.len(),
                forall|i: int| pos < i < e ==> is_ident_char(#[trigger] src@[i]),
            decreases n - e,
        {
            e = e + 1;
        }
        let k = word_kind_of(src, pos, e);
        Ok((k, e))
    } else if '0' <= c && c <= '9' {
        let mut e: usize = pos + 1;
        while e < n && '0' <= src[e] && src[e] <= '9'
            invariant
                pos < e <= n == src@.len(),
                forall|i: int| pos <= i < e ==> is_digit(#[trigger] src@[i]),
            decreases n - e,
        {
            e = e + 1;
        }
        Ok((TokenKind::Int, e))
    } else if c == '"' {
        let mut e: usize = pos + 1;
        while e < n && src[e] != '"' && src[e] != '\n'
            invariant
                pos < e <= n == src@.len(),
                src@[pos as int] == '"',
                forall|i: int| pos < i < e ==> #[trigger] src@[i] != '"' && src@[i] != '\n',
            decreases n - e,
        {
            e = e + 1;
        }
        if e < n && src[e] == '"' {
            Ok((TokenKind::Str, e + 1))
        } else {
            let err = LexError { kind: LexErrorKind::UnterminatedString, pos };
            assert forall|j: int|
                pos < j < src@.len() && #[trigger] src@[j] == '"' implies exists|m: int|
                pos < m < j && #[trigger] src@[m] == '\n' by {
                assert(src@[e as int] == '\n');
            }
            Err(err)
        }
    } else {
        match scan_symbol(src, pos) {
            Some((k, e)) => Ok((k, e)),
            None => Err(LexError { kind: LexErrorKind::UnexpectedChar, pos }),
        }
    }
}

fn is_ident_start_char(c: char) -> (r: bool)
    ensures
        r == is_ident_start(c),
{
    ('a' <= c && c <= 'z') || ('A' <= c && c <= 'Z') || c == '_'
}

fn is_ident_char_char(c: char) -> (r: bool)
    ensures
        r == is_ident_char(c),
{
    is_ident_start_char(c) || ('0' <= c && c <= '9')
}

fn is_ws_char(c: char) -> (r: bool)
    ensures
        r == is_ws(c),
{
    c == ' ' || c == '\t' || c == '\n' || c == '\r'
}

/// Splits `src` into tokens, skipping whitespace and `//` line comments.
pub fn lex_chars(src: &Vec<char>) -> (r: Result<Vec<Token>, LexError>)
    ensures
        r matches Ok(toks) ==> tokens_wf(src@, toks@),
        r matches Err(e) ==> lex_fault(src@, e),
{
    let n = src.len();
    let mut toks: Vec<Token> = Vec::new();
    let mut pos: usize = 0;
    let mut gap: usize = 0;
    while pos < n
        invariant
            n == src@.len(),
            gap <= pos <= n,
            gap == (if toks@.len() == 0 { 0 } else { toks@.last().end as int }),
            trivia(src@, gap as int, pos as int),
            forall|i: int| 0 <= i < toks@.len() ==> #[trigger] gap_before(src@, toks@, i),
            forall|i: int| 0 <= i < toks@.len() ==> #[trigger] gap_closed(src@, toks@, i),
            forall|q: int|
                gap <= q && q + 1 < pos && #[trigger] comment_start(src@, q) ==> pos == n || exists|
                    m: int,
                | q <= m <= pos && #[trigger] src@[m] == '\n',
            forall|i: int|
                0 <= i < toks@.len() ==> {
                    &&& !((#[trigger] toks@[i]).kind is Eof)
                    &&& toks@[i].start < toks@[i].end <= src@.len()
                    &&& lexeme(src@, toks@[i].start as int, toks@[i].end as int, toks@[i].kind)
                    &&& toks@[i].text@ == src@.subrange(
                        toks@[i].start as int,
                        toks@[i].end as int,
                    )
                    &&& toks@[i].end <= pos
                },
            forall|i: int, j: int|
                #![trigger toks@[i], toks@[j]]
                0 <= i < j < toks@.len() ==> toks@[i].end <= toks@[j].start,
        decreases n - pos,
    {
        let c = src[pos];
        if is_ws_char(c) {
            let ghost old_pos = pos as int;
            pos = pos + 1;
            assert forall|q: int|
                gap <= q && q + 1 < pos && #[trigger] comment_start(src@, q) implies pos == n
                || exists|m: int| q <= m <= pos && #[trigger] src@[m] == '\n' by {
                if q + 1 < old_pos {
                    let m = choose|m: int| q <= m <= old_pos && #[trigger] src@[m] == '\n';
                    assert(q <= m <= pos && src@[m] == '\n');
                }
            }
        } else if c == '/' && pos < n - 1 && src[pos + 1] == '/' {
            let mut e: usize = pos + 2;
            while e < n && src[e] != '\n'
                invariant
                    pos + 2 <= e <= n == src@.len(),
                    src@[pos as int] == '/',
                    src@[pos + 1] == '/',
                    forall|m: int| pos <= m < e ==> #[trigger] src@[m] != '\n',
                decreases n - e,
            {
                e = e + 1;
            }
            assert forall|i: int| gap <= i < e implies is_ws(#[trigger] src@[i]) || exists|q: int|
                gap <= q <= i && #[trigger] comment_at(src@, q, i) by {
                if i >= pos {
                    assert(comment_at(src@, pos as int, i));
                }
            }
            assert forall|q: int|
                gap <= q && q + 1 < e && #[trigger] comment_start(src@, q) implies e == n || exists|
                    m: int,
                | q <= m <= e && #[trigger] src@[m] == '\n' by {
                if e < n {
                    assert(src@[e as int] == '\n');
                }
            }
            pos = e;
        } else {
            assert(closed(src@, gap as int, pos as int)) by {
                assert forall|q: int|
                    gap <= q && q + 1 < pos && #[trigger] comment_start(src@, q) implies exists|
                        m: int,
                    | q <= m < pos && #[trigger] src@[m] == '\n' by {
                    let m = choose|m: int| q <= m <= pos && #[trigger] src@[m] == '\n';
                    assert(m != pos);
                }
            }
            let (kind, end) = match scan_token(src, pos) {
                Ok(p) => p,
                Err(e) => {
                    assert(lexed_prefix(src@, toks@, pos as int));
                    return Err(e);
                },
            };
            let mut buf: Vec<char> = Vec::new();
            push_range(&mut buf, src, pos, end);
            let tok = Token { kind, text: string_of(&buf), start: pos, end };
            let ghost prev = toks@;
            toks.push(tok);
            proof {
                assert forall|i: int| 0 <= i < toks@.len() implies #[trigger] gap_closed(
                    src@,
                    toks@,
                    i,
                ) by {
                    if i < prev.len() {
                        assert(gap_closed(src@, prev, i));
                        assert(prev[i] == toks@[i]);
                        if i > 0 {
                            assert(prev[i - 1] == toks@[i - 1]);
                        }
                    } else if i > 0 {
                        assert(prev[i - 1] == toks@[i - 1]);
                    }
                }
                assert forall|i: int| 0 <= i < toks@.len() implies #[trigger] gap_before(
                    src@,
                    toks@,
                    i,
                ) by {
                    if i < prev.len() {
                        assert(gap_before(src@, prev, i));
                        assert(prev[i] == toks@[i]);
                        if i > 0 {
                            assert(prev[i - 1] == toks@[i - 1]);
                        }
                    } else if i > 0 {
                        assert(prev[i - 1] == toks@[i - 1]);
                    }
                }
                assert forall|i: int, j: int|
                    #![trigger toks@[i], toks@[j]]
                    0 <= i < j < toks@.len() implies toks@[i].end <= toks@[j].start by {
                    assert(prev[i] == toks@[i]);
                    if j < prev.len() {
                        assert(prev[j] == toks@[j]);
                    }
                }
            }
            pos = end;
            gap = end;
        }
    }
    let ghost prev = toks@;
    toks.push(Token { kind: TokenKind::Eof, text: String::new(), start: n, end: n });
    proof {
        assert forall|i: int| 0 <= i < toks@.len() - 1 implies #[trigger] gap_closed(src@, toks@, i) by {
            assert(gap_closed(src@, prev, i));
            assert(prev[i] == toks@[i]);
            if i > 0 {
                assert(prev[i - 1] == toks@[i - 1]);
            }
        }
        assert forall|i: int| 0 <= i < toks@.len() implies #[trigger] gap_before(src@, toks@, i) by {
            if i < prev.len() {
                assert(gap_before(src@, prev, i));
                assert(prev[i] == toks@[i]);
                if i > 0 {
                    assert(prev[i - 1] == toks@[i - 1]);
                }
            } else if i > 0 {
                assert(prev[i - 1] == toks@[i - 1]);
            }
        }
    }
    Ok(toks)
}

/// Splits source text into tokens, skipping whitespace and `//` line
/// comments; see `lex_chars`.
pub fn lex(source: &str) -> (r: Result<Vec<Token>, LexError>)
    ensures
        r matches Ok(toks) ==> tokens_wf(source@, toks@),
        r matches Err(e) ==> lex_fault(source@, e),
{
    let src = chars_of(source);
    lex_chars(&src)
}

} // verus!
