use vstd::prelude::*;
use crate::ast::{ASTstatement, ASTtypecomp};
use crate::token::{Token, TokenKind};

verus! {

/// What the parser was looking for when it stopped.
#[derive(Clone, Copy, Debug, PartialEq, Eq, Structural, Hash)]
pub enum Expected {
    /// A token of this kind.
    Kind(TokenKind),
    /// The start of a statement.
    Statement,
    /// A value: an identifier or a literal.
    Value,
    /// One of `=`, `+=`, `-=`, `*=`, `/=`, `%=`.
    AssignOp,
    /// An `if` or `else if` just before this `else`.
    PrecedingIf,
}

/// A parse failure at token index `at`, where `found` stood.
#[derive(Clone, Copy, Debug, PartialEq, Eq, Structural, Hash)]
pub struct ParseError {
    pub at: usize,
    pub expected: Expected,
    pub found: TokenKind,
}

/// The kind of the token at `pos`; past the end, end of input.
pub open spec fn kind_at(toks: Seq<Token>, pos: int) -> TokenKind {
    if 0 <= pos < toks.len() {
        toks[pos].kind
    } else {
        TokenKind::Eof
    }
}

/// An identifier or a literal.
pub open spec fn is_value_kind(k: TokenKind) -> bool {
    k is Ident || k is Int || k is Str || k is Bool
}

/// The statement continues an `if` chain.
pub open spec fn continues_chain(s: ASTstatement) -> bool {
    s is ElseIf || s is Else
}

/// An `else if` or `else` may follow this statement.
pub open spec fn opens_chain(s: ASTstatement) -> bool {
    s is If || s is ElseIf
}

/// Every value is an identifier or a literal, every target an identifier,
/// and every nested block is well formed.
pub open spec fn stmt_wf(s: ASTstatement) -> bool
    decreases s,
{
    match s {
        ASTstatement::Import { .. } => true,
        ASTstatement::Function { statements, .. } => block_wf(statements@),
        ASTstatement::Let { value, .. } => is_value_kind(value.kind),
        ASTstatement::Assign { l_var, r_var } => l_var.kind is Ident && is_value_kind(r_var.kind),
        ASTstatement::AddAssign { l_var, r_var } => l_var.kind is Ident && is_value_kind(
            r_var.kind,
        ),
        ASTstatement::SubAssign { l_var, r_var } => l_var.kind is Ident && is_value_kind(
            r_var.kind,
        ),
        ASTstatement::MulAssign { l_var, r_var } => l_var.kind is Ident && is_value_kind(
            r_var.kind,
        ),
        ASTstatement::DivAssign { l_var, r_var } => l_var.kind is Ident && is_value_kind(
            r_var.kind,
        ),
        ASTstatement::RemAssign { l_var, r_var } => l_var.kind is Ident && is_value_kind(
            r_var.kind,
        ),
        ASTstatement::If { condition, statements } => is_value_kind(condition.kind) && block_wf(
            statements@,
        ),
        ASTstatement::ElseIf { condition, statements } => is_value_kind(condition.kind)
            && block_wf(statements@),
        ASTstatement::Else { statements } => block_wf(statements@),
        ASTstatement::For { start, end, value, statements } => is_value_kind(start.kind)
            && is_value_kind(end.kind) && value.kind is Ident && block_wf(statements@),
        ASTstatement::Print { value } => is_value_kind(value.kind),
        ASTstatement::Println { value } => is_value_kind(value.kind),
        ASTstatement::Return { value } => is_value_kind(value.kind),
    }
}

/// A well-formed statement sequence: each statement is well formed, and an
/// `else if` or `else` comes only right after an `if` or an `else if`.
pub open spec fn block_wf(v: Seq<ASTstatement>) -> bool
    decreases v,
{
    if v.len() == 0 {
        true
    } else {
        &&& block_wf(v.drop_last())
        &&& stmt_wf(v.last())
        &&& continues_chain(v.last()) ==> v.len() >= 2 && opens_chain(v[v.len() - 2])
    }
}

/// `l op r` stands at `pos`.
pub open spec fn assign_at(toks: Seq<Token>, pos: int, op: TokenKind, l: Token, r: Token) -> bool {
    &&& kind_at(toks, pos + 1) == op
    &&& l == toks[pos]
    &&& r == toks[pos + 2]
}

/// `s` is the construct that the tokens at `pos` begin: its kind is the one
/// that its first tokens select, and its names and values are the tokens
/// that stand where the grammar puts them.
pub open spec fn begins(toks: Seq<Token>, pos: int, s: ASTstatement) -> bool {
    let k = kind_at(toks, pos);
    match s {
        ASTstatement::Import { name } => k is KwImport && name@ == toks[pos + 1].text@,
        ASTstatement::Function { public, name, .. } => if public {
            k is KwPublic && kind_at(toks, pos + 1) is KwFn && name@ == toks[pos + 2].text@
        } else {
            k is KwFn && name@ == toks[pos + 1].text@
        },
        ASTstatement::Let { name, ty, value } => k is KwLet && name@ == toks[pos + 1].text@
            && match ty {
            Some(t) => t@ == toks[pos + 3].text@ && value == toks[pos + 5],
            None => value == toks[pos + 3],
        },
        ASTstatement::Assign { l_var, r_var } => assign_at(toks, pos, TokenKind::Assign, l_var, r_var),
        ASTstatement::AddAssign { l_var, r_var } => assign_at(
            toks,
            pos,
            TokenKind::AddAssign,
            l_var,
            r_var,
        ),
        ASTstatement::SubAssign { l_var, r_var } => assign_at(
            toks,
            pos,
            TokenKind::SubAssign,
            l_var,
            r_var,
        ),
        ASTstatement::MulAssign { l_var, r_var } => assign_at(
            toks,
            pos,
            TokenKind::MulAssign,
            l_var,
            r_var,
        ),
        ASTstatement::DivAssign { l_var, r_var } => assign_at(
            toks,
            pos,
            TokenKind::DivAssign,
            l_var,
            r_var,
        ),
        ASTstatement::RemAssign { l_var, r_var } => assign_at(
            toks,
            pos,
            TokenKind::RemAssign,
            l_var,
            r_var,
        ),
        ASTstatement::If { condition, .. } => k is KwIf && condition == toks[pos + 1],
        ASTstatement::ElseIf { condition, .. } => k is KwElse && kind_at(toks, pos + 1) is KwIf
            && condition == toks[pos + 2],
        ASTstatement::Else { .. } => k is KwElse && !(kind_at(toks, pos + 1) is KwIf),
        ASTstatement::For { start, end, value, .. } => k is KwFor && start == toks[pos + 1] && end
            == toks[pos + 2] && value == toks[pos + 3],
        ASTstatement::Print { value } => k is KwPrint && value == toks[pos + 1],
        ASTstatement::Println { value } => k is KwPrintln && value == toks[pos + 1],
        ASTstatement::Return { value } => k is KwReturn && value == toks[pos + 1],
    }
}

/// Statement `s`, which begins at `pos`, ends just before `q`: a simple
/// statement after its value or name and an optional `;`, one with a body
/// after its closing brace.
pub open spec fn ends(toks: Seq<Token>, pos: int, s: ASTstatement, q: int) -> bool
    decreases s, 2int,
{
    match s {
        ASTstatement::Import { .. } => q == simple_end(toks, pos + 2),
        ASTstatement::Let { ty, .. } => q == simple_end(
            toks,
            if ty is Some {
                pos + 6
            } else {
                pos + 4
            },
        ),
        ASTstatement::Assign { .. } | ASTstatement::AddAssign { .. } | ASTstatement::SubAssign {
            ..
        } | ASTstatement::MulAssign { .. } | ASTstatement::DivAssign { .. }
        | ASTstatement::RemAssign { .. } => q == simple_end(toks, pos + 3),
        ASTstatement::Print { .. } | ASTstatement::Println { .. } | ASTstatement::Return {
            ..
        } => q == simple_end(toks, pos + 2),
        ASTstatement::If { statements, .. } => block_at(toks, pos + 2, statements@, q),
        ASTstatement::ElseIf { statements, .. } => block_at(toks, pos + 3, statements@, q),
        ASTstatement::Else { statements } => block_at(toks, pos + 1, statements@, q),
        ASTstatement::For { statements, .. } => block_at(toks, pos + 4, statements@, q),
        ASTstatement::Function { .. } => kind_at(toks, q - 1) is RBrace,
    }
}

/// `{ body }` stands at `p..q`, its statements following one another
/// between the braces.
pub open spec fn block_at(toks: Seq<Token>, p: int, body: Seq<ASTstatement>, q: int) -> bool
    decreases body, 1int,
{
    &&& kind_at(toks, p) is LBrace
    &&& exists|ps: Seq<int>|
        tiles(toks, body, ps) && ps[0] == p + 1 && kind_at(toks, ps.last()) is RBrace && q
            == ps.last() + 1
}

/// `v` are statements that follow one another in the tokens: statement `k`
/// begins at `ps[k]` and ends just before `ps[k + 1]`, where the next one
/// begins.
pub open spec fn tiles(toks: Seq<Token>, v: Seq<ASTstatement>, ps: Seq<int>) -> bool
    decreases v, 0int,
{
    &&& ps.len() == v.len() + 1
    &&& v.len() > 0 ==> {
        &&& tiles(toks, v.drop_last(), ps.drop_last())
        &&& ps[v.len() - 1] < ps[v.len() as int]
        &&& begins(toks, ps[v.len() - 1], v.last())
        &&& ends(toks, ps[v.len() - 1], v.last(), ps[v.len() as int])
    }
}

/// `v` is a parse of the whole token sequence: well-formed statements that
/// follow one another from the first token up to the end of input.
pub open spec fn parses(toks: Seq<Token>, v: Seq<ASTstatement>) -> bool {
    &&& block_wf(v)
    &&& exists|ps: Seq<int>|
        tiles(toks, v, ps) && ps[0] == 0 && kind_at(toks, ps.last()) == TokenKind::Eof
}

/// What a parse error claims of the tokens.
pub open spec fn parse_fault(toks: Seq<Token>, e: ParseError) -> bool {
    &&& e.found == kind_at(toks, e.at as int)
    &&& (e.expected matches Expected::Kind(k) ==> k != e.found)
    &&& (e.expected is Value ==> !is_value_kind(e.found))
    &&& (e.expected is Statement ==> !starts_statement(e.found))
    &&& (e.expected is AssignOp ==> !is_assign_op(e.found))
    &&& (e.expected is PrecedingIf ==> e.found is KwElse)
}

/// A token of this kind can begin a statement.
pub open spec fn starts_statement(k: TokenKind) -> bool {
    k is KwImport || k is KwPublic || k is KwFn || k is KwLet || k is Ident || k is KwIf
        || k is KwElse || k is KwFor || k is KwPrint || k is KwPrintln || k is KwReturn
}

pub open spec fn is_assign_op(k: TokenKind) -> bool {
    k is Assign || k is AddAssign || k is SubAssign || k is MulAssign || k is DivAssign
        || k is RemAssign
}

fn kind_of(toks: &Vec<Token>, pos: usize) -> (k: TokenKind)
    ensures
        k == kind_at(toks@, pos as int),
        !(k is Eof) ==> pos < toks@.len(),
        toks@.len() <= usize::MAX,
{
    let _n = toks.len();
    if pos < toks.len() {
        toks[pos].kind
    } else {
        TokenKind::Eof
    }
}

fn fail(toks: &Vec<Token>, at: usize, expected: Expected) -> (e: ParseError)
    ensures
        e.at == at,
        e.expected == expected,
        e.found == kind_at(toks@, at as int),
{
    ParseError { at, expected, found: kind_of(toks, at) }
}

/// Consumes one token of kind `k` at `pos`.
fn expect(toks: &Vec<Token>, pos: usize, k: TokenKind) -> (r: Result<usize, ParseError>)
    requires
        !(k is Eof),
    ensures
        r matches Ok(q) ==> q == pos + 1 && pos < toks@.len() && toks@[pos as int].kind == k,
        toks@.len() <= usize::MAX,
        r is Ok <==> kind_at(toks@, pos as int) == k,
        r matches Err(e) ==> parse_fault(toks@, e),
{
    if kind_of(toks, pos) == k {
        Ok(pos + 1)
    } else {
        Err(fail(toks, pos, Expected::Kind(k)))
    }
}

/// Where a statement that may end with `;` ends, its last other token
/// standing just before `pos`.
pub open spec fn simple_end(toks: Seq<Token>, pos: int) -> int {
    if kind_at(toks, pos) is Semi {
        pos + 1
    } else {
        pos
    }
}

/// Where the statement ends whose last token other than an optional `;`
/// stands just before `pos`.
fn statement_end(toks: &Vec<Token>, pos: usize) -> (q: usize)
    requires
        pos <= toks@.len(),
    ensures
        q == simple_end(toks@, pos as int),
        q <= toks@.len(),
{
    if kind_of(toks, pos) == TokenKind::Semi {
        pos + 1
    } else {
        pos
    }
}

/// The token at `pos`, which must be of kind `k`.
fn take(toks: &Vec<Token>, pos: usize, k: TokenKind) -> (r: Result<Token, ParseError>)
    requires
        !(k is Eof),
    ensures
        r matches Ok(t) ==> pos < toks@.len() && t == toks@[pos as int] && t.kind == k,
        toks@.len() <= usize::MAX,
        r matches Err(e) ==> parse_fault(toks@, e),
{
    expect(toks, pos, k)?;
    Ok(toks[pos].copied())
}

/// The value token at `pos`.
fn take_value(toks: &Vec<Token>, pos: usize) -> (r: Result<Token, ParseError>)
    ensures
        r matches Ok(t) ==> pos < toks@.len() && t == toks@[pos as int] && is_value_kind(t.kind),
        toks@.len() <= usize::MAX,
        r matches Err(e) ==> parse_fault(toks@, e),
{
    let k = kind_of(toks, pos);
    if pos < toks.len() && (k == TokenKind::Ident || k == TokenKind::Int || k == TokenKind::Str
        || k == TokenKind::Bool) {
        Ok(toks[pos].copied())
    } else {
        Err(fail(toks, pos, Expected::Value))
    }
}

/// `{ statements }` starting at `pos`.
fn parse_block(toks: &Vec<Token>, pos: usize) -> (r: Result<(Vec<ASTstatement>, usize), ParseError>)
    ensures
        r matches Ok((v, q)) ==> pos < q <= toks@.len() && block_wf(v@) && kind_at(toks@, q - 1) is RBrace,
        r matches Ok((v, q)) ==> block_at(toks@, pos as int, v@, q as int),
        r matches Err(e) ==> parse_fault(toks@, e),
    decreases toks@.len() - pos, 3int,
{
    let p = expect(toks, pos, TokenKind::LBrace)?;
    let (v, q) = parse_sequence(toks, p, true)?;
    proof {
        let ps = choose|ps: Seq<int>|
            tiles(toks@, v@, ps) && ps[0] == p && ps.last() == q - 1 && kind_at(toks@, ps.last())
                == TokenKind::RBrace;
        assert(tiles(toks@, v@, ps));
    }
    Ok((v, q))
}

/// Statements from `pos` up to a closing brace (consumed) when `nested`, or
/// up to the end of input otherwise.
fn parse_sequence(toks: &Vec<Token>, pos: usize, nested: bool) -> (r: Result<
    (Vec<ASTstatement>, usize),
    ParseError,
>)
    requires
        pos <= toks@.len(),
    ensures
        r matches Ok((v, q)) ==> pos <= q <= toks@.len() && block_wf(v@) && (nested ==> pos < q
            && kind_at(toks@, q - 1) is RBrace),
        r matches Ok((v, q)) ==> exists|ps: Seq<int>|
            tiles(toks@, v@, ps) && ps[0] == pos && ps.last() == (if nested {
                q - 1
            } else {
                q as int
            }) && kind_at(toks@, ps.last()) == (if nested {
                TokenKind::RBrace
            } else {
                TokenKind::Eof
            }),
        r matches Err(e) ==> parse_fault(toks@, e),
    decreases toks@.len() - pos, 2int,
{
    let mut out: Vec<ASTstatement> = Vec::new();
    let mut p: usize = pos;
    let ghost mut ps: Seq<int> = seq![pos as int];
    loop
        invariant
            pos <= p <= toks@.len(),
            block_wf(out@),
            tiles(toks@, out@, ps),
            ps[0] == pos,
            ps.last() == p,
        decreases toks@.len() - p,
    {
        let k = kind_of(toks, p);
        if k == TokenKind::Eof {
            if nested {
                return Err(fail(toks, p, Expected::Kind(TokenKind::RBrace)));
            }
            assert(tiles(toks@, out@, ps) && ps[0] == pos && kind_at(toks@, ps.last()) is Eof && p
                == ps.last());
            return Ok((out, p));
        }
        if k == TokenKind::RBrace {
            if nested {
                assert(tiles(toks@, out@, ps) && ps[0] == pos && kind_at(toks@, ps.last()) is RBrace
                    && p + 1 == ps.last() + 1);
                return Ok((out, p + 1));
            }
            return Err(fail(toks, p, Expected::Statement));
        }
        let (s, q) = parse_statement(toks, p)?;
        let is_cont = match &s {
            ASTstatement::ElseIf { .. } | ASTstatement::Else { .. } => true,
            _ => false,
        };
        if is_cont {
            let n = out.len();
            let ok = n > 0 && match &out[n - 1] {
                ASTstatement::If { .. } | ASTstatement::ElseIf { .. } => true,
                _ => false,
            };
            if !ok {
                return Err(fail(toks, p, Expected::PrecedingIf));
            }
        }
        let ghost prev = out@;
        let ghost prev_ps = ps;
        out.push(s);
        proof {
            ps = ps.push(q as int);
            assert(out@.drop_last() =~= prev);
            assert(ps.drop_last() =~= prev_ps);
            assert(tiles(toks@, out@, ps));
        }
        p = q;
    }
}

/// The parameters `name : type, ...` up to the closing parenthesis
/// (consumed).
fn parse_params(toks: &Vec<Token>, pos: usize) -> (r: Result<(Vec<ASTtypecomp>, usize), ParseError>)
    requires
        pos <= toks@.len(),
    ensures
        r matches Ok((v, q)) ==> pos < q <= toks@.len(),
        r matches Err(e) ==> parse_fault(toks@, e),
{
    let mut args: Vec<ASTtypecomp> = Vec::new();
    let mut p: usize = pos;
    if kind_of(toks, p) == TokenKind::RParen {
        return Ok((args, p + 1));
    }
    loop
        invariant
            pos <= p <= toks@.len(),
        decreases toks@.len() - p,
    {
        let name = take(toks, p, TokenKind::Ident)?;
        let p1 = expect(toks, p + 1, TokenKind::Colon)?;
        let ty = take(toks, p1, TokenKind::Ident)?;
        args.push(ASTtypecomp { name: name.text, ty: ty.text });
        let p2 = p1 + 1;
        if kind_of(toks, p2) == TokenKind::Comma {
            p = p2 + 1;
        } else {
            let q = expect(toks, p2, TokenKind::RParen)?;
            return Ok((args, q));
        }
    }
}

/// `[public] fn name(params) -> type { statements }` starting at `pos`.
fn parse_function(toks: &Vec<Token>, pos: usize) -> (r: Result<(ASTstatement, usize), ParseError>)
    ensures
        r matches Ok((s, q)) ==> pos < q <= toks@.len() && stmt_wf(s) && begins(toks@, pos as int, s)
            && ends(toks@, pos as int, s, q as int),
        r matches Err(e) ==> parse_fault(toks@, e),
    decreases toks@.len() - pos, 0int,
{
    let public = kind_of(toks, pos) == TokenKind::KwPublic;
    let p0 = if public { pos + 1 } else { pos };
    let p1 = expect(toks, p0, TokenKind::KwFn)?;
    let name = take(toks, p1, TokenKind::Ident)?;
    let p2 = expect(toks, p1 + 1, TokenKind::LParen)?;
    let (args, p3) = parse_params(toks, p2)?;
    let p4 = expect(toks, p3, TokenKind::Arrow)?;
    let ret = take(toks, p4, TokenKind::Ident)?;
    let (statements, q) = parse_block(toks, p4 + 1)?;
    Ok((ASTstatement::Function { public, name: name.text, args, statements, return_type: ret.text }, q))
}

/// `l op r;` starting at `pos`.
fn parse_assign(toks: &Vec<Token>, pos: usize) -> (r: Result<(ASTstatement, usize), ParseError>)
    ensures
        r matches Ok((s, q)) ==> pos < q <= toks@.len() && stmt_wf(s) && begins(toks@, pos as int, s)
            && ends(toks@, pos as int, s, q as int),
        r matches Err(e) ==> parse_fault(toks@, e),
{
    let l_var = take(toks, pos, TokenKind::Ident)?;
    let op = kind_of(toks, pos + 1);
    if !(op == TokenKind::Assign || op == TokenKind::AddAssign || op == TokenKind::SubAssign
        || op == TokenKind::MulAssign || op == TokenKind::DivAssign || op
        == TokenKind::RemAssign) {
        return Err(fail(toks, pos + 1, Expected::AssignOp));
    }
    let r_var = take_value(toks, pos + 2)?;
    let q = statement_end(toks, pos + 3);
    let s = if op == TokenKind::Assign {
        ASTstatement::Assign { l_var, r_var }
    } else if op == TokenKind::AddAssign {
        ASTstatement::AddAssign { l_var, r_var }
    } else if op == TokenKind::SubAssign {
        ASTstatement::SubAssign { l_var, r_var }
    } else if op == TokenKind::MulAssign {
        ASTstatement::MulAssign { l_var, r_var }
    } else if op == TokenKind::DivAssign {
        ASTstatement::DivAssign { l_var, r_var }
    } else {
        ASTstatement::RemAssign { l_var, r_var }
    };
    Ok((s, q))
}

/// One statement starting at `pos`, chosen by its first token.
fn parse_statement(toks: &Vec<Token>, pos: usize) -> (r: Result<(ASTstatement, usize), ParseError>)
    ensures
        r matches Ok((s, q)) ==> pos < q <= toks@.len() && stmt_wf(s) && begins(toks@, pos as int, s)
            && ends(toks@, pos as int, s, q as int),
        r matches Err(e) ==> parse_fault(toks@, e),
    decreases toks@.len() - pos, 1int,
{
    let k = kind_of(toks, pos);
    match k {
        TokenKind::KwImport => {
            let name = take(toks, pos + 1, TokenKind::Ident)?;
            let q = statement_end(toks, pos + 2);
            Ok((ASTstatement::Import { name: name.text }, q))
        },
        TokenKind::KwPublic | TokenKind::KwFn => parse_function(toks, pos),
        TokenKind::KwLet => {
            let name = take(toks, pos + 1, TokenKind::Ident)?;
            let mut p = pos + 2;
            let mut ty: Option<String> = None;
            if kind_of(toks, p) == TokenKind::Colon {
                let t = take(toks, p + 1, TokenKind::Ident)?;
                ty = Some(t.text);
                p = p + 2;
            }
            let p1 = expect(toks, p, TokenKind::Assign)?;
            let value = take_value(toks, p1)?;
            let q = statement_end(toks, p1 + 1);
            Ok((ASTstatement::Let { name: name.text, ty, value }, q))
        },
        TokenKind::Ident => parse_assign(toks, pos),
        TokenKind::KwIf => {
            let condition = take_value(toks, pos + 1)?;
            let (statements, q) = parse_block(toks, pos + 2)?;
            Ok((ASTstatement::If { condition, statements }, q))
        },
        TokenKind::KwElse => {
            if kind_of(toks, pos + 1) == TokenKind::KwIf {
                let condition = take_value(toks, pos + 2)?;
                let (statements, q) = parse_block(toks, pos + 3)?;
                Ok((ASTstatement::ElseIf { condition, statements }, q))
            } else {
                let (statements, q) = parse_block(toks, pos + 1)?;
                Ok((ASTstatement::Else { statements }, q))
            }
        },
        TokenKind::KwFor => {
            let start = take_value(toks, pos + 1)?;
            let end = take_value(toks, pos + 2)?;
            let value = take(toks, pos + 3, TokenKind::Ident)?;
            let (statements, q) = parse_block(toks, pos + 4)?;
            Ok((ASTstatement::For { start, end, value, statements }, q))
        },
        TokenKind::KwPrint | TokenKind::KwPrintln | TokenKind::KwReturn => {
            let value = take_value(toks, pos + 1)?;
            let q = statement_end(toks, pos + 2);
            let s = if k == TokenKind::KwPrint {
                ASTstatement::Print { value }
            } else if k == TokenKind::KwPrintln {
                ASTstatement::Println { value }
            } else {
                ASTstatement::Return { value }
            };
            Ok((s, q))
        },
        _ => Err(fail(toks, pos, Expected::Statement)),
    }
}

/// Parses a whole token sequence into its top-level statements, which
/// follow one another from the first token up to the end of input.
pub fn parse(toks: &Vec<Token>) -> (r: Result<Vec<ASTstatement>, ParseError>)
    ensures
        r matches Ok(v) ==> parses(toks@, v@),
        r matches Ok(v) ==> block_wf(v@),
        r matches Ok(v) ==> exists|ps: Seq<int>|
            tiles(toks@, v@, ps) && ps[0] == 0 && kind_at(toks@, ps.last()) == TokenKind::Eof,
        r matches Err(e) ==> parse_fault(toks@, e),
{
    let (v, _q) = parse_sequence(toks, 0, false)?;
    Ok(v)
}

} // verus!
