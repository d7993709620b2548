use vstd::prelude::*;
use crate::ast::{ASTmemoryspace, ASTstatement};
use crate::lexer::{lex, lex_fault};
use crate::parser::{parse, parse_fault, parses, ParseError};
use crate::token::tokens_wf;
use crate::semantics::{
    all_digits, bind_params, block_sem, branch_sem, call_sem, chain_end, chain_rest,
    combine, condition_of, digits_value, display, extends_text, find_function, for_sem,
    for_stmt_sem, has_type, is_chain, last_in, lemma_chain_fails, lemma_chain_none, lemma_chain_picks,
    lemma_digits_prefix, opt_view, outcome_of, result_view, return_type_of, run_sem, seq_sem,
    stmt_sem, str_body, truthy, vals, AssignOp, Binding, Flow, Machine, RuntimeError,
    RuntimeErrorKind, Val, Value,
};
use crate::text::{chars_of, push_decimal, push_str, string_of};
use crate::token::{LexError, Token, TokenKind};

verus! {
/// Whether two strings hold the same characters.
fn same_text(a: &str, b: &str) -> (r: bool)
    ensures
        r == (a@ == b@),
{
    let n = a.unicode_len();
    if n != b.unicode_len() {
        return false;
    }
    let mut i: usize = 0;
    while i < n
        invariant
            n == a@.len() == b@.len(),
            i <= n,
            forall|j: int| 0 <= j < i ==> a@[j] == b@[j],
        decreases n - i,
    {
        if a.get_char(i) != b.get_char(i) {
            return false;
        }
        i = i + 1;
    }
    assert(a@ =~= b@);
    true
}

/// Whether `v` has the primitive type named `t`.
fn type_check(t: &String, v: &Value) -> (r: Option<bool>)
    ensures
        r == has_type(t@, v@),
{
    let t = t.as_str();
    if same_text(t, "int") {
        Some(matches!(v, Value::Int(_)))
    } else if same_text(t, "string") || same_text(t, "str") {
        Some(matches!(v, Value::Str(_)))
    } else if same_text(t, "bool") {
        Some(matches!(v, Value::Bool(_)))
    } else if same_text(t, "void") {
        Some(matches!(v, Value::Void))
    } else {
        None
    }
}

/// `a op= b`.
fn combine_values(op: AssignOp, a: &Value, b: Value) -> (r: Result<Value, RuntimeErrorKind>)
    ensures
        r matches Ok(v) ==> combine(op, a@, b@) == Ok::<Val, RuntimeErrorKind>(v@),
        r matches Err(k) ==> combine(op, a@, b@) == Err::<Val, RuntimeErrorKind>(k),
{
    match op {
        AssignOp::Replace => {
            let same = match (a, &b) {
                (Value::Int(_), Value::Int(_)) => true,
                (Value::Str(_), Value::Str(_)) => true,
                (Value::Bool(_), Value::Bool(_)) => true,
                (Value::Void, Value::Void) => true,
                _ => false,
            };
            if same {
                Ok(b)
            } else {
                Err(RuntimeErrorKind::TypeMismatch)
            }
        },
        _ => match (a, &b) {
            (Value::Str(x), Value::Str(y)) => {
                if op == AssignOp::Add {
                    let mut cs = chars_of(x.as_str());
                    push_str(&mut cs, y.as_str());
                    Ok(Value::Str(string_of(&cs)))
                } else {
                    Err(RuntimeErrorKind::TypeMismatch)
                }
            },
            (Value::Int(x), Value::Int(y)) => {
                let x = *x;
                let y = *y;
                match op {
                    AssignOp::Add => {
                        if (y > 0 && x > i64::MAX - y) || (y < 0 && x < i64::MIN - y) {
                            Err(RuntimeErrorKind::Overflow)
                        } else {
                            Ok(Value::Int(x + y))
                        }
                    },
                    AssignOp::Sub => {
                        if (y < 0 && x > i64::MAX + y) || (y > 0 && x < i64::MIN + y) {
                            Err(RuntimeErrorKind::Overflow)
                        } else {
                            Ok(Value::Int(x - y))
                        }
                    },
                    AssignOp::Mul => {
                        assert(-0x4000_0000_0000_0000_0000_0000_0000_0000 <= x as int * y as int
                            <= 0x4000_0000_0000_0000_0000_0000_0000_0000) by (nonlinear_arith)
                            requires
                                i64::MIN <= x <= i64::MAX,
                                i64::MIN <= y <= i64::MAX,
                        ;
                        let p = (x as i128) * (y as i128);
                        if p > i64::MAX as i128 || p < i64::MIN as i128 {
                            Err(RuntimeErrorKind::Overflow)
                        } else {
                            Ok(Value::Int(p as i64))
                        }
                    },
                    AssignOp::Div => {
                        if y == 0 {
                            Err(RuntimeErrorKind::DivisionByZero)
                        } else {
                            match x.checked_div(y) {
                                Some(q) => Ok(Value::Int(q)),
                                None => Err(RuntimeErrorKind::Overflow),
                            }
                        }
                    },
                    AssignOp::Rem => {
                        if y == 0 {
                            Err(RuntimeErrorKind::DivisionByZero)
                        } else {
                            match x.checked_rem(y) {
                                Some(q) => Ok(Value::Int(q)),
                                None => Err(RuntimeErrorKind::Overflow),
                            }
                        }
                    },
                    AssignOp::Replace => Err(RuntimeErrorKind::TypeMismatch),
                }
            },
            _ => Err(RuntimeErrorKind::TypeMismatch),
        },
    }
}

/// Appends the text that `print` writes for `v`.
fn push_display(out: &mut Vec<char>, v: &Value)
    ensures
        final(out)@ == old(out)@ + display(v@),
{
    match v {
        Value::Int(n) => push_decimal(out, *n),
        Value::Str(s) => push_str(out, s.as_str()),
        Value::Bool(b) => {
            if *b {
                push_str(out, "true");
            } else {
                push_str(out, "false");
            }
        },
        Value::Void => push_str(out, "void"),
    }
}

fn is_truthy(v: &Value) -> (r: bool)
    ensures
        r == truthy(v@),
{
    match v {
        Value::Int(n) => *n != 0,
        Value::Str(s) => s.unicode_len() > 0,
        Value::Bool(b) => *b,
        Value::Void => false,
    }
}

/// The end of the `if` chain that starts at `i`.
fn chain_end_of(stmts: &Vec<ASTstatement>, i: usize) -> (r: usize)
    requires
        i < stmts@.len(),
        is_chain(stmts@[i as int]),
    ensures
        r == chain_end(stmts@, i as int),
        i < r <= stmts@.len(),
        forall|j: int| i <= j < r ==> is_chain(#[trigger] stmts@[j]),
{
    let _n = stmts.len();
    let is_else = match &stmts[i] {
        ASTstatement::Else { .. } => true,
        _ => false,
    };
    if is_else {
        return i + 1;
    }
    assert(chain_end(stmts@, i as int) == chain_rest(stmts@, i + 1));
    let mut j: usize = i + 1;
    while j < stmts.len()
        invariant
            i < j <= stmts@.len(),
            chain_end(stmts@, i as int) == chain_rest(stmts@, j as int),
            forall|m: int| i <= m < j ==> is_chain(#[trigger] stmts@[m]),
        decreases stmts@.len() - j,
    {
        match &stmts[j] {
            ASTstatement::ElseIf { .. } => {
                assert(chain_rest(stmts@, j as int) == chain_rest(stmts@, j + 1));
                j = j + 1;
            },
            ASTstatement::Else { .. } => {
                assert(chain_rest(stmts@, j as int) == j + 1);
                return j + 1;
            },
            _ => {
                assert(chain_rest(stmts@, j as int) == j);
                return j;
            },
        }
    }
    j
}

/// The index of the first top-level function of `program` named `name`.
fn find_function_in(program: &Vec<ASTstatement>, name: &String) -> (r: Option<usize>)
    ensures
        r matches Some(i) ==> i as int == find_function(program@, name@, 0) && i
            < program@.len(),
        r is None ==> find_function(program@, name@, 0) == -1,
{
    let mut i: usize = 0;
    while i < program.len()
        invariant
            i <= program@.len(),
            find_function(program@, name@, 0) == find_function(program@, name@, i as int),
        decreases program@.len() - i,
    {
        let hit = match &program[i] {
            ASTstatement::Function { name: n, .. } => *n == *name,
            _ => false,
        };
        if hit {
            return Some(i);
        }
        i = i + 1;
    }
    None
}

/// The interpreter's state: the variable bindings of all open scopes, the
/// start of each scope opened after the global one, where the scopes of
/// the running function begin, and everything printed so far.
pub struct Interpreter {
    pub vars: Vec<Binding>,
    pub marks: Vec<usize>,
    pub base: usize,
    pub output: Vec<char>,
}

impl Interpreter {
    pub open spec fn env(&self) -> Seq<(Seq<char>, Val)> {
        self.vars@.map_values(|b: Binding| (b.name@, b.value@))
    }

    pub proof fn lemma_env_len(&self)
        ensures
            self.env().len() == self.vars@.len(),
    {
    }

    pub open spec fn out(&self) -> Seq<char> {
        self.output@
    }

    pub open spec fn wf(&self) -> bool {
        &&& self.base <= self.marks@.len()
        &&& forall|i: int| 0 <= i < self.marks@.len() ==> #[trigger] self.marks@[i] <= self.vars@.len()
        &&& forall|i: int, j: int|
            #![trigger self.marks@[i], self.marks@[j]]
            0 <= i < j < self.marks@.len() ==> self.marks@[i] <= self.marks@[j]
    }

    /// The state as a mathematical value.
    pub open spec fn model(&self) -> Machine {
        Machine { env: self.env(), marks: self.marks@, base: self.base, out: self.output@ }
    }

    pub open spec fn local_start(&self) -> int {
        self.model().local_start()
    }

    pub open spec fn global_end(&self) -> int {
        self.model().global_end()
    }

    pub open spec fn resolve(&self, name: Seq<char>) -> Option<int> {
        self.model().resolve(name)
    }

    pub open spec fn atom(&self, t: Token) -> Result<Val, RuntimeErrorKind> {
        self.model().atom(t)
    }

    pub open spec fn let_result(&self, ty: Option<Seq<char>>, value: Token) -> Result<
        Val,
        RuntimeErrorKind,
    > {
        self.model().let_result(ty, value)
    }

    pub open spec fn assign_result(&self, op: AssignOp, l: Token, r: Token) -> Result<
        (int, Val),
        RuntimeErrorKind,
    > {
        self.model().assign_result(op, l, r)
    }

    pub open spec fn fires(&self, s: ASTstatement) -> bool {
        self.model().fires(s)
    }

    pub open spec fn falls(&self, s: ASTstatement) -> bool {
        self.model().falls(s)
    }

    pub open spec fn picks(&self, stmts: Seq<ASTstatement>, i: int, end: int, k: int) -> bool {
        self.model().picks(stmts, i, end, k)
    }

    pub open spec fn picks_none(&self, stmts: Seq<ASTstatement>, i: int, end: int) -> bool {
        self.model().picks_none(stmts, i, end)
    }

    /// A fresh interpreter: one empty global scope and no output.
    pub open spec fn is_fresh(&self) -> bool {
        &&& self.wf()
        &&& self.vars@.len() == 0
        &&& self.marks@.len() == 0
        &&& self.base == 0
        &&& self.output@.len() == 0
    }

    pub fn new() -> (r: Interpreter)
        ensures
            r.is_fresh(),
    {
        Interpreter { vars: Vec::new(), marks: Vec::new(), base: 0, output: Vec::new() }
    }

    /// Everything printed so far.
    pub fn output(&self) -> (r: String)
        ensures
            r@ == self.out(),
    {
        string_of(&self.output)
    }

    /// The last index in `from..to` whose binding is named `name`.
    fn find_in(&self, from: usize, to: usize, name: &String) -> (r: Option<usize>)
        requires
            from <= to <= self.vars@.len(),
        ensures
            r matches Some(j) ==> j as int == last_in(self.env(), from as int, to as int, name@)
                && from <= j < to,
            r is None ==> last_in(self.env(), from as int, to as int, name@) == -1,
    {
        let mut k: usize = to;
        while k > from
            invariant
                from <= k <= to <= self.vars@.len(),
                last_in(self.env(), from as int, to as int, name@) == last_in(
                    self.env(),
                    from as int,
                    k as int,
                    name@,
                ),
            decreases k,
        {
            assert(self.env()[k - 1] == (self.vars@[k - 1].name@, self.vars@[k - 1].value@));
            if self.vars[k - 1].name == *name {
                return Some(k - 1);
            }
            k = k - 1;
        }
        None
    }

    /// The binding that `name` denotes and the memory space it lives in.
    pub fn lookup(&self, name: &String) -> (r: Option<(usize, ASTmemoryspace)>)
        requires
            self.wf(),
        ensures
            r matches Some((j, _)) ==> self.resolve(name@) == Some(j as int) && j
                < self.vars@.len(),
            r matches Some((j, sp)) ==> (sp == ASTmemoryspace::Global <==> j
                < self.global_end()),
            r is None ==> self.resolve(name@) is None,
    {
        let n = self.vars.len();
        let ls: usize = if self.base < self.marks.len() {
            self.marks[self.base]
        } else {
            n
        };
        if let Some(j) = self.find_in(ls, n, name) {
            let space = if self.marks.len() > 0 && j >= self.marks[0] {
                ASTmemoryspace::Local
            } else {
                ASTmemoryspace::Global
            };
            return Some((j, space));
        }
        let ge: usize = if self.marks.len() > 0 {
            self.marks[0]
        } else {
            n
        };
        match self.find_in(0, ge, name) {
            Some(g) => Some((g, ASTmemoryspace::Global)),
            None => None,
        }
    }

    /// Evaluates a value token.
    pub fn eval(&self, t: &Token) -> (r: Result<Value, RuntimeError>)
        requires
            self.wf(),
        ensures
            r matches Ok(v) ==> self.atom(*t) == Ok::<Val, RuntimeErrorKind>(v@),
            r matches Err(e) ==> self.atom(*t) == Err::<Val, RuntimeErrorKind>(e.kind),
    {
        match t.kind {
            TokenKind::Ident => match self.lookup(&t.text) {
                Some((j, _)) => Ok(self.vars[j].value.copied()),
                None => Err(
                    RuntimeError { kind: RuntimeErrorKind::UndefinedVariable, context: t.text.clone() },
                ),
            },
            TokenKind::Int => {
                let s = chars_of(t.text.as_str());
                let mut i: usize = 0;
                while i < s.len()
                    invariant
                        s@ == t.text@,
                        t.kind is Int,
                        i <= s@.len(),
                        forall|m: int| 0 <= m < i ==> '0' <= #[trigger] s@[m] && s@[m] <= '9',
                    decreases s@.len() - i,
                {
                    if !('0' <= s[i] && s[i] <= '9') {
                        assert(!('0' <= t.text@[i as int] && t.text@[i as int] <= '9'));
                        assert(!all_digits(t.text@));
                        return Err(
                            RuntimeError {
                                kind: RuntimeErrorKind::TypeMismatch,
                                context: t.text.clone(),
                            },
                        );
                    }
                    i = i + 1;
                }
                let mut v: i64 = 0;
                let mut i: usize = 0;
                while i < s.len()
                    invariant
                        s@ == t.text@,
                        t.kind is Int,
                        all_digits(s@),
                        i <= s@.len(),
                        v as int == digits_value(s@.subrange(0, i as int)),
                        v >= 0,
                    decreases s@.len() - i,
                {
                    let d = (s[i] as u32 - '0' as u32) as i64;
                    let ghost pre = s@.subrange(0, i as int);
                    assert(s@.subrange(0, i + 1).drop_last() =~= pre);
                    assert(digits_value(s@.subrange(0, i + 1)) == v * 10 + d);
                    if v > (i64::MAX - d) / 10 {
                        proof {
                            lemma_digits_prefix(s@, i + 1);
                            assert(v * 10 + d > i64::MAX) by (nonlinear_arith)
                                requires
                                    v > (i64::MAX - d) / 10,
                                    0 <= d <= 9,
                            ;
                            assert(digits_value(t.text@) > i64::MAX);
                        }
                        return Err(
                            RuntimeError { kind: RuntimeErrorKind::Overflow, context: t.text.clone() },
                        );
                    }
                    v = v * 10 + d;
                    i = i + 1;
                }
                assert(s@.subrange(0, s@.len() as int) =~= s@);
                Ok(Value::Int(v))
            },
            TokenKind::Str => {
                let s = chars_of(t.text.as_str());
                let mut body: Vec<char> = Vec::new();
                if s.len() >= 2 {
                    crate::text::push_range(&mut body, &s, 1, s.len() - 1);
                }
                assert(body@ =~= str_body(t.text@));
                Ok(Value::Str(string_of(&body)))
            },
            TokenKind::Bool => {
                let s = chars_of(t.text.as_str());
                let is_true = s.len() == 4 && s[0] == 't' && s[1] == 'r' && s[2] == 'u' && s[3]
                    == 'e';
                proof {
                    reveal_strlit("true");
                    if is_true {
                        assert(s@ =~= "true"@);
                    } else if s@.len() == 4 {
                        assert(s@ != "true"@ || s@[0] == 't');
                    }
                }
                Ok(Value::Bool(is_true))
            },
            _ => Err(RuntimeError { kind: RuntimeErrorKind::TypeMismatch, context: t.text.clone() }),
        }
    }

    /// Everything but the bindings is as in `before`, and the bindings are
    /// `env`.
    pub open spec fn same_but_env(&self, before: Interpreter, env: Seq<(Seq<char>, Val)>) -> bool {
        &&& self.env() == env
        &&& self.marks@ == before.marks@
        &&& self.base == before.base
        &&& self.output@ == before.output@
    }

    /// Runs `let name : ty = value;`: binds `name` in the innermost scope.
    pub fn exec_let(&mut self, name: &String, ty: &Option<String>, value: &Token) -> (r: Result<
        (),
        RuntimeError,
    >)
        requires
            old(self).wf(),
        ensures
            final(self).wf(),
            r is Ok <==> old(self).let_result(opt_view(*ty), *value) is Ok,
            r is Ok ==> final(self).same_but_env(
                *old(self),
                old(self).env().push((name@, old(self).let_result(opt_view(*ty), *value)->Ok_0)),
            ),
            r matches Err(e) ==> old(self).let_result(opt_view(*ty), *value) == Err::<
                Val,
                RuntimeErrorKind,
            >(e.kind) && *final(self) == *old(self),
    {
        let v = self.eval(value)?;
        if let Some(t) = ty {
            match type_check(t, &v) {
                None => {
                    return Err(
                        RuntimeError { kind: RuntimeErrorKind::UnknownType, context: t.clone() },
                    );
                },
                Some(false) => {
                    return Err(
                        RuntimeError { kind: RuntimeErrorKind::TypeMismatch, context: name.clone() },
                    );
                },
                Some(true) => {},
            }
        }
        let ghost pre = self.env();
        let ghost v_view = v@;
        self.vars.push(Binding { name: name.clone(), value: v });
        assert(self.env() =~= pre.push((name@, v_view)));
        Ok(())
    }

    /// Runs `l op= r;`: rebinds `l` in the scope where it was found.
    pub fn exec_assign(&mut self, op: AssignOp, l: &Token, r: &Token) -> (res: Result<
        (),
        RuntimeError,
    >)
        requires
            old(self).wf(),
        ensures
            final(self).wf(),
            res is Ok <==> old(self).assign_result(op, *l, *r) is Ok,
            res is Ok ==> ({
                let (j, nv) = old(self).assign_result(op, *l, *r)->Ok_0;
                final(self).same_but_env(*old(self), old(self).env().update(j, (l.text@, nv)))
            }),
            final(self).vars@.len() == old(self).vars@.len(),
            res matches Err(e) ==> old(self).assign_result(op, *l, *r) == Err::<
                (int, Val),
                RuntimeErrorKind,
            >(e.kind) && *final(self) == *old(self),
    {
        let j = match self.lookup(&l.text) {
            Some((j, _)) => j,
            None => {
                return Err(
                    RuntimeError {
                        kind: RuntimeErrorKind::UndefinedVariable,
                        context: l.text.clone(),
                    },
                );
            },
        };
        let rv = self.eval(r)?;
        assert(self.env()[j as int].1 == self.vars@[j as int].value@);
        let nv = match combine_values(op, &self.vars[j].value, rv) {
            Ok(v) => v,
            Err(kind) => {
                return Err(RuntimeError { kind, context: l.text.clone() });
            },
        };
        let ghost pre = self.env();
        let ghost nv_view = nv@;
        self.vars[j] = Binding { name: l.text.clone(), value: nv };
        assert(self.env() =~= pre.update(j as int, (l.text@, nv_view)));
        Ok(())
    }

    /// Runs `print value;` or, with `newline`, `println value;`.
    pub fn exec_print(&mut self, value: &Token, newline: bool) -> (r: Result<(), RuntimeError>)
        requires
            old(self).wf(),
        ensures
            final(self).wf(),
            r is Ok <==> old(self).atom(*value) is Ok,
            r is Ok ==> final(self).vars@ == old(self).vars@ && final(self).marks@ == old(
                self,
            ).marks@ && final(self).base == old(self).base && final(self).out() == old(
                self,
            ).out() + display(old(self).atom(*value)->Ok_0) + (if newline {
                "\n"@
            } else {
                Seq::empty()
            }),
            r matches Err(e) ==> old(self).atom(*value) == Err::<Val, RuntimeErrorKind>(e.kind)
                && *final(self) == *old(self),
    {
        let v = self.eval(value)?;
        push_display(&mut self.output, &v);
        if newline {
            push_str(&mut self.output, "\n");
        } else {
            assert(self.output@ =~= self.output@ + Seq::<char>::empty());
        }
        Ok(())
    }

    /// What every statement sequence keeps: the scopes it found open are
    /// open again, the bindings it found are still there, and output only
    /// grows.
    pub open spec fn keeps(&self, before: Interpreter) -> bool {
        &&& self.wf()
        &&& self.marks@ == before.marks@
        &&& self.base == before.base
        &&& self.vars@.len() >= before.vars@.len()
        &&& extends_text(self.out(), before.out())
    }

    /// Picks the branch of the `if` chain that starts at `i` and ends at
    /// `end`: the first whose condition holds, else a trailing `else`.
    pub fn pick_branch(&self, stmts: &Vec<ASTstatement>, i: usize, end: usize) -> (r: Result<
        Option<usize>,
        RuntimeError,
    >)
        requires
            self.wf(),
            i < end <= stmts@.len(),
            forall|j: int| i <= j < end ==> is_chain(#[trigger] stmts@[j]),
        ensures
            r matches Ok(Some(k)) ==> self.picks(stmts@, i as int, end as int, k as int),
            r matches Ok(None) ==> self.picks_none(stmts@, i as int, end as int),
            r matches Err(e) ==> exists|k: int|
                i <= k < end && (forall|j: int| i <= j < k ==> self.falls(#[trigger] stmts@[j]))
                    && (#[trigger] stmts@[k] is If || stmts@[k] is ElseIf) && self.atom(
                    condition_of(stmts@[k]),
                ) == Err::<Val, RuntimeErrorKind>(e.kind),
    {
        let mut k: usize = i;
        while k < end
            invariant
                self.wf(),
                i <= k <= end <= stmts@.len(),
                forall|j: int| i <= j < end ==> is_chain(#[trigger] stmts@[j]),
                forall|j: int| i <= j < k ==> self.falls(#[trigger] stmts@[j]),
            decreases end - k,
        {
            let cond = match &stmts[k] {
                ASTstatement::If { condition, .. } => condition,
                ASTstatement::ElseIf { condition, .. } => condition,
                _ => {
                    return Ok(Some(k));
                },
            };
            let v = match self.eval(cond) {
                Ok(v) => v,
                Err(e) => {
                    assert(stmts@[k as int] is If || stmts@[k as int] is ElseIf);
                    return Err(e);
                },
            };
            if is_truthy(&v) {
                return Ok(Some(k));
            }
            k = k + 1;
        }
        Ok(None)
    }

    /// Runs the body of the branch `s` in a scope of its own.
    fn run_branch(&mut self, s: &ASTstatement) -> (r: Result<Flow, RuntimeError>)
        requires
            old(self).wf(),
        ensures
            final(self).keeps(*old(self)),
            final(self).vars@.len() == old(self).vars@.len(),
            (final(self).model(), outcome_of(r)) == branch_sem(old(self).model(), *s),
        decreases s, 0int,
    {
        match s {
            ASTstatement::If { statements, .. } => self.exec_seq(statements, true),
            ASTstatement::ElseIf { statements, .. } => self.exec_seq(statements, true),
            ASTstatement::Else { statements } => self.exec_seq(statements, true),
            _ => Ok(Flow::Normal),
        }
    }

    /// Runs `stmts` in a new scope when `open`, else in the innermost one.
    /// Whatever happens, a scope opened here is closed again.
    pub fn exec_seq(&mut self, stmts: &Vec<ASTstatement>, open: bool) -> (r: Result<
        Flow,
        RuntimeError,
    >)
        requires
            old(self).wf(),
        ensures
            final(self).keeps(*old(self)),
            open ==> final(self).vars@.len() == old(self).vars@.len(),
            (final(self).model(), outcome_of(r)) == (if open {
                block_sem(old(self).model(), stmts@)
            } else {
                seq_sem(old(self).model(), stmts@, 0)
            }),
        decreases stmts, 2int,
    {
        if !open {
            return self.exec_stmts(stmts);
        }
        let mark = self.vars.len();
        self.marks.push(mark);
        assert(self.wf());
        assert(self.model() == old(self).model().open_scope());
        let ghost inner = self.model();
        let r = self.exec_stmts(stmts);
        let ghost after = self.model();
        self.vars.truncate(mark);
        self.marks.pop();
        assert(self.marks@ =~= old(self).marks@);
        assert(self.env() =~= after.env.subrange(0, mark as int));
        assert(self.model() == after.close_scope(old(self).model()));
        r
    }

    /// Runs each statement of `stmts` in order in the innermost scope,
    /// running at most one branch of each `if` chain.
    fn exec_stmts(&mut self, stmts: &Vec<ASTstatement>) -> (r: Result<Flow, RuntimeError>)
        requires
            old(self).wf(),
        ensures
            final(self).keeps(*old(self)),
            (final(self).model(), outcome_of(r)) == seq_sem(old(self).model(), stmts@, 0),
        decreases stmts, 1int,
    {
        let mut i: usize = 0;
        while i < stmts.len()
            invariant
                self.keeps(*old(self)),
                i <= stmts@.len(),
                seq_sem(old(self).model(), stmts@, 0) == seq_sem(self.model(), stmts@, i as int),
            decreases stmts@.len() - i,
        {
            proof {
                vstd::std_specs::vec::axiom_vec_index_decreases(*stmts, i as int);
            }
            let chain = match &stmts[i] {
                ASTstatement::If { .. } | ASTstatement::ElseIf { .. } | ASTstatement::Else {
                    ..
                } => true,
                _ => false,
            };
            if chain {
                let end = chain_end_of(stmts, i);
                let ghost m = self.model();
                let picked = match self.pick_branch(stmts, i, end) {
                    Ok(p) => p,
                    Err(e) => {
                        proof {
                            let k = choose|k: int|
                                i <= k < end && (forall|j: int|
                                    i <= j < k ==> self.falls(#[trigger] stmts@[j])) && (
                                #[trigger] stmts@[k] is If || stmts@[k] is ElseIf) && self.atom(
                                    condition_of(stmts@[k]),
                                ) == Err::<Val, RuntimeErrorKind>(e.kind);
                            lemma_chain_fails(m, stmts@, i as int, end as int, k, e.kind);
                        }
                        return Err(e);
                    },
                };
                if let Some(k) = picked {
                    proof {
                        vstd::std_specs::vec::axiom_vec_index_decreases(*stmts, k as int);
                        lemma_chain_picks(m, stmts@, i as int, end as int, k as int);
                    }
                    let flow = self.run_branch(&stmts[k])?;
                    if let Flow::Returned(_) = flow {
                        return Ok(flow);
                    }
                } else {
                    proof {
                        lemma_chain_none(m, stmts@, i as int, end as int);
                    }
                }
                i = end;
            } else {
                let flow = self.exec_stmt(&stmts[i])?;
                if let Flow::Returned(_) = flow {
                    return Ok(flow);
                }
                i = i + 1;
            }
        }
        Ok(Flow::Normal)
    }

    /// Runs one statement that is not part of an `if` chain.
    fn exec_stmt(&mut self, s: &ASTstatement) -> (r: Result<Flow, RuntimeError>)
        requires
            old(self).wf(),
        ensures
            final(self).keeps(*old(self)),
            (final(self).model(), outcome_of(r)) == stmt_sem(old(self).model(), *s),
        decreases s, 1int,
    {
        match s {
            ASTstatement::Let { name, ty, value } => {
                self.exec_let(name, ty, value)?;
                proof {
                    old(self).lemma_env_len();
                    self.lemma_env_len();
                }
                Ok(Flow::Normal)
            },
            ASTstatement::Assign { l_var, r_var } => {
                self.exec_assign(AssignOp::Replace, l_var, r_var)?;
                proof {
                    old(self).lemma_env_len();
                    self.lemma_env_len();
                }
                Ok(Flow::Normal)
            },
            ASTstatement::AddAssign { l_var, r_var } => {
                self.exec_assign(AssignOp::Add, l_var, r_var)?;
                proof {
                    old(self).lemma_env_len();
                    self.lemma_env_len();
                }
                Ok(Flow::Normal)
            },
            ASTstatement::SubAssign { l_var, r_var } => {
                self.exec_assign(AssignOp::Sub, l_var, r_var)?;
                proof {
                    old(self).lemma_env_len();
                    self.lemma_env_len();
                }
                Ok(Flow::Normal)
            },
            ASTstatement::MulAssign { l_var, r_var } => {
                self.exec_assign(AssignOp::Mul, l_var, r_var)?;
                proof {
                    old(self).lemma_env_len();
                    self.lemma_env_len();
                }
                Ok(Flow::Normal)
            },
            ASTstatement::DivAssign { l_var, r_var } => {
                self.exec_assign(AssignOp::Div, l_var, r_var)?;
                proof {
                    old(self).lemma_env_len();
                    self.lemma_env_len();
                }
                Ok(Flow::Normal)
            },
            ASTstatement::RemAssign { l_var, r_var } => {
                self.exec_assign(AssignOp::Rem, l_var, r_var)?;
                proof {
                    old(self).lemma_env_len();
                    self.lemma_env_len();
                }
                Ok(Flow::Normal)
            },
            ASTstatement::Print { value } => {
                self.exec_print(value, false)?;
                Ok(Flow::Normal)
            },
            ASTstatement::Println { value } => {
                self.exec_print(value, true)?;
                Ok(Flow::Normal)
            },
            ASTstatement::Return { value } => {
                let v = self.eval(value)?;
                Ok(Flow::Returned(v))
            },
            ASTstatement::For { start, end, value, statements } => self.exec_for(
                start,
                end,
                value,
                statements,
            ),
            ASTstatement::If { .. } | ASTstatement::ElseIf { .. } | ASTstatement::Else { .. } => {
                self.run_branch(s)
            },
            ASTstatement::Import { .. } | ASTstatement::Function { .. } => Ok(Flow::Normal),
        }
    }

    /// Runs `for start end var { body }`: `var` takes each integer from
    /// `start` up to but not including `end`, bound afresh in a scope of
    /// its own for each pass, and `body` runs once per pass in a nested
    /// scope.
    pub fn exec_for(&mut self, start: &Token, end: &Token, var: &Token, body: &Vec<ASTstatement>) -> (r:
        Result<Flow, RuntimeError>)
        requires
            old(self).wf(),
        ensures
            final(self).keeps(*old(self)),
            final(self).vars@.len() == old(self).vars@.len(),
            old(self).atom(*start) matches Err(k) ==> (r matches Err(e) && e.kind == k),
            old(self).atom(*start) is Ok ==> (old(self).atom(*end) matches Err(k) ==> (r matches Err(
                e,
            ) && e.kind == k)),
            (old(self).atom(*start) matches Ok(Val::Int(a)) && (old(self).atom(*end) matches Ok(
                Val::Int(b),
            ) && a > b)) ==> (r matches Err(e) && e.kind == RuntimeErrorKind::InvalidLoopBounds),
            (final(self).model(), outcome_of(r)) == for_stmt_sem(
                old(self).model(),
                *start,
                *end,
                *var,
                body@,
            ),
        decreases body, 3int,
    {
        let s = self.eval(start)?;
        let e = self.eval(end)?;
        let (a, b) = match (s, e) {
            (Value::Int(a), Value::Int(b)) => (a, b),
            _ => {
                return Err(
                    RuntimeError { kind: RuntimeErrorKind::TypeMismatch, context: var.text.clone() },
                );
            },
        };
        if a > b {
            return Err(
                RuntimeError { kind: RuntimeErrorKind::InvalidLoopBounds, context: var.text.clone() },
            );
        }
        let mut i: i64 = a;
        while i < b
            invariant
                self.keeps(*old(self)),
                self.vars@.len() == old(self).vars@.len(),
                a <= i <= b,
                old(self).atom(*start) == Ok::<Val, RuntimeErrorKind>(Val::Int(a)),
                old(self).atom(*end) == Ok::<Val, RuntimeErrorKind>(Val::Int(b)),
                for_stmt_sem(old(self).model(), *start, *end, *var, body@) == for_sem(
                    self.model(),
                    var.text@,
                    i as int,
                    b as int,
                    body@,
                ),
            decreases b - i,
        {
            let ghost m = self.model();
            let mark = self.vars.len();
            self.marks.push(mark);
            self.vars.push(Binding { name: var.text.clone(), value: Value::Int(i) });
            assert(self.wf());
            assert(self.env() =~= m.env.push((var.text@, Val::Int(i))));
            assert(self.model() == m.open_scope().bind(var.text@, Val::Int(i)));
            let r = self.exec_seq(body, true);
            let ghost after = self.model();
            self.vars.truncate(mark);
            self.marks.pop();
            assert(self.marks@ =~= old(self).marks@);
            assert(self.env() =~= after.env.subrange(0, mark as int));
            assert(self.model() == after.close_scope(m));
            let flow = r?;
            if let Flow::Returned(_) = flow {
                return Ok(flow);
            }
            i = i + 1;
        }
        Ok(Flow::Normal)
    }

    /// Calls the first top-level function of `program` named `name` with
    /// `args` bound to its parameters in a fresh scope whose parent is the
    /// global scope. A function whose declared return type is not `void`
    /// never yields the no-value result: falling off its end is an error.
    pub fn call_function(&mut self, program: &Vec<ASTstatement>, name: &String, args: &Vec<Value>) -> (r:
        Result<Value, RuntimeError>)
        requires
            old(self).wf(),
        ensures
            final(self).keeps(*old(self)),
            final(self).vars@.len() == old(self).vars@.len(),
            find_function(program@, name@, 0) == -1 ==> (r matches Err(e) && e.kind
                == RuntimeErrorKind::UndefinedFunction),
            r matches Ok(v) ==> find_function(program@, name@, 0) >= 0 && (v@ is Void
                ==> return_type_of(program@[find_function(program@, name@, 0)]) == "void"@),
            (final(self).model(), result_view(r)) == call_sem(
                old(self).model(),
                program@,
                name@,
                vals(args@),
            ),
    {
        let idx = match find_function_in(program, name) {
            Some(i) => i,
            None => {
                return Err(
                    RuntimeError { kind: RuntimeErrorKind::UndefinedFunction, context: name.clone() },
                );
            },
        };
        let (params, statements, return_type) = match &program[idx] {
            ASTstatement::Function { args: params, statements, return_type, .. } => (
                params,
                statements,
                return_type,
            ),
            _ => {
                return Err(
                    RuntimeError { kind: RuntimeErrorKind::UndefinedFunction, context: name.clone() },
                );
            },
        };
        if params.len() != args.len() {
            return Err(RuntimeError { kind: RuntimeErrorKind::ArityMismatch, context: name.clone() });
        }
        let saved = self.base;
        let mark = self.vars.len();
        self.base = self.marks.len();
        self.marks.push(mark);
        let mut k: usize = 0;
        while k < params.len()
            invariant
                self.wf(),
                k <= params@.len() == args@.len(),
                self.marks@ == old(self).marks@.push(mark),
                self.base == old(self).marks@.len(),
                self.vars@.len() == mark + k,
                mark == old(self).vars@.len(),
                self.output@ == old(self).output@,
                self.env() == old(self).env() + bind_params(
                    params@.subrange(0, k as int),
                    vals(args@).subrange(0, k as int),
                ),
            decreases params@.len() - k,
        {
            let ghost pre = self.env();
            let ghost kk = k as int;
            self.vars.push(Binding { name: params[k].name.clone(), value: args[k].copied() });
            k = k + 1;
            assert(self.env() =~= pre.push((params@[kk].name@, args@[kk]@)));
            assert(vals(args@)[kk] == args@[kk]@);
            assert(bind_params(params@.subrange(0, k as int), vals(args@).subrange(0, k as int))
                =~= bind_params(params@.subrange(0, kk), vals(args@).subrange(0, kk)).push(
                (params@[kk].name@, args@[kk]@),
            ));
            assert(self.env() =~= old(self).env() + bind_params(
                params@.subrange(0, k as int),
                vals(args@).subrange(0, k as int),
            ));
        }
        assert(params@.subrange(0, k as int) =~= params@);
        assert(vals(args@).subrange(0, k as int) =~= vals(args@));
        assert(self.model() == Machine {
            env: old(self).model().env + bind_params(params@, vals(args@)),
            marks: old(self).model().marks.push(old(self).model().env.len() as usize),
            base: old(self).model().marks.len() as usize,
            out: old(self).model().out,
        });
        let r = self.exec_stmts(statements);
        let ghost after = self.model();
        self.vars.truncate(mark);
        self.marks.pop();
        assert(self.marks@ =~= old(self).marks@);
        self.base = saved;
        assert(self.env() =~= after.env.subrange(0, mark as int));
        proof {
            reveal_strlit("void");
        }
        let is_void = same_text(return_type.as_str(), "void");
        match r {
            Err(e) => Err(e),
            Ok(Flow::Returned(v)) => {
                if !is_void && matches!(v, Value::Void) {
                    Err(RuntimeError { kind: RuntimeErrorKind::TypeMismatch, context: name.clone() })
                } else {
                    Ok(v)
                }
            },
            Ok(Flow::Normal) => {
                if is_void {
                    Ok(Value::Void)
                } else {
                    Err(RuntimeError { kind: RuntimeErrorKind::MissingReturn, context: name.clone() })
                }
            },
        }
    }

    /// Runs a program: its top-level statements in order in the global
    /// scope, then its `main` function, if it defines one.
    pub fn run(&mut self, program: &Vec<ASTstatement>) -> (r: Result<(), RuntimeError>)
        requires
            old(self).wf(),
        ensures
            final(self).keeps(*old(self)),
            final(self).model() == run_sem(old(self).model(), program@).0,
            r matches Err(e) ==> run_sem(old(self).model(), program@).1 == Some(e.kind),
            r is Ok ==> run_sem(old(self).model(), program@).1 is None,
    {
        let flow = self.exec_stmts(program)?;
        if let Flow::Returned(_) = flow {
            return Ok(());
        }
        let main_name = string_of(&chars_of("main"));
        if find_function_in(program, &main_name).is_some() {
            let no_args: Vec<Value> = Vec::new();
            assert(vals(no_args@) =~= Seq::<Val>::empty());
            self.call_function(program, &main_name, &no_args)?;
        }
        Ok(())
    }
}

/// The first error of a run of the whole pipeline.
#[derive(Debug, PartialEq, Eq)]
pub enum NkError {
    Lex(LexError),
    Parse(ParseError),
    Runtime(RuntimeError),
}

/// A fresh interpreter for a session that feeds it one program after
/// another.
pub fn run_interpreter_environment() -> (r: Interpreter)
    ensures
        r.is_fresh(),
{
    Interpreter::new()
}

/// The state of a fresh interpreter.
pub open spec fn fresh_machine() -> Machine {
    Machine { env: Seq::empty(), marks: Seq::empty(), base: 0, out: Seq::empty() }
}

/// Lexes, parses and runs `source` on a fresh interpreter, and returns what
/// it printed. Each stage stops at its first error, and no later stage runs.
pub fn run_source(source: &str) -> (r: Result<String, NkError>)
    ensures
        r matches Err(NkError::Lex(e)) ==> lex_fault(source@, e),
        r matches Err(NkError::Parse(e)) ==> exists|toks: Seq<Token>|
            #![trigger tokens_wf(source@, toks)]
            tokens_wf(source@, toks) && parse_fault(toks, e),
        r matches Ok(out) ==> exists|toks: Seq<Token>, p: Seq<ASTstatement>|
            #![trigger tokens_wf(source@, toks), parses(toks, p)]
            tokens_wf(source@, toks) && parses(toks, p) && run_sem(fresh_machine(), p).1 is None
                && out@ == run_sem(fresh_machine(), p).0.out,
        r matches Err(NkError::Runtime(e)) ==> exists|toks: Seq<Token>, p: Seq<ASTstatement>|
            #![trigger tokens_wf(source@, toks), parses(toks, p)]
            tokens_wf(source@, toks) && parses(toks, p) && run_sem(fresh_machine(), p).1 == Some(
                e.kind,
            ),
{
    let toks = match lex(source) {
        Ok(t) => t,
        Err(e) => {
            return Err(NkError::Lex(e));
        },
    };
    let program = match parse(&toks) {
        Ok(p) => p,
        Err(e) => {
            assert(tokens_wf(source@, toks@) && parse_fault(toks@, e));
            return Err(NkError::Parse(e));
        },
    };
    assert(tokens_wf(source@, toks@) && parses(toks@, program@));
    let mut interp = Interpreter::new();
    assert(interp.env() =~= Seq::<(Seq<char>, Val)>::empty());
    assert(interp.marks@ =~= Seq::<usize>::empty());
    assert(interp.output@ =~= Seq::<char>::empty());
    assert(interp.model() == fresh_machine());
    match interp.run(&program) {
        Ok(()) => {
            let out = interp.output();
            assert(run_sem(fresh_machine(), program@).1 is None);
            Ok(out)
        },
        Err(e) => {
            assert(run_sem(fresh_machine(), program@).1 == Some(e.kind));
            Err(NkError::Runtime(e))
        },
    }
}

} // verus!
