use vstd::prelude::*;
use crate::ast::{ASTstatement, ASTtypecomp};
use crate::text::decimal;
use crate::token::{Token, TokenKind};

verus! {
/// A runtime value.
#[derive(Debug, PartialEq, Eq)]
pub enum Value {
    Int(i64),
    Str(String),
    Bool(bool),
    Void,
}

/// The mathematical model of a runtime value.
pub enum Val {
    Int(i64),
    Str(Seq<char>),
    Bool(bool),
    Void,
}

impl View for Value {
    type V = Val;

    open spec fn view(&self) -> Val {
        match self {
            Value::Int(n) => Val::Int(*n),
            Value::Str(s) => Val::Str(s@),
            Value::Bool(b) => Val::Bool(*b),
            Value::Void => Val::Void,
        }
    }
}

impl Value {
    /// A copy of this value.
    pub fn copied(&self) -> (r: Value)
        ensures
            r@ == self@,
    {
        match self {
            Value::Int(n) => Value::Int(*n),
            Value::Str(s) => Value::Str(s.clone()),
            Value::Bool(b) => Value::Bool(*b),
            Value::Void => Value::Void,
        }
    }
}

/// What went wrong while a program ran.
#[derive(Clone, Copy, Debug, PartialEq, Eq, Structural, Hash)]
pub enum RuntimeErrorKind {
    UndefinedVariable,
    UndefinedFunction,
    TypeMismatch,
    UnknownType,
    ArityMismatch,
    InvalidLoopBounds,
    MissingReturn,
    DivisionByZero,
    Overflow,
}

/// A runtime failure, with the name or token text it concerns.
#[derive(Debug, PartialEq, Eq)]
pub struct RuntimeError {
    pub kind: RuntimeErrorKind,
    pub context: String,
}

/// How a statement sequence ended.
#[derive(Debug, PartialEq, Eq)]
pub enum Flow {
    Normal,
    Returned(Value),
}

/// The assignment operators.
#[derive(Clone, Copy, Debug, PartialEq, Eq, Structural, Hash)]
pub enum AssignOp {
    Replace,
    Add,
    Sub,
    Mul,
    Div,
    Rem,
}

/// One variable binding.
#[derive(Debug, PartialEq, Eq)]
pub struct Binding {
    pub name: String,
    pub value: Value,
}

/// The value of a decimal digit string, most significant digit first.
pub open spec fn digits_value(s: Seq<char>) -> int
    decreases s.len(),
{
    if s.len() == 0 {
        0
    } else {
        digits_value(s.drop_last()) * 10 + (s.last() as int - '0' as int)
    }
}

pub open spec fn all_digits(s: Seq<char>) -> bool {
    forall|i: int| 0 <= i < s.len() ==> '0' <= #[trigger] s[i] && s[i] <= '9'
}

/// The contents of a string literal, without its quotes.
pub open spec fn str_body(t: Seq<char>) -> Seq<char> {
    if t.len() >= 2 {
        t.subrange(1, t.len() - 1)
    } else {
        Seq::empty()
    }
}

pub open spec fn truthy(v: Val) -> bool {
    match v {
        Val::Int(n) => n != 0,
        Val::Str(s) => s.len() > 0,
        Val::Bool(b) => b,
        Val::Void => false,
    }
}

/// The text that `print` writes for a value.
pub open spec fn display(v: Val) -> Seq<char> {
    match v {
        Val::Int(n) => decimal(n as int),
        Val::Str(s) => s,
        Val::Bool(b) => if b { "true"@ } else { "false"@ },
        Val::Void => "void"@,
    }
}

/// Whether a value has the primitive type named `t`; `None` when no
/// primitive type has that name.
pub open spec fn has_type(t: Seq<char>, v: Val) -> Option<bool> {
    if t == "int"@ {
        Some(v is Int)
    } else if t == "string"@ || t == "str"@ {
        Some(v is Str)
    } else if t == "bool"@ {
        Some(v is Bool)
    } else if t == "void"@ {
        Some(v is Void)
    } else {
        None
    }
}

pub open spec fn same_type(a: Val, b: Val) -> bool {
    (a is Int && b is Int) || (a is Str && b is Str) || (a is Bool && b is Bool) || (a is Void
        && b is Void)
}

pub open spec fn in_i64(n: int) -> bool {
    i64::MIN <= n <= i64::MAX
}

/// `a op= b`.
pub open spec fn combine(op: AssignOp, a: Val, b: Val) -> Result<Val, RuntimeErrorKind> {
    match (op, a, b) {
        (AssignOp::Replace, _, _) => if same_type(a, b) {
            Ok(b)
        } else {
            Err(RuntimeErrorKind::TypeMismatch)
        },
        (AssignOp::Add, Val::Str(x), Val::Str(y)) => Ok(Val::Str(x + y)),
        (AssignOp::Add, Val::Int(x), Val::Int(y)) => if in_i64(x + y) {
            Ok(Val::Int((x + y) as i64))
        } else {
            Err(RuntimeErrorKind::Overflow)
        },
        (AssignOp::Sub, Val::Int(x), Val::Int(y)) => if in_i64(x - y) {
            Ok(Val::Int((x - y) as i64))
        } else {
            Err(RuntimeErrorKind::Overflow)
        },
        (AssignOp::Mul, Val::Int(x), Val::Int(y)) => if in_i64(x * y) {
            Ok(Val::Int((x * y) as i64))
        } else {
            Err(RuntimeErrorKind::Overflow)
        },
        (AssignOp::Div, Val::Int(x), Val::Int(y)) => if y == 0 {
            Err(RuntimeErrorKind::DivisionByZero)
        } else {
            match x.checked_div(y) {
                Some(q) => Ok(Val::Int(q)),
                None => Err(RuntimeErrorKind::Overflow),
            }
        },
        (AssignOp::Rem, Val::Int(x), Val::Int(y)) => if y == 0 {
            Err(RuntimeErrorKind::DivisionByZero)
        } else {
            match x.checked_rem(y) {
                Some(q) => Ok(Val::Int(q)),
                None => Err(RuntimeErrorKind::Overflow),
            }
        },
        _ => Err(RuntimeErrorKind::TypeMismatch),
    }
}

/// The last index in `from..to` whose binding is named `name`, or -1.
pub open spec fn last_in(env: Seq<(Seq<char>, Val)>, from: int, to: int, name: Seq<char>) -> int
    decreases to - from,
{
    if to <= from {
        -1
    } else if env[to - 1].0 == name {
        to - 1
    } else {
        last_in(env, from, to - 1, name)
    }
}

pub open spec fn is_chain(s: ASTstatement) -> bool {
    s is If || s is ElseIf || s is Else
}

/// The end of the `if` chain whose continuation starts at `j`.
pub open spec fn chain_rest(stmts: Seq<ASTstatement>, j: int) -> int
    decreases stmts.len() - j,
{
    if j < 0 || j >= stmts.len() {
        j
    } else if stmts[j] is ElseIf {
        chain_rest(stmts, j + 1)
    } else if stmts[j] is Else {
        j + 1
    } else {
        j
    }
}

/// The end of the `if` chain that starts at `i`.
pub open spec fn chain_end(stmts: Seq<ASTstatement>, i: int) -> int {
    if stmts[i] is Else {
        i + 1
    } else {
        chain_rest(stmts, i + 1)
    }
}

/// The condition of an `if` or `else if`.
pub open spec fn condition_of(s: ASTstatement) -> Token {
    match s {
        ASTstatement::If { condition, .. } => condition,
        ASTstatement::ElseIf { condition, .. } => condition,
        _ => arbitrary(),
    }
}

/// The index of the first top-level function named `name`, or -1.
pub open spec fn find_function(program: Seq<ASTstatement>, name: Seq<char>, from: int) -> int
    decreases program.len() - from,
{
    if from < 0 || from >= program.len() {
        -1
    } else if program[from] matches ASTstatement::Function { name: n, .. } && n@ == name {
        from
    } else {
        find_function(program, name, from + 1)
    }
}

pub open spec fn return_type_of(s: ASTstatement) -> Seq<char> {
    match s {
        ASTstatement::Function { return_type, .. } => return_type@,
        _ => Seq::empty(),
    }
}

/// `a` is `b` followed by more text.
pub open spec fn extends_text(a: Seq<char>, b: Seq<char>) -> bool {
    &&& b.len() <= a.len()
    &&& forall|i: int| 0 <= i < b.len() ==> #[trigger] a[i] == b[i]
}

pub(crate) proof fn lemma_digits_prefix(s: Seq<char>, k: int)
    requires
        all_digits(s),
        0 <= k <= s.len(),
    ensures
        0 <= digits_value(s.subrange(0, k)) <= digits_value(s),
    decreases s.len(),
{
    if k == s.len() {
        assert(s.subrange(0, k) =~= s);
        lemma_digits_nonneg(s);
    } else {
        let t = s.drop_last();
        assert(t.subrange(0, k) =~= s.subrange(0, k));
        lemma_digits_prefix(t, k);
    }
}

proof fn lemma_digits_nonneg(s: Seq<char>)
    requires
        all_digits(s),
    ensures
        digits_value(s) >= 0,
    decreases s.len(),
{
    if s.len() > 0 {
        lemma_digits_nonneg(s.drop_last());
    }
}

pub open spec fn opt_view(t: Option<String>) -> Option<Seq<char>> {
    match t {
        Some(s) => Some(s@),
        None => None,
    }
}

/// The interpreter's state as a mathematical value: the bindings of all
/// open scopes, outer first, the start of each scope opened after the
/// global one, where the scopes of the running function begin, and the
/// output so far.
pub struct Machine {
    pub env: Seq<(Seq<char>, Val)>,
    pub marks: Seq<usize>,
    pub base: usize,
    pub out: Seq<char>,
}

impl Machine {
    /// Where the scopes of the running function begin.
    pub open spec fn local_start(&self) -> int {
        if self.base < self.marks.len() {
            self.marks[self.base as int] as int
        } else {
            self.env.len() as int
        }
    }

    /// Where the global scope ends.
    pub open spec fn global_end(&self) -> int {
        if self.marks.len() > 0 {
            self.marks[0] as int
        } else {
            self.env.len() as int
        }
    }

    /// The binding that `name` denotes: the innermost one among the running
    /// function's scopes, else the global one.
    pub open spec fn resolve(&self, name: Seq<char>) -> Option<int> {
        let j = last_in(self.env, self.local_start(), self.env.len() as int, name);
        if j >= 0 {
            Some(j)
        } else {
            let g = last_in(self.env, 0, self.global_end(), name);
            if g >= 0 {
                Some(g)
            } else {
                None
            }
        }
    }

    /// The value of a value token in the current state.
    pub open spec fn atom(&self, t: Token) -> Result<Val, RuntimeErrorKind> {
        match t.kind {
            TokenKind::Ident => match self.resolve(t.text@) {
                Some(j) => Ok(self.env[j].1),
                None => Err(RuntimeErrorKind::UndefinedVariable),
            },
            TokenKind::Int => if !all_digits(t.text@) {
                Err(RuntimeErrorKind::TypeMismatch)
            } else if digits_value(t.text@) <= i64::MAX {
                Ok(Val::Int(digits_value(t.text@) as i64))
            } else {
                Err(RuntimeErrorKind::Overflow)
            },
            TokenKind::Str => Ok(Val::Str(str_body(t.text@))),
            TokenKind::Bool => Ok(Val::Bool(t.text@ == "true"@)),
            _ => Err(RuntimeErrorKind::TypeMismatch),
        }
    }

    /// What `let name : ty = value;` binds, or why it fails.
    pub open spec fn let_result(&self, ty: Option<Seq<char>>, value: Token) -> Result<
        Val,
        RuntimeErrorKind,
    > {
        match self.atom(value) {
            Err(k) => Err(k),
            Ok(v) => match ty {
                None => Ok(v),
                Some(t) => match has_type(t, v) {
                    None => Err(RuntimeErrorKind::UnknownType),
                    Some(true) => Ok(v),
                    Some(false) => Err(RuntimeErrorKind::TypeMismatch),
                },
            },
        }
    }

    /// The binding that `l op= r;` rebinds and its new value, or why it fails.
    pub open spec fn assign_result(&self, op: AssignOp, l: Token, r: Token) -> Result<
        (int, Val),
        RuntimeErrorKind,
    > {
        match self.resolve(l.text@) {
            None => Err(RuntimeErrorKind::UndefinedVariable),
            Some(j) => match self.atom(r) {
                Err(k) => Err(k),
                Ok(rv) => match combine(op, self.env[j].1, rv) {
                    Err(k) => Err(k),
                    Ok(nv) => Ok((j, nv)),
                },
            },
        }
    }

    /// The branch `s` of an `if` chain runs once reached: it is an `else`,
    /// or its condition holds.
    pub open spec fn fires(&self, s: ASTstatement) -> bool {
        s is Else || ((s is If || s is ElseIf) && (self.atom(condition_of(s)) matches Ok(v)
            && truthy(v)))
    }

    /// The branch is skipped: its condition evaluates and does not hold.
    pub open spec fn falls(&self, s: ASTstatement) -> bool {
        (s is If || s is ElseIf) && (self.atom(condition_of(s)) matches Ok(v) && !truthy(v))
    }

    /// Branch `k` of the chain `i..end` is the one that runs.
    pub open spec fn picks(&self, stmts: Seq<ASTstatement>, i: int, end: int, k: int) -> bool {
        &&& i <= k < end
        &&& self.fires(stmts[k])
        &&& forall|j: int| i <= j < k ==> self.falls(#[trigger] stmts[j])
    }

    /// No branch of the chain `i..end` runs.
    pub open spec fn picks_none(&self, stmts: Seq<ASTstatement>, i: int, end: int) -> bool {
        forall|j: int| i <= j < end ==> self.falls(#[trigger] stmts[j])
    }

}

/// How running a statement or a sequence ended.
pub enum Outcome {
    Normal,
    Returned(Val),
    Failed(RuntimeErrorKind),
}

pub open spec fn outcome_of(r: Result<Flow, RuntimeError>) -> Outcome {
    match r {
        Ok(Flow::Normal) => Outcome::Normal,
        Ok(Flow::Returned(v)) => Outcome::Returned(v@),
        Err(e) => Outcome::Failed(e.kind),
    }
}

impl Machine {
    /// A new innermost scope opens.
    pub open spec fn open_scope(self) -> Machine {
        Machine {
            env: self.env,
            marks: self.marks.push(self.env.len() as usize),
            base: self.base,
            out: self.out,
        }
    }

    /// The scopes opened since `before` close: the bindings made in them go,
    /// and what happened to older bindings and to the output stays.
    pub open spec fn close_scope(self, before: Machine) -> Machine {
        Machine {
            env: self.env.subrange(0, before.env.len() as int),
            marks: before.marks,
            base: self.base,
            out: self.out,
        }
    }

    /// `name` is bound to `v` in the innermost scope.
    pub open spec fn bind(self, name: Seq<char>, v: Val) -> Machine {
        Machine { env: self.env.push((name, v)), marks: self.marks, base: self.base, out: self.out }
    }
}

/// Running `l op= r;`.
pub open spec fn assign_sem(m: Machine, op: AssignOp, l: Token, r: Token) -> (Machine, Outcome) {
    match m.assign_result(op, l, r) {
        Ok((j, nv)) => (
            Machine { env: m.env.update(j, (l.text@, nv)), marks: m.marks, base: m.base, out: m.out },
            Outcome::Normal,
        ),
        Err(k) => (m, Outcome::Failed(k)),
    }
}

/// Running `print value;`, or `println value;` when `newline`.
pub open spec fn print_sem(m: Machine, value: Token, newline: bool) -> (Machine, Outcome) {
    match m.atom(value) {
        Ok(v) => (
            Machine {
                env: m.env,
                marks: m.marks,
                base: m.base,
                out: m.out + display(v) + (if newline { "\n"@ } else { Seq::empty() }),
            },
            Outcome::Normal,
        ),
        Err(k) => (m, Outcome::Failed(k)),
    }
}

/// Running a block in a scope of its own.
pub open spec fn block_sem(m: Machine, body: Seq<ASTstatement>) -> (Machine, Outcome)
    decreases body, 3int, 0int,
{
    let r = seq_sem(m.open_scope(), body, 0);
    (r.0.close_scope(m), r.1)
}

/// Running the body of an `if`, `else if` or `else` branch.
pub open spec fn branch_sem(m: Machine, s: ASTstatement) -> (Machine, Outcome)
    decreases s, 0int, 0int,
{
    match s {
        ASTstatement::If { statements, .. } => block_sem(m, statements@),
        ASTstatement::ElseIf { statements, .. } => block_sem(m, statements@),
        ASTstatement::Else { statements } => block_sem(m, statements@),
        _ => (m, Outcome::Normal),
    }
}

/// Running the `if` chain `stmts[j..end]`: the first branch whose condition
/// holds, or a trailing `else`, runs; a condition that fails to evaluate
/// stops the chain.
pub open spec fn chain_sem(m: Machine, stmts: Seq<ASTstatement>, j: int, end: int) -> (
    Machine,
    Outcome,
)
    decreases stmts, 1int, end - j,
{
    if j < 0 || j >= end || j >= stmts.len() {
        (m, Outcome::Normal)
    } else if stmts[j] is Else {
        branch_sem(m, stmts[j])
    } else if stmts[j] is If || stmts[j] is ElseIf {
        match m.atom(condition_of(stmts[j])) {
            Err(k) => (m, Outcome::Failed(k)),
            Ok(v) => if truthy(v) {
                branch_sem(m, stmts[j])
            } else {
                chain_sem(m, stmts, j + 1, end)
            },
        }
    } else {
        (m, Outcome::Normal)
    }
}

/// Running the passes `i..b` of a `for` loop over `var`.
pub open spec fn for_sem(m: Machine, var: Seq<char>, i: int, b: int, body: Seq<ASTstatement>) -> (
    Machine,
    Outcome,
)
    decreases body, 4int, b - i,
{
    if i >= b || i < i64::MIN {
        (m, Outcome::Normal)
    } else {
        let r = block_sem(m.open_scope().bind(var, Val::Int(i as i64)), body);
        let m3 = r.0.close_scope(m);
        if r.1 is Normal {
            for_sem(m3, var, i + 1, b, body)
        } else {
            (m3, r.1)
        }
    }
}

/// Running `for start end var { body }`.
pub open spec fn for_stmt_sem(
    m: Machine,
    start: Token,
    end: Token,
    var: Token,
    body: Seq<ASTstatement>,
) -> (Machine, Outcome)
    decreases body, 5int, 0int,
{
    match m.atom(start) {
        Err(k) => (m, Outcome::Failed(k)),
        Ok(a) => match m.atom(end) {
            Err(k) => (m, Outcome::Failed(k)),
            Ok(b) => match (a, b) {
                (Val::Int(x), Val::Int(y)) => if x > y {
                    (m, Outcome::Failed(RuntimeErrorKind::InvalidLoopBounds))
                } else {
                    for_sem(m, var.text@, x as int, y as int, body)
                },
                _ => (m, Outcome::Failed(RuntimeErrorKind::TypeMismatch)),
            },
        },
    }
}

/// Running one statement outside an `if` chain.
pub open spec fn stmt_sem(m: Machine, s: ASTstatement) -> (Machine, Outcome)
    decreases s, 1int, 0int,
{
    match s {
        ASTstatement::Let { name, ty, value } => match m.let_result(opt_view(ty), value) {
            Ok(v) => (m.bind(name@, v), Outcome::Normal),
            Err(k) => (m, Outcome::Failed(k)),
        },
        ASTstatement::Assign { l_var, r_var } => assign_sem(m, AssignOp::Replace, l_var, r_var),
        ASTstatement::AddAssign { l_var, r_var } => assign_sem(m, AssignOp::Add, l_var, r_var),
        ASTstatement::SubAssign { l_var, r_var } => assign_sem(m, AssignOp::Sub, l_var, r_var),
        ASTstatement::MulAssign { l_var, r_var } => assign_sem(m, AssignOp::Mul, l_var, r_var),
        ASTstatement::DivAssign { l_var, r_var } => assign_sem(m, AssignOp::Div, l_var, r_var),
        ASTstatement::RemAssign { l_var, r_var } => assign_sem(m, AssignOp::Rem, l_var, r_var),
        ASTstatement::Print { value } => print_sem(m, value, false),
        ASTstatement::Println { value } => print_sem(m, value, true),
        ASTstatement::Return { value } => match m.atom(value) {
            Ok(v) => (m, Outcome::Returned(v)),
            Err(k) => (m, Outcome::Failed(k)),
        },
        ASTstatement::For { start, end, value, statements } => for_stmt_sem(
            m,
            start,
            end,
            value,
            statements@,
        ),
        ASTstatement::If { .. } | ASTstatement::ElseIf { .. } | ASTstatement::Else { .. } =>
            branch_sem(m, s),
        ASTstatement::Import { .. } | ASTstatement::Function { .. } => (m, Outcome::Normal),
    }
}

/// Running `stmts[i..]` in the innermost scope: statements in order, one
/// branch of each `if` chain, until the end, a `return` or an error.
pub open spec fn seq_sem(m: Machine, stmts: Seq<ASTstatement>, i: int) -> (Machine, Outcome)
    decreases stmts, 2int, stmts.len() - i,
{
    if i < 0 || i >= stmts.len() {
        (m, Outcome::Normal)
    } else if is_chain(stmts[i]) {
        let end = chain_end(stmts, i);
        let next = if i < end <= stmts.len() { end } else { i + 1 };
        let r = chain_sem(m, stmts, i, next);
        if r.1 is Normal {
            seq_sem(r.0, stmts, next)
        } else {
            r
        }
    } else {
        let r = stmt_sem(m, stmts[i]);
        if r.1 is Normal {
            seq_sem(r.0, stmts, i + 1)
        } else {
            r
        }
    }
}

/// The parameters bound to the arguments, in order.
pub open spec fn bind_params(params: Seq<ASTtypecomp>, args: Seq<Val>) -> Seq<(Seq<char>, Val)> {
    Seq::new(params.len(), |k: int| (params[k].name@, args[k]))
}

pub open spec fn vals(args: Seq<Value>) -> Seq<Val> {
    args.map_values(|v: Value| v@)
}

pub open spec fn result_view(r: Result<Value, RuntimeError>) -> Result<Val, RuntimeErrorKind> {
    match r {
        Ok(v) => Ok(v@),
        Err(e) => Err(e.kind),
    }
}

/// Calling the first top-level function of `program` named `name` with
/// `args`: its body runs in a fresh scope whose parent is the global scope,
/// and falling off the end of a function whose return type is not `void`
/// is an error.
pub open spec fn call_sem(m: Machine, program: Seq<ASTstatement>, name: Seq<char>, args: Seq<Val>) -> (
    Machine,
    Result<Val, RuntimeErrorKind>,
) {
    let idx = find_function(program, name, 0);
    if idx < 0 {
        (m, Err(RuntimeErrorKind::UndefinedFunction))
    } else {
        match program[idx] {
            ASTstatement::Function { args: params, statements, return_type, .. } => if params@.len()
                != args.len() {
                (m, Err(RuntimeErrorKind::ArityMismatch))
            } else {
                let m1 = Machine {
                    env: m.env + bind_params(params@, args),
                    marks: m.marks.push(m.env.len() as usize),
                    base: m.marks.len() as usize,
                    out: m.out,
                };
                let r = seq_sem(m1, statements@, 0);
                let m2 = Machine {
                    env: r.0.env.subrange(0, m.env.len() as int),
                    marks: m.marks,
                    base: m.base,
                    out: r.0.out,
                };
                (
                    m2,
                    match r.1 {
                        Outcome::Failed(k) => Err(k),
                        Outcome::Returned(v) => if return_type@ != "void"@ && v is Void {
                            Err(RuntimeErrorKind::TypeMismatch)
                        } else {
                            Ok(v)
                        },
                        Outcome::Normal => if return_type@ == "void"@ {
                            Ok(Val::Void)
                        } else {
                            Err(RuntimeErrorKind::MissingReturn)
                        },
                    },
                )
            },
            _ => (m, Err(RuntimeErrorKind::UndefinedFunction)),
        }
    }
}

/// Running a program: its top-level statements, then `main` if it has one.
/// `None` is success.
pub open spec fn run_sem(m: Machine, program: Seq<ASTstatement>) -> (Machine, Option<RuntimeErrorKind>) {
    let r = seq_sem(m, program, 0);
    match r.1 {
        Outcome::Failed(k) => (r.0, Some(k)),
        Outcome::Returned(_) => (r.0, None),
        Outcome::Normal => if find_function(program, "main"@, 0) >= 0 {
            let c = call_sem(r.0, program, "main"@, Seq::empty());
            (
                c.0,
                match c.1 {
                    Ok(_) => None,
                    Err(k) => Some(k),
                },
            )
        } else {
            (r.0, None)
        },
    }
}

pub(crate) proof fn lemma_chain_picks(m: Machine, stmts: Seq<ASTstatement>, i: int, end: int, k: int)
    requires
        m.picks(stmts, i, end, k),
        0 <= i,
        end <= stmts.len(),
    ensures
        chain_sem(m, stmts, i, end) == branch_sem(m, stmts[k]),
    decreases k - i,
{
    if i < k {
        assert(m.falls(stmts[i]));
        lemma_chain_picks(m, stmts, i + 1, end, k);
    }
}

pub(crate) proof fn lemma_chain_none(m: Machine, stmts: Seq<ASTstatement>, i: int, end: int)
    requires
        m.picks_none(stmts, i, end),
        0 <= i,
        end <= stmts.len(),
    ensures
        chain_sem(m, stmts, i, end) == (m, Outcome::Normal),
    decreases end - i,
{
    if i < end {
        assert(m.falls(stmts[i]));
        lemma_chain_none(m, stmts, i + 1, end);
    }
}

pub(crate) proof fn lemma_chain_fails(
    m: Machine,
    stmts: Seq<ASTstatement>,
    i: int,
    end: int,
    k: int,
    kind: RuntimeErrorKind,
)
    requires
        0 <= i <= k < end <= stmts.len(),
        forall|j: int| i <= j < k ==> m.falls(#[trigger] stmts[j]),
        stmts[k] is If || stmts[k] is ElseIf,
        m.atom(condition_of(stmts[k])) == Err::<Val, RuntimeErrorKind>(kind),
    ensures
        chain_sem(m, stmts, i, end) == (m, Outcome::Failed(kind)),
    decreases k - i,
{
    if i < k {
        assert(m.falls(stmts[i]));
        lemma_chain_fails(m, stmts, i + 1, end, k, kind);
    }
}

/// At most one branch of an `if` chain runs: the first whose condition
/// holds, or else the trailing `else`.
pub proof fn lemma_one_branch(
    m: Machine,
    stmts: Seq<ASTstatement>,
    i: int,
    end: int,
    k1: int,
    k2: int,
)
    requires
        m.picks(stmts, i, end, k1),
        m.picks(stmts, i, end, k2),
    ensures
        k1 == k2,
        !m.picks_none(stmts, i, end),
{
    if k1 < k2 {
        assert(m.falls(stmts[k1]));
    } else if k2 < k1 {
        assert(m.falls(stmts[k2]));
    }
    assert(!m.falls(stmts[k1]));
}

/// When the `if` condition does not hold and the `else if` condition that
/// follows does, running the chain runs the `else if` branch and no other.
pub proof fn lemma_else_if_runs(m: Machine, stmts: Seq<ASTstatement>, i: int, end: int)
    requires
        0 <= i,
        i + 1 < end <= stmts.len(),
        m.falls(stmts[i]),
        stmts[i + 1] is ElseIf,
        m.atom(condition_of(stmts[i + 1])) matches Ok(v) && truthy(v),
    ensures
        m.picks(stmts, i, end, i + 1),
        forall|k: int| m.picks(stmts, i, end, k) ==> k == i + 1,
        chain_sem(m, stmts, i, end) == branch_sem(m, stmts[i + 1]),
{
    assert forall|k: int| m.picks(stmts, i, end, k) implies k == i + 1 by {
        lemma_one_branch(m, stmts, i, end, k, i + 1);
    }
    lemma_chain_picks(m, stmts, i, end, i + 1);
}

/// A function whose declared return type is not `void` and whose body
/// finishes without `return` fails with a missing return; it never yields
/// a default value.
pub proof fn lemma_missing_return(m: Machine, program: Seq<ASTstatement>, name: Seq<char>, args: Seq<Val>)
    requires
        find_function(program, name, 0) >= 0,
        program[find_function(program, name, 0)] matches ASTstatement::Function {
            args: params,
            statements,
            return_type,
            ..
        } && params@.len() == args.len() && return_type@ != "void"@ && seq_sem(
            Machine {
                env: m.env + bind_params(params@, args),
                marks: m.marks.push(m.env.len() as usize),
                base: m.marks.len() as usize,
                out: m.out,
            },
            statements@,
            0,
        ).1 is Normal,
    ensures
        call_sem(m, program, name, args).1 == Err::<Val, RuntimeErrorKind>(
            RuntimeErrorKind::MissingReturn,
        ),
{
}

/// The token that a statement evaluates first.
pub open spec fn first_read(s: ASTstatement) -> Option<Token> {
    match s {
        ASTstatement::Let { value, .. } => Some(value),
        ASTstatement::Assign { l_var, .. } => Some(l_var),
        ASTstatement::AddAssign { l_var, .. } => Some(l_var),
        ASTstatement::SubAssign { l_var, .. } => Some(l_var),
        ASTstatement::MulAssign { l_var, .. } => Some(l_var),
        ASTstatement::DivAssign { l_var, .. } => Some(l_var),
        ASTstatement::RemAssign { l_var, .. } => Some(l_var),
        ASTstatement::Print { value } => Some(value),
        ASTstatement::Println { value } => Some(value),
        ASTstatement::Return { value } => Some(value),
        ASTstatement::For { start, .. } => Some(start),
        _ => None,
    }
}

/// A statement that first reads a variable that no visible scope binds
/// fails with an undefined-variable error and leaves the state as it was.
pub proof fn lemma_undefined_variable(m: Machine, s: ASTstatement)
    requires
        first_read(s) matches Some(t) && (t.kind is Ident || !(s is Let || s is Print
            || s is Println || s is Return || s is For)) && m.resolve(t.text@) is None,
    ensures
        stmt_sem(m, s) == (m, Outcome::Failed(RuntimeErrorKind::UndefinedVariable)),
{
}

/// An `if` or `else if` whose condition reads a variable that no visible
/// scope binds, reached in its chain, stops the chain with an
/// undefined-variable error and leaves the state as it was.
pub proof fn lemma_undefined_condition(m: Machine, stmts: Seq<ASTstatement>, i: int, end: int, k: int)
    requires
        0 <= i <= k < end <= stmts.len(),
        forall|j: int| i <= j < k ==> m.falls(#[trigger] stmts[j]),
        stmts[k] is If || stmts[k] is ElseIf,
        condition_of(stmts[k]).kind is Ident,
        m.resolve(condition_of(stmts[k]).text@) is None,
    ensures
        chain_sem(m, stmts, i, end) == (m, Outcome::Failed(RuntimeErrorKind::UndefinedVariable)),
{
    lemma_chain_fails(m, stmts, i, end, k, RuntimeErrorKind::UndefinedVariable);
}


} // verus!
