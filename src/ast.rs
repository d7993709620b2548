use vstd::prelude::*;
use crate::text::{push_str, string_of};
use crate::token::Token;

verus! {

/// Where a variable lives: the global scope, or a scope opened by a block or
/// a function call.
#[derive(Clone, Copy, Debug, PartialEq, Eq, Structural, Hash)]
pub enum ASTmemoryspace {
    Global,
    Local,
}

/// A parameter of a function: its name and its type name.
#[derive(Clone, Debug, PartialEq, Eq, Hash)]
pub struct ASTtypecomp {
    pub name: String,
    pub ty: String,
}

/// One statement of the language. Nested statement sequences keep source
/// order, which is the order of execution. Values are single tokens.
#[derive(Debug, PartialEq, Eq)]
pub enum ASTstatement {
    Import { name: String },
    Function {
        public: bool,
        name: String,
        args: Vec<ASTtypecomp>,
        statements: Vec<ASTstatement>,
        return_type: String,
    },
    Let { name: String, ty: Option<String>, value: Token },
    Assign { l_var: Token, r_var: Token },
    AddAssign { l_var: Token, r_var: Token },
    SubAssign { l_var: Token, r_var: Token },
    MulAssign { l_var: Token, r_var: Token },
    DivAssign { l_var: Token, r_var: Token },
    RemAssign { l_var: Token, r_var: Token },
    If { condition: Token, statements: Vec<ASTstatement> },
    ElseIf { condition: Token, statements: Vec<ASTstatement> },
    Else { statements: Vec<ASTstatement> },
    For { start: Token, end: Token, value: Token, statements: Vec<ASTstatement> },
    Print { value: Token },
    Println { value: Token },
    Return { value: Token },
}

/// The parameter list of a function, `name : type` separated by `, `.
pub open spec fn render_args(args: Seq<ASTtypecomp>) -> Seq<char>
    decreases args.len(),
{
    if args.len() == 0 {
        Seq::empty()
    } else if args.len() == 1 {
        args[0].name@ + " : "@ + args[0].ty@
    } else {
        render_args(args.drop_last()) + ", "@ + args.last().name@ + " : "@
            + args.last().ty@
    }
}

/// The statements, one per line.
pub open spec fn render_lines(v: Seq<ASTstatement>) -> Seq<char>
    decreases v,
{
    if v.len() == 0 {
        Seq::empty()
    } else if v.len() == 1 {
        render(v[0])
    } else {
        render_lines(v.drop_last()) + "\n"@ + render(v.last())
    }
}

/// A braced block of statements.
pub open spec fn render_block(v: Seq<ASTstatement>) -> Seq<char> {
    "{\n"@ + render_lines(v) + "\n}"@
}

/// An assignment `l <op> r`.
pub open spec fn render_assign(l: Token, op: Seq<char>, r: Token) -> Seq<char> {
    l.text@ + " "@ + op + " "@ + r.text@
}

/// The textual form of a statement, in the language's own concrete syntax.
pub open spec fn render(s: ASTstatement) -> Seq<char>
    decreases s,
{
    match s {
        ASTstatement::Import { name } => "import "@ + name@,
        ASTstatement::Function { public, name, args, statements, return_type } => {
            (if public { "public "@ } else { Seq::empty() }) + "function "@ + name@ + "("@
                + render_args(args@) + ") -> "@ + return_type@ + " "@ + "{\n"@ + render_lines(statements@) + "\n}"@
        },
        ASTstatement::Let { name, ty, value } => {
            "let "@ + name@ + (match ty {
                Some(t) => " : "@ + t@,
                None => Seq::empty(),
            }) + " = "@ + value.text@
        },
        ASTstatement::Assign { l_var, r_var } => render_assign(l_var, "="@, r_var),
        ASTstatement::AddAssign { l_var, r_var } => render_assign(l_var, "+="@, r_var),
        ASTstatement::SubAssign { l_var, r_var } => render_assign(l_var, "-="@, r_var),
        ASTstatement::MulAssign { l_var, r_var } => render_assign(l_var, "*="@, r_var),
        ASTstatement::DivAssign { l_var, r_var } => render_assign(l_var, "/="@, r_var),
        ASTstatement::RemAssign { l_var, r_var } => render_assign(l_var, "%="@, r_var),
        ASTstatement::If { condition, statements } => "if "@ + condition.text@ + " "@
            + "{\n"@ + render_lines(statements@) + "\n}"@,
        ASTstatement::ElseIf { condition, statements } => "else if "@ + condition.text@
            + " "@ + "{\n"@ + render_lines(statements@) + "\n}"@,
        ASTstatement::Else { statements } => "else "@ + "{\n"@ + render_lines(statements@) + "\n}"@,
        ASTstatement::For { start, end, value, statements } => "for "@ + start.text@ + " "@
            + end.text@ + " "@ + value.text@ + " "@ + "{\n"@ + render_lines(statements@) + "\n}"@,
        ASTstatement::Print { value } => "print "@ + value.text@,
        ASTstatement::Println { value } => "println "@ + value.text@,
        ASTstatement::Return { value } => "return "@ + value.text@,
    }
}

fn render_args_into(args: &Vec<ASTtypecomp>, out: &mut Vec<char>)
    ensures
        final(out)@ == old(out)@ + render_args(args@),
{
    let mut i: usize = 0;
    while i < args.len()
        invariant
            0 <= i <= args@.len(),
            out@ == old(out)@ + render_args(args@.subrange(0, i as int)),
        decreases args@.len() - i,
    {
        let ghost before = out@;
        if i > 0 {
            push_str(out, ", ");
        }
        push_str(out, args[i].name.as_str());
        push_str(out, " : ");
        push_str(out, args[i].ty.as_str());
        let ghost done = args@.subrange(0, i + 1);
        assert(done.drop_last() =~= args@.subrange(0, i as int));
        i = i + 1;
        assert(out@ =~= old(out)@ + render_args(args@.subrange(0, i as int)));
    }
    assert(args@.subrange(0, args@.len() as int) =~= args@);
}

fn render_block_into(stmts: &Vec<ASTstatement>, out: &mut Vec<char>)
    ensures
        final(out)@ == old(out)@ + render_block(stmts@),
    decreases stmts,
{
    push_str(out, "{\n");
    let mut i: usize = 0;
    while i < stmts.len()
        invariant
            0 <= i <= stmts@.len(),
            out@ == old(out)@ + "{\n"@ + render_lines(stmts@.subrange(0, i as int)),
        decreases stmts@.len() - i,
    {
        proof {
            vstd::std_specs::vec::axiom_vec_index_decreases(*stmts, i as int);
        }
        if i > 0 {
            push_str(out, "\n");
        }
        stmts[i].render_into(out);
        let ghost done = stmts@.subrange(0, i + 1);
        assert(done.drop_last() =~= stmts@.subrange(0, i as int));
        i = i + 1;
        assert(out@ =~= old(out)@ + "{\n"@ + render_lines(stmts@.subrange(0, i as int)));
    }
    assert(stmts@.subrange(0, stmts@.len() as int) =~= stmts@);
    push_str(out, "\n}");
    assert(out@ =~= old(out)@ + render_block(stmts@));
}

fn render_assign_into(l: &Token, op: &str, r: &Token, out: &mut Vec<char>)
    ensures
        final(out)@ == old(out)@ + render_assign(*l, op@, *r),
{
    push_str(out, l.text.as_str());
    push_str(out, " ");
    push_str(out, op);
    push_str(out, " ");
    push_str(out, r.text.as_str());
    assert(out@ =~= old(out)@ + render_assign(*l, op@, *r));
}

impl ASTstatement {
    /// Appends the textual form of this statement to `out`.
    pub fn render_into(&self, out: &mut Vec<char>)
        ensures
            final(out)@ == old(out)@ + render(*self),
        decreases self,
    {
        let ghost start = out@;
        match self {
            ASTstatement::Import { name } => {
                push_str(out, "import ");
                push_str(out, name.as_str());
            },
            ASTstatement::Function { public, name, args, statements, return_type } => {
                if *public {
                    push_str(out, "public ");
                }
                push_str(out, "function ");
                push_str(out, name.as_str());
                push_str(out, "(");
                render_args_into(args, out);
                push_str(out, ") -> ");
                push_str(out, return_type.as_str());
                push_str(out, " ");
                render_block_into(statements, out);
            },
            ASTstatement::Let { name, ty, value } => {
                push_str(out, "let ");
                push_str(out, name.as_str());
                match ty {
                    Some(t) => {
                        push_str(out, " : ");
                        push_str(out, t.as_str());
                    },
                    None => {},
                }
                push_str(out, " = ");
                push_str(out, value.text.as_str());
            },
            ASTstatement::Assign { l_var, r_var } => render_assign_into(l_var, "=", r_var, out),
            ASTstatement::AddAssign { l_var, r_var } => render_assign_into(l_var, "+=", r_var, out),
            ASTstatement::SubAssign { l_var, r_var } => render_assign_into(l_var, "-=", r_var, out),
            ASTstatement::MulAssign { l_var, r_var } => render_assign_into(l_var, "*=", r_var, out),
            ASTstatement::DivAssign { l_var, r_var } => render_assign_into(l_var, "/=", r_var, out),
            ASTstatement::RemAssign { l_var, r_var } => render_assign_into(l_var, "%=", r_var, out),
            ASTstatement::If { condition, statements } => {
                push_str(out, "if ");
                push_str(out, condition.text.as_str());
                push_str(out, " ");
                render_block_into(statements, out);
            },
            ASTstatement::ElseIf { condition, statements } => {
                push_str(out, "else if ");
                push_str(out, condition.text.as_str());
                push_str(out, " ");
                render_block_into(statements, out);
            },
            ASTstatement::Else { statements } => {
                push_str(out, "else ");
                render_block_into(statements, out);
            },
            ASTstatement::For { start, end, value, statements } => {
                push_str(out, "for ");
                push_str(out, start.text.as_str());
                push_str(out, " ");
                push_str(out, end.text.as_str());
                push_str(out, " ");
                push_str(out, value.text.as_str());
                push_str(out, " ");
                render_block_into(statements, out);
            },
            ASTstatement::Print { value } => {
                push_str(out, "print ");
                push_str(out, value.text.as_str());
            },
            ASTstatement::Println { value } => {
                push_str(out, "println ");
                push_str(out, value.text.as_str());
            },
            ASTstatement::Return { value } => {
                push_str(out, "return ");
                push_str(out, value.text.as_str());
            },
        }
        assert(out@ =~= start + render(*self));
    }

    /// The textual form of this statement, in the language's own concrete
    /// syntax.
    pub fn to_string(&self) -> (r: String)
        ensures
            r@ == render(*self),
    {
        let mut out: Vec<char> = Vec::new();
        self.render_into(&mut out);
        assert(out@ =~= render(*self));
        string_of(&out)
    }
}

} // verus!
