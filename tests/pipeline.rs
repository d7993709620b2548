use nukleus::ast::{ASTmemoryspace, ASTstatement};
use nukleus::interpreter::{run_interpreter_environment, run_source, Interpreter, NkError};
use nukleus::semantics::{RuntimeErrorKind, Value};
use nukleus::lexer::lex;
use nukleus::parser::{parse, Expected};
use nukleus::token::{LexErrorKind, TokenKind};

fn runtime_kind(src: &str) -> RuntimeErrorKind {
    match run_source(src) {
        Err(NkError::Runtime(e)) => e.kind,
        other => panic!("expected a runtime error, got {:?}", other),
    }
}

fn program(src: &str) -> Vec<ASTstatement> {
    parse(&lex(src).unwrap()).unwrap()
}

#[test]
fn let_then_print() {
    assert_eq!(run_source("let x : int = 3;\nprint x;").unwrap(), "3");
}

#[test]
fn add_assign_then_println() {
    assert_eq!(run_source("let x : int = 3; x += 4; println x;").unwrap(), "7\n");
}

#[test]
fn for_loop_excludes_end() {
    assert_eq!(run_source("for 0 5 i { print i; }").unwrap(), "01234");
}

#[test]
fn for_loop_empty_and_reversed_bounds() {
    assert_eq!(run_source("for 3 3 i { print i; }").unwrap(), "");
    assert_eq!(runtime_kind("for 5 0 i { print i; }"), RuntimeErrorKind::InvalidLoopBounds);
    assert_eq!(runtime_kind("for \"a\" 3 i { print i; }"), RuntimeErrorKind::TypeMismatch);
}

#[test]
fn for_loop_variable_is_scoped() {
    assert_eq!(runtime_kind("for 0 2 i { print i; } print i;"), RuntimeErrorKind::UndefinedVariable);
    assert_eq!(run_source("let s : int = 0; for 1 4 i { s += i; } print s;").unwrap(), "6");
}

#[test]
fn else_if_runs_alone() {
    let src = "if false { print 1; } else if true { print 2; } else { print 3; }";
    assert_eq!(run_source(src).unwrap(), "2");
    assert_eq!(run_source("if true { print 1; } else if true { print 2; }").unwrap(), "1");
    assert_eq!(run_source("if 0 { print 1; } else { print 3; }").unwrap(), "3");
    assert_eq!(run_source("if \"\" { print 1; } print 9;").unwrap(), "9");
}

#[test]
fn missing_return_is_an_error() {
    assert_eq!(runtime_kind("fn main() -> int { print 1; }"), RuntimeErrorKind::MissingReturn);
    assert_eq!(run_source("public fn main() -> void { print 1; }").unwrap(), "1");
    assert_eq!(run_source("fn main() -> int { return 4; }").unwrap(), "");
}

#[test]
fn call_function_binds_arguments() {
    let prog = program("fn twice(n : int) -> int { n *= 2; return n; }");
    let mut it = Interpreter::new();
    let name = String::from("twice");
    assert_eq!(it.call_function(&prog, &name, &vec![Value::Int(21)]).unwrap(), Value::Int(42));
    let err = it.call_function(&prog, &name, &vec![]).unwrap_err();
    assert_eq!(err.kind, RuntimeErrorKind::ArityMismatch);
    let other = String::from("thrice");
    let err = it.call_function(&prog, &other, &vec![]).unwrap_err();
    assert_eq!(err.kind, RuntimeErrorKind::UndefinedFunction);
}

#[test]
fn main_sees_globals() {
    let src = "let g : int = 1; fn main() -> void { println g; if true { let h : int = 2; f2 = h; } }";
    assert_eq!(runtime_kind(src), RuntimeErrorKind::UndefinedVariable);
    assert_eq!(run_source("let g : int = 1; fn main() -> void { g += 1; println g; }").unwrap(), "2\n");
}

#[test]
fn undefined_variable_in_each_statement() {
    for src in [
        "print y;",
        "println y;",
        "let x : int = y;",
        "y = 1;",
        "let x : int = 1; x += y;",
        "if y { print 1; }",
        "if false { } else if y { }",
        "for 0 y i { }",
        "for y 3 i { }",
        "fn main() -> int { return y; }",
    ] {
        assert_eq!(runtime_kind(src), RuntimeErrorKind::UndefinedVariable, "{}", src);
    }
    assert_eq!(run_source("let y : int = 5; print y;").unwrap(), "5");
}

#[test]
fn type_rules() {
    assert_eq!(runtime_kind("let x : int = \"a\";"), RuntimeErrorKind::TypeMismatch);
    assert_eq!(runtime_kind("let x : float = 1;"), RuntimeErrorKind::UnknownType);
    assert_eq!(runtime_kind("let x : int = 1; x = true;"), RuntimeErrorKind::TypeMismatch);
    assert_eq!(runtime_kind("let x : bool = true; x -= 1;"), RuntimeErrorKind::TypeMismatch);
    assert_eq!(run_source("let s : string = \"ab\"; s += \"cd\"; print s;").unwrap(), "abcd");
    assert_eq!(run_source("let b : bool = false; print b;").unwrap(), "false");
}

#[test]
fn arithmetic() {
    assert_eq!(run_source("let x : int = 0; x -= 5; print x;").unwrap(), "-5");
    assert_eq!(run_source("let x : int = 7; x *= 6; print x;").unwrap(), "42");
    assert_eq!(run_source("let x : int = 0; x -= 7; x /= 2; print x;").unwrap(), "-3");
    assert_eq!(run_source("let x : int = 0; x -= 7; x %= 2; print x;").unwrap(), "-1");
    assert_eq!(runtime_kind("let x : int = 1; x /= 0;"), RuntimeErrorKind::DivisionByZero);
    assert_eq!(runtime_kind("let x : int = 1; x %= 0;"), RuntimeErrorKind::DivisionByZero);
    assert_eq!(
        runtime_kind("let x : int = 9223372036854775807; x += 1;"),
        RuntimeErrorKind::Overflow
    );
    assert_eq!(runtime_kind("print 9223372036854775808;"), RuntimeErrorKind::Overflow);
    assert_eq!(run_source("print 9223372036854775807;").unwrap(), "9223372036854775807");
}

#[test]
fn lexing_is_lossless() {
    let src = "// greeting\nlet  x : int = 42;\n\tprint x; // done\n";
    let toks = lex(src).unwrap();
    let chars: Vec<char> = src.chars().collect();
    let mut rebuilt = String::new();
    let mut from = 0;
    for t in &toks {
        rebuilt.extend(&chars[from..t.start]);
        rebuilt.push_str(&t.text);
        from = t.end;
    }
    rebuilt.extend(&chars[from..]);
    assert_eq!(rebuilt, src);
    assert_eq!(toks.last().unwrap().kind, TokenKind::Eof);
}

#[test]
fn lexer_kinds_and_greedy_operators() {
    let toks = lex("function f -> x += 1 - 2 fnx \"s t\" true").unwrap();
    let kinds: Vec<TokenKind> = toks.iter().map(|t| t.kind).collect();
    assert_eq!(
        kinds,
        vec![
            TokenKind::KwFn,
            TokenKind::Ident,
            TokenKind::Arrow,
            TokenKind::Ident,
            TokenKind::AddAssign,
            TokenKind::Int,
            TokenKind::Minus,
            TokenKind::Int,
            TokenKind::Ident,
            TokenKind::Str,
            TokenKind::Bool,
            TokenKind::Eof,
        ]
    );
    assert_eq!(toks[9].text, "\"s t\"");
    assert_eq!((toks[2].start, toks[2].end), (11, 13));
}

#[test]
fn lexer_errors() {
    let e = lex("let x = 3 @;").unwrap_err();
    assert_eq!((e.kind, e.pos), (LexErrorKind::UnexpectedChar, 10));
    let e = lex("print \"abc\n\";").unwrap_err();
    assert_eq!((e.kind, e.pos), (LexErrorKind::UnterminatedString, 6));
    assert!(matches!(run_source("print #;"), Err(NkError::Lex(_))));
}

#[test]
fn parser_errors() {
    let e = parse(&lex("let = 3;").unwrap()).unwrap_err();
    assert_eq!((e.at, e.expected, e.found), (1, Expected::Kind(TokenKind::Ident), TokenKind::Assign));
    let e = parse(&lex("print 1; else { }").unwrap()).unwrap_err();
    assert_eq!(e.expected, Expected::PrecedingIf);
    let e = parse(&lex("if x { print x;").unwrap()).unwrap_err();
    assert_eq!((e.expected, e.found), (Expected::Kind(TokenKind::RBrace), TokenKind::Eof));
    let e = parse(&lex("x ; 3;").unwrap()).unwrap_err();
    assert_eq!(e.expected, Expected::AssignOp);
    let e = parse(&lex("print ;").unwrap()).unwrap_err();
    assert_eq!(e.expected, Expected::Value);
    assert!(matches!(run_source("}"), Err(NkError::Parse(_))));
}

#[test]
fn statement_text_forms() {
    let prog = program(
        "import io; public fn f(a : int, b : str) -> void { let x : int = 3; x %= a; } \
         for 0 2 i { println i; } if c { return 1; } else if d { } else { print \"s\"; }",
    );
    let texts: Vec<String> = prog.iter().map(|s| s.to_string()).collect();
    assert_eq!(
        texts,
        vec![
            "import io".to_string(),
            "public function f(a : int, b : str) -> void {\nlet x : int = 3\nx %= a\n}".to_string(),
            "for 0 2 i {\nprintln i\n}".to_string(),
            "if c {\nreturn 1\n}".to_string(),
            "else if d {\n\n}".to_string(),
            "else {\nprint \"s\"\n}".to_string(),
        ]
    );
}

#[test]
fn text_form_parses_back() {
    let src = "fn f(a : int) -> int { let y = a; y -= 1; return y; } let x : int = 3; \
               x /= 2; if x { for 0 x i { print i; } } else if false { } else { println x; } x = 4;";
    let prog = program(src);
    let text: Vec<String> = prog.iter().map(|s| s.to_string()).collect();
    let again = program(&text.join("\n"));
    let text_again: Vec<String> = again.iter().map(|s| s.to_string()).collect();
    assert_eq!(text, text_again);
    assert_eq!(prog.len(), again.len());
}

#[test]
fn sessions_are_independent() {
    assert_eq!(runtime_kind("let a : int = 1; print b;"), RuntimeErrorKind::UndefinedVariable);
    assert_eq!(run_source("let b : int = 2; print b;").unwrap(), "2");
    let mut it = run_interpreter_environment();
    assert_eq!(it.output(), "");
    let first = program("let v : int = 1; print v;");
    it.run(&first).unwrap();
    let bad = program("print w;");
    assert!(it.run(&bad).is_err());
    let second = program("v += 1; print v;");
    it.run(&second).unwrap();
    assert_eq!(it.output(), "12");
}

#[test]
fn empty_program() {
    assert_eq!(run_source("").unwrap(), "");
    assert_eq!(run_source("  // nothing\n").unwrap(), "");
}

#[test]
fn lookup_reports_memory_space() {
    let mut it = Interpreter::new();
    let prog = program("let g : int = 1;");
    it.run(&prog).unwrap();
    let g = String::from("g");
    assert_eq!(it.lookup(&g), Some((0, ASTmemoryspace::Global)));
    assert_eq!(it.lookup(&String::from("h")), None);
}

#[test]
fn block_scopes_and_returns() {
    assert_eq!(
        runtime_kind("if true { let t : int = 1; } print t;"),
        RuntimeErrorKind::UndefinedVariable
    );
    assert_eq!(run_source("let a : int = 1; if true { a += 1; } print a;").unwrap(), "2");
    let src = "fn main() -> int { for 0 10 i { if i { return i; } print i; } }";
    assert_eq!(run_source(src).unwrap(), "0");
    assert_eq!(run_source("print 1; return 2; print 3;").unwrap(), "1");
}

#[test]
fn terminators_are_optional() {
    assert_eq!(run_source("let x : int = 3\nprint x").unwrap(), "3");
    assert_eq!(run_source("let x = 1 x += 2 println x").unwrap(), "3\n");
    let prog = program("let y = 2");
    assert_eq!(prog[0].to_string(), "let y = 2");
}

#[test]
fn comments_run_to_line_end() {
    let toks = lex("//ab x").unwrap();
    assert_eq!(toks.len(), 1);
    assert_eq!(toks[0].kind, TokenKind::Eof);
    assert!(lex("//@").is_ok());
    let toks = lex("// c\nx").unwrap();
    assert_eq!((toks[0].kind, toks[0].start), (TokenKind::Ident, 5));
}
