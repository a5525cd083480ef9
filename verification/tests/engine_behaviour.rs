use seddish::parser::Parser;
use seddish::program::{EvalError, SedEffect, SedProgram};

/// Runs `eval` into a fresh string and hands the text back on success.
fn eval_to(prog: &SedProgram, src: &str) -> Result<String, EvalError> {
    let mut out = String::new();
    prog.eval(src.to_string(), &mut out).map(|_| out)
}


fn program(src: &str) -> SedProgram {
    Parser::new().parse(src).unwrap()
}

/// Runs the program over all lines, collecting the printed texts; file
/// requests are recorded as `w:<path>:<text>` and `r:<path>`.
fn run_lines(src: &str, lines: &[&str]) -> Vec<String> {
    let prog = program(src);
    assert!(prog.is_well_formed());
    let mut doc = prog.document(true);
    let mut out = Vec::new();
    let mut next = 0;
    'lines: while next < lines.len() {
        let l = lines[next];
        next += 1;
        let mut line = doc.line(l.to_string(), next == lines.len());
        while let Some(eff) = line.next_effect() {
            match eff {
                SedEffect::Error(e) => panic!("{}", e.message()),
                SedEffect::Quit => break 'lines,
                SedEffect::Print(p) => out.push(p),
                SedEffect::WriteFile(p, t) => out.push(format!("w:{}:{}", p, t)),
                SedEffect::RequestReadFileAppend(p) => out.push(format!("r:{}", p)),
                SedEffect::RequestNextLineAppended => {
                    let n = if next < lines.len() { next += 1; Some(lines[next - 1]) } else { None };
                    line.append_next_line(n);
                },
                SedEffect::NextLineKeepingStateState => {
                    let n = if next < lines.len() { next += 1; Some(lines[next - 1]) } else { None };
                    line.replace_with_next_line(n);
                },
            }
        }
        doc = line.into_document();
    }
    out
}

#[test]
fn eval_single_line() {
    assert_eq!(eval_to(&program("s/a/b/"), "aaa").unwrap(), "baa");
    assert_eq!(eval_to(&program("s/a/b/g"), "aaa").unwrap(), "bbb");
    assert_eq!(eval_to(&program("p"), "x").unwrap(), "xx");
}

#[test]
fn empty_program_echoes_input() {
    assert_eq!(eval_to(&program(""), "hello world").unwrap(), "hello world");
    assert_eq!(run_lines("", &["a", "b"]), vec!["a", "b"]);
}

#[test]
fn label_not_found_is_an_error() {
    let prog = program("b nowhere");
    let mut line = prog.document(true).line("x".to_string(), true);
    match line.next_effect() {
        Some(SedEffect::Error(EvalError::LabelNotFound(l))) => assert_eq!(l, "nowhere"),
        _ => panic!("expected a missing label"),
    }
    assert!(matches!(eval_to(&prog, "x"), Err(EvalError::LabelNotFound(_))));
}

#[test]
fn instruction_limit_stops_infinite_loops() {
    let prog = program(":a;ba");
    let mut line = prog.document(true).line("x".to_string(), true);
    assert!(matches!(line.next_effect_limited(10), Err(EvalError::InfiniteLoop)));
}

#[test]
fn limited_and_unlimited_agree() {
    let prog = program("s/a/b/;p");
    let mut l1 = prog.document(true).line("abc".to_string(), true);
    let mut l2 = prog.document(true).line("abc".to_string(), true);
    let a = l1.next_effect_limited(100).unwrap();
    let b = l2.next_effect();
    match (a, b) {
        (Some(SedEffect::Print(x)), Some(SedEffect::Print(y))) => {
            assert_eq!(x, "bbc");
            assert_eq!(x, y);
        },
        _ => panic!("expected two prints"),
    }
    assert_eq!(l1.pattern(), l2.pattern());
}

#[test]
fn replace_without_input_prints_then_ends() {
    let prog = program("n;p");
    let mut line = prog.document(true).line("x".to_string(), true);
    assert!(matches!(line.next_effect(), Some(SedEffect::NextLineKeepingStateState)));
    line.replace_with_next_line(None);
    assert!(matches!(line.next_effect(), Some(SedEffect::Print(p)) if p == "x"));
    assert!(line.next_effect().is_none());
    assert!(line.next_effect().is_none());
}

#[test]
fn append_without_input_prints_then_ends() {
    let prog = program("N;p");
    let mut line = prog.document(true).line("x".to_string(), true);
    assert!(matches!(line.next_effect(), Some(SedEffect::RequestNextLineAppended)));
    line.append_next_line(None);
    assert!(matches!(line.next_effect(), Some(SedEffect::Print(p)) if p == "x"));
    assert!(line.next_effect().is_none());
    let prog = program("N;p");
    let mut line = prog.document(false).line("x".to_string(), true);
    assert!(matches!(line.next_effect(), Some(SedEffect::RequestNextLineAppended)));
    line.append_next_line(None);
    assert!(line.next_effect().is_none());
}

#[test]
fn line_numbers_and_hold_space_carry_over() {
    assert_eq!(run_lines("=", &["a", "b"]), vec!["1", "a", "2", "b"]);
    assert_eq!(run_lines("x", &["a", "b", "c"]), vec!["", "a", "b"]);
    let prog = program("h");
    let doc = prog.document(true);
    let mut line = doc.line("kept".to_string(), false);
    while line.next_effect().is_some() {}
    let doc = line.into_document();
    assert_eq!(doc.hold(), "kept");
    assert_eq!(doc.line_index(), 1);
}

#[test]
fn ranges_include_both_ends() {
    assert_eq!(run_lines("2,3p", &["1", "2", "3", "4"]), vec!["1", "2", "2", "3", "3", "4"]);
    assert_eq!(run_lines("/b/,/c/d", &["a", "b", "x", "c", "d"]), vec!["a", "d"]);
    assert_eq!(run_lines("0,/a/d", &["a", "b"]), vec!["b"]);
    assert_eq!(run_lines("2,3!d", &["1", "2", "3", "4"]), vec!["2", "3"]);
}

#[test]
fn step_addresses() {
    assert_eq!(run_lines("1~2d", &["1", "2", "3", "4", "5"]), vec!["2", "4"]);
    assert_eq!(run_lines("3~2d", &["1", "2", "3", "4", "5"]), vec!["4"]);
}

#[test]
fn file_effects() {
    assert_eq!(run_lines("w out.txt", &["a"]), vec!["w:out.txt:a", "a"]);
    assert_eq!(run_lines("N;W first.txt", &["a", "b"]), vec!["w:first.txt:a", "a\nb"]);
    assert_eq!(run_lines("r in.txt", &["a"]), vec!["r:in.txt", "a"]);
}

#[test]
fn exchange_twice_restores() {
    assert_eq!(eval_to(&program("x;x"), "abc").unwrap(), "abc");
}

#[test]
fn hold_commands() {
    assert_eq!(run_lines("H;$!d;x", &["a", "b"]), vec!["\na\nb"]);
    assert_eq!(run_lines("h;s/a/b/;G", &["a"]), vec!["b\na"]);
    assert_eq!(run_lines("1h;2g", &["a", "b"]), vec!["a", "a"]);
}

#[test]
fn delete_first_line_restarts() {
    assert_eq!(run_lines("N;P;D", &["a", "b", "c"]), vec!["a", "b", "c"]);
    assert_eq!(run_lines("$!N;D", &["a", "b"]), vec!["b"]);
}

#[test]
fn quit_variants() {
    assert_eq!(run_lines("2q", &["a", "b", "c"]), vec!["a", "b"]);
    assert_eq!(run_lines("2Q", &["a", "b", "c"]), vec!["a"]);
}

#[test]
fn substitution_flags() {
    assert_eq!(eval_to(&program("s/A/x/gi"), "aAa").unwrap(), "xxx");
    assert_eq!(eval_to(&program("s/A/x/g"), "aAa").unwrap(), "axa");
    assert_eq!(eval_to(&program("s/é/e/g"), "été").unwrap(), "ete");
    assert_eq!(eval_to(&program("s/(b)(c)?/[\\2\\1\\9]/"), "abd").unwrap(), "a[b]d");
}

#[test]
fn no_match_keeps_pattern_and_flag() {
    assert_eq!(run_lines("s/z/y/;t;p", &["abc"]), vec!["abc", "abc"]);
    assert_eq!(run_lines("s/a/y/;t;p", &["abc"]), vec!["ybc"]);
}

#[test]
fn transliteration() {
    assert_eq!(eval_to(&program("y/abc/xyz/"), "aabbcc").unwrap(), "xxyyzz");
    assert_eq!(eval_to(&program("y/aa/xy/"), "a").unwrap(), "x");
    assert_eq!(eval_to(&program("y/é/è/"), "été").unwrap(), "ètè");
    assert!(Parser::new().parse("y/é/e/").is_err());
}

#[test]
fn change_insert_append() {
    assert_eq!(eval_to(&program("c new"), "old").unwrap(), "new");
    assert_eq!(eval_to(&program("i before"), "x").unwrap(), "before\nx");
    assert_eq!(eval_to(&program("a after"), "x").unwrap(), "x\nafter");
}

#[test]
fn error_messages() {
    assert_eq!(EvalError::LabelNotFound("l".to_string()).message(), "Label not found: 'l'");
    assert_eq!(EvalError::InfiniteLoop.message(), "Infinite loop limit triggered");
    assert_eq!(EvalError::Utf8Error.message(), "Error with UTF-8 string formatting");
    let io = EvalError::IoError(std::io::Error::new(std::io::ErrorKind::Other, "boom"));
    assert_eq!(io.message(), "OS I/O error: boom");
}

#[test]
fn eval_keeps_output_written_before_an_error() {
    let prog = program("p;b nowhere");
    let mut out = String::from(">");
    let r = prog.eval("a".to_string(), &mut out);
    assert!(matches!(r, Err(EvalError::LabelNotFound(l)) if l == "nowhere"));
    assert_eq!(out, ">a");
}

#[test]
fn eval_appends_to_existing_output() {
    let mut out = String::from("x:");
    assert!(program("s/a/b/").eval("aa".to_string(), &mut out).is_ok());
    assert_eq!(out, "x:ba");
}

#[test]
fn quit_without_printing_prints_nothing() {
    let prog = program("Q");
    let mut line = prog.document(true).line("a".to_string(), true);
    assert!(matches!(line.next_effect(), Some(SedEffect::Quit)));
    assert_eq!(run_lines("Q", &["a", "b"]), Vec::<String>::new());
    assert_eq!(run_lines("p;Q", &["a", "b"]), vec!["a".to_string()]);
    assert_eq!(eval_to(&program("Q"), "a").unwrap(), "");
}

#[test]
fn quit_prints_the_pattern_first() {
    assert_eq!(run_lines("q", &["a", "b"]), vec!["a".to_string()]);
}
