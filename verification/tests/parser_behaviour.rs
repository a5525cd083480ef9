use seddish::address_range::{Address, AddressRange};
use seddish::commands::substitute::{parse_sed_style_replacement_string, SubstituteCommandFactory};
use seddish::commands::transliterate::TransliterateCommandFactory;
use seddish::parser::parsecommand::SubstitutionLikeCommandFactory;
use seddish::parser::{
    parse_multiline_string, parse_singleline_string, parse_string_until_end,
    parse_substitution_style_argument, parse_usize, skip_inline_ws, skip_line, skip_ws_semicolons,
    CommandParsingSpec, NoArgumentSpec, Parser, ParserError, ParserState, ScriptReader, StringEnd,
};
use seddish::program::{BlockType, EvalError, SedProgram};

/// Runs `eval` into a fresh string and hands the text back on success.
fn eval_to(prog: &SedProgram, src: &str) -> Result<String, EvalError> {
    let mut out = String::new();
    prog.eval(src.to_string(), &mut out).map(|_| out)
}


fn parse_err(src: &str) -> ParserError {
    match Parser::new().parse(src) {
        Ok(_) => panic!("script {:?} was accepted", src),
        Err(e) => e,
    }
}

#[test]
fn error_duplicate_label() {
    assert!(matches!(parse_err(":a\n:a"), ParserError::DuplicateLabel(l) if l == "a"));
}

#[test]
fn error_incorrect_argument_count() {
    let mut st = ParserState::new();
    let r = SubstituteCommandFactory.new(&mut st, vec!["a".to_string()], String::new());
    assert!(matches!(r, Err(ParserError::IncorrectArgumentCount)));
    let r = TransliterateCommandFactory.new(&mut st, vec![], String::new());
    assert!(matches!(r, Err(ParserError::IncorrectArgumentCount)));
}

#[test]
fn error_invalid_arguments() {
    assert!(matches!(parse_err("y/abc/de/"), ParserError::InvalidArguments));
}

#[test]
fn error_regex() {
    assert!(matches!(parse_err("s/(/x/"), ParserError::RegexError(_)));
    assert!(matches!(parse_err("/[/p"), ParserError::RegexError(_)));
}

#[test]
fn error_bad_number_literal() {
    assert!(matches!(parse_err("1~x p"), ParserError::BadNumberLiteral));
    assert!(matches!(parse_err("99999999999999999999999999p"), ParserError::BadNumberLiteral));
}

#[test]
fn error_unexpected_eof() {
    assert!(matches!(parse_err("s/a/b"), ParserError::UnexpectedEof));
    assert!(matches!(parse_err("/abc"), ParserError::UnexpectedEof));
    assert!(matches!(parse_err("1{p"), ParserError::UnexpectedEof));
    assert!(matches!(parse_err("\\"), ParserError::UnexpectedEof));
    assert!(matches!(parse_err("s"), ParserError::UnexpectedEof));
}

#[test]
fn error_incomplete_address_range() {
    assert!(matches!(parse_err("1,p"), ParserError::IncompleteAddressRange));
}

#[test]
fn error_unknown_command() {
    assert!(matches!(parse_err("k"), ParserError::UnknownCommand('k')));
    assert!(matches!(Parser::empty().parse("p"), Err(ParserError::UnknownCommand('p'))));
}

#[test]
fn error_unmatched_bracket() {
    assert!(matches!(parse_err("p}"), ParserError::UnmatchedBracket));
}

#[test]
fn error_backslash_and_whitespace_fence() {
    assert!(matches!(parse_err("s\\a\\b\\"), ParserError::BackslashFence));
    assert!(matches!(parse_err("s a b "), ParserError::WhitespaceFence));
}

#[test]
fn error_unknown_flag() {
    assert!(matches!(parse_err("s/a/b/z"), ParserError::UnknownFlag(n, 'z') if n == "substitution"));
    assert!(matches!(parse_err("y/a/b/g"), ParserError::UnknownFlag(n, 'g') if n == "transliteration"));
}

#[test]
fn error_empty_regex() {
    assert!(matches!(parse_err("s//x/"), ParserError::EmptyRegularExpression));
    assert!(matches!(parse_err("//p"), ParserError::EmptyRegularExpression));
}

#[test]
fn comments_are_skipped() {
    let p = Parser::new().parse("# a comment\np # trailing\n#last").unwrap();
    assert_eq!(p.commands.len(), 1);
    assert_eq!(eval_to(&p, "x").unwrap(), "xx");
}

#[test]
fn labels_point_at_next_statement() {
    let p = Parser::new().parse("b end;p;:end;p").unwrap();
    assert_eq!(p.labels.len(), 1);
    assert_eq!(p.labels[0].0, "end");
    assert_eq!(p.labels[0].1, 2);
    assert_eq!(p.label_target("end"), Some(2));
    assert_eq!(p.label_target("nowhere"), None);
}

#[test]
fn parsed_jumps_stay_in_range() {
    let p: SedProgram = "1{p;2{p};p};$!{x}".parse().unwrap();
    let n = p.commands.len();
    let mut jumps = 0;
    for b in &p.commands {
        if let BlockType::BlockBranch(t) = b.command {
            assert!(t <= n);
            jumps += 1;
        }
    }
    assert_eq!(jumps, 3);
    assert!(matches!(p.commands[0].command, BlockType::BlockBranch(5)));
    assert!(matches!(p.commands[0].filter, AddressRange::Single { addr: Address::LineNumber(1), negated: true }));
}

#[test]
fn from_str_matches_parser() {
    let a: SedProgram = "s/a/b/g;p".parse().unwrap();
    let b = Parser::new().parse("s/a/b/g;p").unwrap();
    assert_eq!(a.commands.len(), b.commands.len());
    assert_eq!(eval_to(&a, "aa").unwrap(), eval_to(&b, "aa").unwrap());
}

#[test]
fn address_forms() {
    let p = Parser::new().parse("3~2p;$p;\\,x,p;2,/y/!p").unwrap();
    assert!(matches!(p.commands[0].filter, AddressRange::Single { addr: Address::Step { first: 3, step: 2 }, negated: false }));
    assert!(matches!(p.commands[1].filter, AddressRange::Single { addr: Address::Last, negated: false }));
    assert!(matches!(p.commands[2].filter, AddressRange::Single { addr: Address::Regex(_), negated: false }));
    assert!(matches!(p.commands[3].filter, AddressRange::Range { start: Address::LineNumber(2), end: Address::Regex(_), negated: true }));
    assert!(p.is_well_formed());
    assert!(!Parser::new().parse("1~0p").unwrap().is_well_formed());
}

#[test]
fn add_and_replace_commands() {
    let mut parser = Parser::new();
    assert!(parser.add_command('p', CommandParsingSpec::NoArgument(NoArgumentSpec::Quit)).is_err());
    assert!(parser.add_command('k', CommandParsingSpec::NoArgument(NoArgumentSpec::Print)).is_ok());
    assert_eq!(eval_to(&parser.parse("k").unwrap(), "z").unwrap(), "zz");
    assert!(parser.replace_command('k', CommandParsingSpec::NoArgument(NoArgumentSpec::Delete)).is_ok());
    assert_eq!(eval_to(&parser.parse("k").unwrap(), "z").unwrap(), "");
    let mut empty = Parser::empty();
    assert!(empty.replace_command('p', CommandParsingSpec::NoArgument(NoArgumentSpec::Print)).is_err());
    assert_eq!(empty.lookup('p'), None);
    assert_eq!(parser.lookup('k'), Some(CommandParsingSpec::NoArgument(NoArgumentSpec::Delete)));
}

#[test]
fn string_until_end_escapes() {
    let mut r = ScriptReader::new("a\\nb\\tc\\/d\\qe/rest");
    let s = parse_string_until_end(&mut r, StringEnd::Fence('/')).unwrap();
    assert_eq!(s, "a\nb\tc/d\\qe");
    assert_eq!(r.peek(), Some('r'));
}

#[test]
fn string_until_end_eof() {
    let mut r = ScriptReader::new("abc\\");
    match parse_string_until_end(&mut r, StringEnd::Line) {
        Err((s, ParserError::UnexpectedEof)) => assert_eq!(s, "abc"),
        _ => panic!("expected an end-of-file error"),
    }
    assert_eq!(r.peek(), None);
}

#[test]
fn singleline_and_multiline_arguments() {
    let mut r = ScriptReader::new("  label;x");
    assert_eq!(parse_singleline_string(&mut r), "label");
    assert_eq!(r.peek(), Some('x'));
    let mut r = ScriptReader::new("\ttext; more\nnext");
    assert_eq!(parse_multiline_string(&mut r), "text; more");
    assert_eq!(r.peek(), Some('n'));
}

#[test]
fn fenced_argument() {
    let mut r = ScriptReader::new("ab|cd|");
    assert_eq!(parse_substitution_style_argument(&mut r, '|').unwrap(), "ab");
    assert_eq!(parse_substitution_style_argument(&mut r, '|').unwrap(), "cd");
    assert!(matches!(parse_substitution_style_argument(&mut r, '\\'), Err(ParserError::BackslashFence)));
    assert!(matches!(parse_substitution_style_argument(&mut r, ' '), Err(ParserError::WhitespaceFence)));
}

#[test]
fn numbers() {
    let mut r = ScriptReader::new("0042x");
    assert_eq!(parse_usize(&mut r).unwrap(), 42);
    assert_eq!(r.peek(), Some('x'));
    let mut r = ScriptReader::new("x");
    assert!(matches!(parse_usize(&mut r), Err(ParserError::BadNumberLiteral)));
    let mut r = ScriptReader::new("18446744073709551615;");
    assert_eq!(parse_usize(&mut r).unwrap(), 18446744073709551615usize);
    let mut r = ScriptReader::new("18446744073709551616;");
    assert!(matches!(parse_usize(&mut r), Err(ParserError::BadNumberLiteral)));
}

#[test]
fn whitespace_skipping() {
    let mut r = ScriptReader::new(" \t\n;;# c\n ;p");
    skip_ws_semicolons(&mut r);
    assert_eq!(r.peek(), Some('p'));
    let mut r = ScriptReader::new(" \t\r\n;");
    skip_inline_ws(&mut r);
    assert_eq!(r.peek(), Some(';'));
    let mut r = ScriptReader::new("# comment\nq");
    skip_line(&mut r);
    assert_eq!(r.peek(), Some('q'));
}

#[test]
fn replacement_string_parsing() {
    let t = parse_sed_style_replacement_string("a\\1b\\0c\\x");
    assert_eq!(t.literal_text(), "abc\\x");
    assert_eq!(t.insertions(), vec![(1, 1), (2, 0)]);
    let plain = parse_sed_style_replacement_string("plain");
    assert_eq!(plain.literal_text(), "plain");
    assert!(plain.insertions().is_empty());
}

#[test]
fn inverted_range_twice_is_identity() {
    let r = AddressRange::Single { addr: Address::Last, negated: false };
    let once = r.inverted().unwrap();
    assert!(matches!(once, AddressRange::Single { addr: Address::Last, negated: true }));
    let twice = once.inverted().unwrap();
    assert!(matches!(twice, AddressRange::Single { addr: Address::Last, negated: false }));
    assert!(AddressRange::All.inverted().is_none());
}

#[test]
fn rejected_fence_consumes_nothing() {
    let mut r = ScriptReader::new("foo/bar");
    assert!(matches!(parse_substitution_style_argument(&mut r, '\\'), Err(ParserError::BackslashFence)));
    assert_eq!(r.peek(), Some('f'));
    assert!(matches!(parse_substitution_style_argument(&mut r, ' '), Err(ParserError::WhitespaceFence)));
    assert_eq!(r.peek(), Some('f'));
    assert_eq!(parse_substitution_style_argument(&mut r, '/').unwrap(), "foo");
    assert_eq!(r.peek(), Some('b'));
}

#[test]
fn unterminated_field_stops_at_end() {
    let mut r = ScriptReader::new("foo");
    assert!(matches!(parse_substitution_style_argument(&mut r, '/'), Err(ParserError::UnexpectedEof)));
    assert_eq!(r.peek(), None);
}

#[test]
fn number_error_positions() {
    let mut r = ScriptReader::new("x1");
    assert!(matches!(parse_usize(&mut r), Err(ParserError::BadNumberLiteral)));
    assert_eq!(r.peek(), Some('x'));
    let mut r = ScriptReader::new("99999999999999999999999p");
    assert!(matches!(parse_usize(&mut r), Err(ParserError::BadNumberLiteral)));
    assert_eq!(r.peek(), Some('p'));
}

#[test]
fn block_jumps_point_forward() {
    let p = Parser::new().parse("1{p;2{p};p};p").unwrap();
    for (j, b) in p.commands.iter().enumerate() {
        if let BlockType::BlockBranch(t) = b.command {
            assert!(j < t && t <= p.commands.len());
        }
    }
}
