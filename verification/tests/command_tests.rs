use deet::command::{Command, parse_address, parse_dec, tokenize};

fn toks(line: &str) -> Vec<String> {
    tokenize(line)
}

#[test]
fn tokenize_splits_on_whitespace() {
    assert_eq!(toks("run a b"), vec!["run", "a", "b"]);
    assert_eq!(toks("  break   main  "), vec!["break", "main"]);
    assert_eq!(toks(""), Vec::<String>::new());
    assert_eq!(toks("   \t  "), Vec::<String>::new());
    assert_eq!(toks("\tq\n"), vec!["q"]);
    // Non-ASCII whitespace separates tokens too.
    assert_eq!(toks("a\u{00A0}b"), vec!["a", "b"]);
    assert_eq!(toks("break\u{2003}main"), vec!["break", "main"]);
}

#[test]
fn run_and_synonym_keep_arguments() {
    match Command::from_tokens(&toks("run --fast 7")) {
        Some(Command::Run(args)) => assert_eq!(args, vec!["--fast", "7"]),
        other => panic!("expected Run, got {:?}", other.is_some()),
    }
    match Command::from_tokens(&toks("r")) {
        Some(Command::Run(args)) => assert!(args.is_empty()),
        _ => panic!("expected Run"),
    }
}

#[test]
fn continue_synonyms() {
    for line in ["continue", "cont", "c"] {
        assert!(matches!(Command::from_tokens(&toks(line)), Some(Command::Continue)));
    }
}

#[test]
fn backtrace_synonyms() {
    for line in ["backtrace", "back", "bt"] {
        assert!(matches!(Command::from_tokens(&toks(line)), Some(Command::Backtrace)));
    }
}

#[test]
fn quit_synonyms() {
    for line in ["quit", "q"] {
        assert!(matches!(Command::from_tokens(&toks(line)), Some(Command::Quit)));
    }
}

#[test]
fn breakpoint_takes_its_target() {
    match Command::from_tokens(&toks("break *0x401130")) {
        Some(Command::Breakpoint(t)) => assert_eq!(t, "*0x401130"),
        _ => panic!("expected Breakpoint"),
    }
    match Command::from_tokens(&toks("b main")) {
        Some(Command::Breakpoint(t)) => assert_eq!(t, "main"),
        _ => panic!("expected Breakpoint"),
    }
    assert!(Command::from_tokens(&toks("break")).is_none());
}

#[test]
fn unrecognized_commands_are_none() {
    assert!(Command::from_tokens(&toks("")).is_none());
    assert!(Command::from_tokens(&toks("step")).is_none());
    assert!(Command::from_tokens(&toks("Run")).is_none());
}

#[test]
fn parse_address_accepts_optional_prefix() {
    assert_eq!(parse_address("0x400abc"), Some(0x400abc));
    assert_eq!(parse_address("400abc"), Some(0x400abc));
    assert_eq!(parse_address("0X400ABC"), Some(0x400abc));
    assert_eq!(parse_address("0x401130"), Some(0x401130));
    assert_eq!(parse_address("0"), Some(0));
}

#[test]
fn parse_address_rejects_junk() {
    assert_eq!(parse_address(""), None);
    assert_eq!(parse_address("0x"), None);
    assert_eq!(parse_address("zz"), None);
    assert_eq!(parse_address("12g4"), None);
    // One hex digit beyond what a 64-bit word can hold.
    assert_eq!(parse_address("10000000000000000"), None);
    assert_eq!(parse_address("ffffffffffffffff"), Some(usize::MAX));
}

#[test]
fn parse_dec_is_exact() {
    assert_eq!(parse_dec("42"), Some(42));
    assert_eq!(parse_dec("0"), Some(0));
    assert_eq!(parse_dec(""), None);
    assert_eq!(parse_dec("4a"), None);
    assert_eq!(parse_dec("-3"), None);
    assert_eq!(parse_dec("18446744073709551615"), Some(usize::MAX));
    assert_eq!(parse_dec("18446744073709551616"), None);
}
