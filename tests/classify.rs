use drako::args::{classify, classify_token, interpret, parse_mode, Invocation, TokenKind};

fn toks(v: &[&str]) -> Vec<String> {
    v.iter().map(|s| s.to_string()).collect()
}

#[test]
fn test_permission_variations() {
    let cases = [("000", 0o000), ("7", 0o007), ("755", 0o755), ("777", 0o777)];
    for (perm, expected) in cases {
        let token = format!("-{}", perm);
        assert_eq!(parse_mode(&token), Some(expected), "Permission {} mismatch", perm);
        let parsed = classify(&toks(&[&format!("perm_{}", perm), &token]));
        assert_eq!(parsed.permission_mode, Some(expected));
        assert!(parsed.flags.is_empty());
    }
}

#[test]
fn every_octal_token_parses_to_its_value() {
    for value in 0u32..0o1000 {
        for width in 1..=3usize {
            let digits = format!("{:0width$o}", value, width = width);
            if digits.len() > 3 {
                continue;
            }
            let token = format!("-{}", digits);
            assert_eq!(parse_mode(&token), Some(value));
            assert_eq!(classify_token(&token), TokenKind::Mode(value));
        }
    }
}

#[test]
fn non_octal_short_tokens_are_flags() {
    for token in ["-999", "-8", "-79", "-108", "-9"] {
        assert_eq!(parse_mode(token), None);
        assert_eq!(classify_token(token), TokenKind::Flag);
    }
}

#[test]
fn malformed_mode_tokens_are_flags() {
    for token in ["-7777", "-", "--", "--7", "-a", "-g", "-7a", "-do"] {
        assert_eq!(parse_mode(token), None, "{}", token);
        assert_eq!(classify_token(token), TokenKind::Flag, "{}", token);
    }
    assert_eq!(parse_mode("755"), None);
}

#[test]
fn token_kinds() {
    assert_eq!(classify_token("project"), TokenKind::Directory);
    assert_eq!(classify_token(""), TokenKind::Directory);
    assert_eq!(classify_token("a/-b"), TokenKind::Directory);
    assert_eq!(classify_token("--verbose"), TokenKind::Verbose);
    assert_eq!(classify_token("-v"), TokenKind::Verbose);
    assert_eq!(classify_token("--git"), TokenKind::Flag);
    assert_eq!(classify_token("-0"), TokenKind::Mode(0));
}

#[test]
fn classify_keeps_order_and_repeats() {
    let parsed = classify(&toks(&["a", "-755", "--git", "b", "-700", "a", "-g", "-v", "--git"]));
    assert_eq!(parsed.directories, toks(&["a", "b", "a"]));
    assert_eq!(parsed.flags, toks(&["--git", "-g", "--git"]));
    assert_eq!(parsed.permission_mode, Some(0o700));
    assert!(parsed.verbose);
}

#[test]
fn classify_without_mode_or_verbose() {
    let parsed = classify(&toks(&["x", "--bogus-flag", "-", "--"]));
    assert_eq!(parsed.directories, toks(&["x"]));
    assert_eq!(parsed.flags, toks(&["--bogus-flag", "-", "--"]));
    assert_eq!(parsed.permission_mode, None);
    assert!(!parsed.verbose);
}

#[test]
fn test_verbose_output() {
    let parsed = classify(&toks(&["verbose-test", "--readme", "--git", "--verbose", "-755"]));
    assert!(parsed.verbose);
    assert_eq!(parsed.permission_mode, Some(0o755));
    assert_eq!(parsed.flags, toks(&["--readme", "--git"]));
    assert_eq!(parsed.directories, toks(&["verbose-test"]));
}

#[test]
fn test_help_and_version() {
    let help = interpret(&toks(&["--help"]));
    assert!(matches!(help, Invocation::Help));
    assert_eq!(help.exit_code(), 0);
    let version = interpret(&toks(&["--version"]));
    assert!(matches!(version, Invocation::Version));
    assert_eq!(version.exit_code(), 0);
}

#[test]
fn help_wins_anywhere() {
    assert!(matches!(interpret(&toks(&["x", "--git", "-h"])), Invocation::Help));
    assert!(matches!(interpret(&toks(&["--version", "x", "--help"])), Invocation::Help));
    assert!(matches!(interpret(&toks(&["x", "--version"])), Invocation::Version));
}

#[test]
fn test_no_arguments() {
    let inv = interpret(&Vec::new());
    assert!(matches!(inv, Invocation::Usage));
    assert_eq!(inv.exit_code(), 1);
}

#[test]
fn flags_only_fail() {
    let inv = interpret(&toks(&["--git", "-755", "--verbose"]));
    assert!(matches!(inv, Invocation::NoDirectories));
    assert_eq!(inv.exit_code(), 1);
}

#[test]
fn directories_run() {
    let inv = interpret(&toks(&["newproj", "--readme", "-755"]));
    assert_eq!(inv.exit_code(), 0);
    match inv {
        Invocation::Run(parsed) => {
            assert_eq!(parsed.directories, toks(&["newproj"]));
            assert_eq!(parsed.flags, toks(&["--readme"]));
            assert_eq!(parsed.permission_mode, Some(0o755));
        }
        _ => panic!("expected a run"),
    }
}
