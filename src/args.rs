use vstd::prelude::*;
use vstd::string::StrSliceExecFns;

use crate::text::{same_text, texts};

verus! {

/// An ASCII digit from `0` to `7`.
pub open spec fn is_octal_digit(c: char) -> bool {
    '0' <= c && c <= '7'
}

/// Base-8 value of a sequence of octal digits, most significant digit first.
pub open spec fn octal_value(digits: Seq<char>) -> nat
    decreases digits.len(),
{
    if digits.len() == 0 {
        0
    } else {
        8 * octal_value(digits.drop_last()) + ((digits.last() as u32 - '0' as u32) as nat)
    }
}

/// `8` raised to `n`.
pub open spec fn octal_bound(n: nat) -> nat
    decreases n,
{
    if n == 0 {
        1
    } else {
        8 * octal_bound((n - 1) as nat)
    }
}

/// A permission token: a dash followed by one to three octal digits.
pub open spec fn is_mode_token(t: Seq<char>) -> bool {
    &&& 2 <= t.len() <= 4
    &&& t[0] == '-'
    &&& forall|i: int| 1 <= i < t.len() ==> is_octal_digit(#[trigger] t[i])
}

/// The permission mode a token denotes, if it is a permission token.
pub open spec fn mode_of(t: Seq<char>) -> Option<u32> {
    if is_mode_token(t) {
        Some(octal_value(t.drop_first()) as u32)
    } else {
        None
    }
}

/// Octal digits have a value below `8` raised to their count.
pub proof fn lemma_octal_value_bound(digits: Seq<char>)
    requires
        forall|i: int| 0 <= i < digits.len() ==> is_octal_digit(#[trigger] digits[i]),
    ensures
        octal_value(digits) < octal_bound(digits.len()),
    decreases digits.len(),
{
    if digits.len() > 0 {
        let rest = digits.drop_last();
        assert forall|i: int| 0 <= i < rest.len() implies is_octal_digit(#[trigger] rest[i]) by {
            assert(rest[i] == digits[i]);
        }
        lemma_octal_value_bound(rest);
        assert(is_octal_digit(digits[digits.len() - 1]));
    }
}

/// A permission token denotes a 9-bit mode, the exact base-8 value of its digits.
pub proof fn lemma_mode_is_nine_bits(t: Seq<char>)
    requires
        is_mode_token(t),
    ensures
        octal_value(t.drop_first()) < 512,
        mode_of(t) == Some(octal_value(t.drop_first()) as u32),
{
    let d = t.drop_first();
    assert forall|i: int| 0 <= i < d.len() implies is_octal_digit(#[trigger] d[i]) by {
        assert(d[i] == t[i + 1]);
    }
    lemma_octal_value_bound(d);
    assert(octal_bound(0) == 1);
    assert(octal_bound(1) == 8);
    assert(octal_bound(2) == 64);
    assert(octal_bound(3) == 512);
}

/// Reads a permission token such as `-755`, `-7` or `-000`; any other token gives `None`.
pub fn parse_mode(token: &str) -> (r: Option<u32>)
    ensures
        r == mode_of(token@),
        r matches Some(m) ==> m < 512,
{
    let n = token.unicode_len();
    if n < 2 || n > 4 {
        return None;
    }
    if token.get_char(0) != '-' {
        return None;
    }
    let mut value: u32 = 0;
    let mut i: usize = 1;
    while i < n
        invariant
            n == token@.len(),
            2 <= n <= 4,
            1 <= i <= n,
            token@[0] == '-',
            forall|k: int| 1 <= k < i ==> is_octal_digit(#[trigger] token@[k]),
            value == octal_value(token@.subrange(1, i as int)),
            value < octal_bound((i - 1) as nat),
            octal_bound((i - 1) as nat) <= 512,
        decreases n - i,
    {
        let c = token.get_char(i);
        if c < '0' || c > '7' {
            return None;
        }
        proof {
            let s = token@.subrange(1, i as int + 1);
            assert(s.drop_last() =~= token@.subrange(1, i as int));
            assert(s.last() == c);
            assert(octal_bound(0) == 1);
            assert(octal_bound(1) == 8);
            assert(octal_bound(2) == 64);
            assert(octal_bound(3) == 512);
        }
        value = value * 8 + (c as u32 - '0' as u32);
        i += 1;
    }
    assert(token@.subrange(1, n as int) =~= token@.drop_first());
    proof {
        lemma_mode_is_nine_bits(token@);
    }
    Some(value)
}

/// How one command-line token is read.
#[derive(PartialEq, Eq, Structural, Clone, Copy, Debug)]
pub enum TokenKind {
    /// A target directory: any token that does not begin with `-`.
    Directory,
    /// `--verbose` or `-v`.
    Verbose,
    /// A permission token, with the mode it denotes.
    Mode(u32),
    /// Anything else: an action flag, known or not.
    Flag,
}

/// Whether a token switches on detailed reporting.
pub open spec fn is_verbose_token(t: Seq<char>) -> bool {
    t == "--verbose"@ || t == "-v"@
}

/// How a token is read, first rule that applies wins.
pub open spec fn token_kind(t: Seq<char>) -> TokenKind {
    if t.len() == 0 || t[0] != '-' {
        TokenKind::Directory
    } else if is_verbose_token(t) {
        TokenKind::Verbose
    } else if is_mode_token(t) {
        TokenKind::Mode(octal_value(t.drop_first()) as u32)
    } else {
        TokenKind::Flag
    }
}

/// Classifies one token.
pub fn classify_token(token: &str) -> (r: TokenKind)
    ensures
        r == token_kind(token@),
{
    if token.unicode_len() == 0 || token.get_char(0) != '-' {
        return TokenKind::Directory;
    }
    if same_text(token, "--verbose") || same_text(token, "-v") {
        return TokenKind::Verbose;
    }
    match parse_mode(token) {
        Some(m) => TokenKind::Mode(m),
        None => TokenKind::Flag,
    }
}

/// The directories named by a token list, in order, repeats kept.
pub open spec fn directories_of(toks: Seq<Seq<char>>) -> Seq<Seq<char>> {
    toks.filter(|t: Seq<char>| token_kind(t) is Directory)
}

/// The action flags of a token list, verbatim and in order, repeats kept.
pub open spec fn flags_of(toks: Seq<Seq<char>>) -> Seq<Seq<char>> {
    toks.filter(|t: Seq<char>| token_kind(t) is Flag)
}

/// The mode of the last permission token in the list, if there is one.
pub open spec fn last_mode(toks: Seq<Seq<char>>) -> Option<u32>
    decreases toks.len(),
{
    if toks.len() == 0 {
        None
    } else {
        match token_kind(toks.last()) {
            TokenKind::Mode(m) => Some(m),
            _ => last_mode(toks.drop_last()),
        }
    }
}

/// Whether some token of the list asks for detailed reporting.
pub open spec fn has_verbose(toks: Seq<Seq<char>>) -> bool {
    exists|i: int| 0 <= i < toks.len() && is_verbose_token(#[trigger] toks[i])
}

/// The command-line tokens sorted into their roles.
pub struct ParsedArgs {
    pub directories: Vec<String>,
    pub flags: Vec<String>,
    pub permission_mode: Option<u32>,
    pub verbose: bool,
}

impl ParsedArgs {
    /// Whether these are the roles of the tokens `toks`.
    pub open spec fn classifies(&self, toks: Seq<Seq<char>>) -> bool {
        &&& texts(self.directories@) == directories_of(toks)
        &&& texts(self.flags@) == flags_of(toks)
        &&& self.permission_mode == last_mode(toks)
        &&& self.verbose == has_verbose(toks)
    }
}

/// Sorts the tokens (program name excluded) into directories, flags, permission
/// mode and verbosity; never fails.
pub fn classify(tokens: &Vec<String>) -> (r: ParsedArgs)
    ensures
        r.classifies(texts(tokens@)),
{
    let ghost toks = texts(tokens@);
    let mut directories: Vec<String> = Vec::new();
    let mut flags: Vec<String> = Vec::new();
    let mut permission_mode: Option<u32> = None;
    let mut verbose = false;
    let mut i: usize = 0;
    while i < tokens.len()
        invariant
            toks == texts(tokens@),
            i <= tokens.len(),
            texts(directories@) == directories_of(toks.take(i as int)),
            texts(flags@) == flags_of(toks.take(i as int)),
            permission_mode == last_mode(toks.take(i as int)),
            verbose == has_verbose(toks.take(i as int)),
        decreases tokens.len() - i,
    {
        let token = &tokens[i];
        let ghost prefix = toks.take(i as int);
        let ghost next = toks.take(i as int + 1);
        proof {
            assert(next.drop_last() =~= prefix);
            assert(next.last() == token@);
            reveal(Seq::filter);
            assert(directories_of(next) == if token_kind(token@) is Directory {
                directories_of(prefix).push(token@)
            } else {
                directories_of(prefix)
            });
            assert(flags_of(next) == if token_kind(token@) is Flag {
                flags_of(prefix).push(token@)
            } else {
                flags_of(prefix)
            });
        }
        match classify_token(token.as_str()) {
            TokenKind::Directory => {
                let ghost before = directories@;
                directories.push(token.clone());
                proof {
                    assert(texts(directories@) =~= texts(before).push(token@));
                }
            },
            TokenKind::Verbose => {
                verbose = true;
            },
            TokenKind::Mode(m) => {
                permission_mode = Some(m);
            },
            TokenKind::Flag => {
                let ghost before = flags@;
                flags.push(token.clone());
                proof {
                    assert(texts(flags@) =~= texts(before).push(token@));
                }
            },
        }
        proof {
            if has_verbose(next) && !has_verbose(prefix) {
                let k = choose|k: int| 0 <= k < next.len() && is_verbose_token(#[trigger] next[k]);
                assert(k == i);
            }
            if has_verbose(prefix) {
                let k = choose|k: int| 0 <= k < prefix.len() && is_verbose_token(#[trigger] prefix[k]);
                assert(next[k] == prefix[k]);
            }
            reveal_strlit("--verbose");
            reveal_strlit("-v");
            if is_verbose_token(token@) {
                assert(token_kind(token@) is Verbose);
            }
            if token_kind(token@) is Verbose {
                assert(is_verbose_token(next[i as int]));
            }
        }
        i += 1;
    }
    assert(toks.take(tokens.len() as int) =~= toks);
    ParsedArgs { directories, flags, permission_mode, verbose }
}

/// Whether one of the tokens is exactly `s`.
pub open spec fn mentions(toks: Seq<Seq<char>>, s: Seq<char>) -> bool {
    exists|i: int| 0 <= i < toks.len() && toks[i] == s
}

/// Whether help was asked for anywhere on the command line.
pub open spec fn wants_help(toks: Seq<Seq<char>>) -> bool {
    mentions(toks, "--help"@) || mentions(toks, "-h"@)
}

/// Whether the version was asked for anywhere on the command line.
pub open spec fn wants_version(toks: Seq<Seq<char>>) -> bool {
    mentions(toks, "--version"@)
}

/// Whether some token is exactly `s`.
fn mentions_text(tokens: &Vec<String>, s: &str) -> (r: bool)
    ensures
        r == mentions(texts(tokens@), s@),
{
    let ghost toks = texts(tokens@);
    let mut i: usize = 0;
    while i < tokens.len()
        invariant
            toks == texts(tokens@),
            i <= tokens.len(),
            forall|k: int| 0 <= k < i ==> toks[k] != s@,
        decreases tokens.len() - i,
    {
        if same_text(tokens[i].as_str(), s) {
            assert(toks[i as int] == s@);
            return true;
        }
        i += 1;
    }
    false
}

/// What one run of the tool is asked to do.
pub enum Invocation {
    /// No arguments at all: show usage and fail.
    Usage,
    /// Show help and succeed, touching no directory.
    Help,
    /// Show the version and succeed, touching no directory.
    Version,
    /// Only flags were given: report it, show usage and fail.
    NoDirectories,
    /// Provision the classified directories.
    Run(ParsedArgs),
}

impl Invocation {
    /// The process exit status for this invocation.
    pub open spec fn status(&self) -> i32 {
        if self is Usage || self is NoDirectories {
            1
        } else {
            0
        }
    }

    /// The process exit status for this invocation; failures while provisioning
    /// directories never change it.
    pub fn exit_code(&self) -> (r: i32)
        ensures
            r == self.status(),
    {
        match self {
            Invocation::Usage | Invocation::NoDirectories => 1,
            _ => 0,
        }
    }
}

/// Exit status of the tool on the tokens `toks`: failure when there are no
/// tokens, or when only flags were given and neither help nor version was asked
/// for; success otherwise, whatever happens to the directories.
pub open spec fn run_status(toks: Seq<Seq<char>>) -> i32 {
    if toks.len() == 0 {
        1
    } else if wants_help(toks) || wants_version(toks) {
        0
    } else if directories_of(toks).len() == 0 {
        1
    } else {
        0
    }
}

/// Decides what to do with the command-line tokens (program name excluded): help
/// and version win over everything else, and a run needs at least one directory.
pub fn interpret(tokens: &Vec<String>) -> (r: Invocation)
    ensures
        ({
            let toks = texts(tokens@);
            &&& r is Usage <==> toks.len() == 0
            &&& r is Help <==> toks.len() > 0 && wants_help(toks)
            &&& r is Version <==> toks.len() > 0 && !wants_help(toks) && wants_version(toks)
            &&& r is NoDirectories <==> toks.len() > 0 && !wants_help(toks) && !wants_version(toks)
                && directories_of(toks).len() == 0
            &&& r is Run ==> r->Run_0.classifies(toks) && directories_of(toks).len() > 0
            &&& r.status() == run_status(toks)
        }),
{
    if tokens.len() == 0 {
        return Invocation::Usage;
    }
    if mentions_text(tokens, "--help") || mentions_text(tokens, "-h") {
        return Invocation::Help;
    }
    if mentions_text(tokens, "--version") {
        return Invocation::Version;
    }
    let parsed = classify(tokens);
    if parsed.directories.len() == 0 {
        Invocation::NoDirectories
    } else {
        Invocation::Run(parsed)
    }
}

} // verus!
