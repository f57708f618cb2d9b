use vstd::prelude::*;
use vstd::string::{StrSliceExecFns, StringExecFns};

use crate::templates::{
    docker_content, mit_content, readme_content, DOCKERFILE_TEXT, LICENSE_TEXT, README_TEXT,
};
use crate::text::same_text;

verus! {

/// A file that an action writes into the target directory.
#[derive(PartialEq, Eq, Structural, Clone, Copy, Debug)]
pub enum Template {
    Readme,
    License,
    Dockerfile,
}

/// Name of the file a template is written to, relative to the target directory.
pub open spec fn template_file(t: Template) -> Seq<char> {
    match t {
        Template::Readme => "README.md"@,
        Template::License => "LICENSE"@,
        Template::Dockerfile => "Dockerfile"@,
    }
}

/// Content written for a template.
pub open spec fn template_text(t: Template) -> Seq<char> {
    match t {
        Template::Readme => README_TEXT@,
        Template::License => LICENSE_TEXT@,
        Template::Dockerfile => DOCKERFILE_TEXT@,
    }
}

impl Template {
    /// Name of the file this template is written to.
    pub fn file_name(&self) -> (r: &'static str)
        ensures
            r@ == template_file(*self),
    {
        match self {
            Template::Readme => "README.md",
            Template::License => "LICENSE",
            Template::Dockerfile => "Dockerfile",
        }
    }

    /// Content written for this template.
    pub fn content(&self) -> (r: String)
        ensures
            r@ == template_text(*self),
    {
        match self {
            Template::Readme => readme_content(),
            Template::License => mit_content(),
            Template::Dockerfile => docker_content(),
        }
    }
}

/// The effect of an initialization action on one directory.
#[derive(PartialEq, Eq, Clone, Debug)]
pub enum Action {
    /// A shell command line, run with the target directory as working directory.
    Shell(String),
    /// A template file written into the target directory, replacing any file there.
    Write(Template),
}

/// Mathematical form of an [`Action`].
pub enum ActionView {
    Shell(Seq<char>),
    Write(Template),
}

impl View for Action {
    type V = ActionView;

    open spec fn view(&self) -> ActionView {
        match self {
            Action::Shell(c) => ActionView::Shell(c@),
            Action::Write(t) => ActionView::Write(*t),
        }
    }
}

/// A path without its trailing `/` characters.
pub open spec fn trim_trailing_slashes(s: Seq<char>) -> Seq<char>
    decreases s.len(),
{
    if s.len() > 0 && s.last() == '/' {
        trim_trailing_slashes(s.drop_last())
    } else {
        s
    }
}

/// The text after the last `/` of `s`, or all of `s` when it holds no `/`.
pub open spec fn after_last_slash(s: Seq<char>) -> Seq<char>
    decreases s.len(),
{
    if s.len() == 0 {
        s
    } else if s.last() == '/' {
        Seq::empty()
    } else {
        after_last_slash(s.drop_last()).push(s.last())
    }
}

/// The last component of a directory path, a trailing `/` ignored:
/// `proj` for `a/b/proj` and for `/tmp/proj/`.
pub open spec fn base_name(dir: Seq<char>) -> Seq<char> {
    after_last_slash(trim_trailing_slashes(dir))
}

/// Single-quoted form of `s` for a POSIX shell: each `'` becomes `'\''`.
pub open spec fn quote_body(s: Seq<char>) -> Seq<char>
    decreases s.len(),
{
    if s.len() == 0 {
        s
    } else if s.last() == '\'' {
        quote_body(s.drop_last()) + seq!['\'', '\\', '\'', '\'']
    } else {
        quote_body(s.drop_last()).push(s.last())
    }
}

/// `s` as one word of a POSIX shell command line, whatever it holds.
pub open spec fn shell_quoted(s: Seq<char>) -> Seq<char> {
    seq!['\''] + quote_body(s) + seq!['\'']
}

/// The last component of the path `dir`, a trailing `/` ignored.
pub fn directory_base_name(dir: &str) -> (r: &str)
    ensures
        r@ == base_name(dir@),
{
    let n = dir.unicode_len();
    let mut end: usize = n;
    assert(dir@.take(n as int) =~= dir@);
    while end > 0 && dir.get_char(end - 1) == '/'
        invariant
            n == dir@.len(),
            end <= n,
            trim_trailing_slashes(dir@) == trim_trailing_slashes(dir@.take(end as int)),
        decreases end,
    {
        assert(dir@.take(end as int).drop_last() =~= dir@.take(end - 1));
        end -= 1;
    }
    let ghost t = dir@.take(end as int);
    assert(trim_trailing_slashes(t) == t);
    let mut start: usize = end;
    assert(t.take(end as int) =~= t);
    assert(base_name(dir@) =~= after_last_slash(t.take(start as int)) + t.subrange(start as int, end as int));
    while start > 0 && dir.get_char(start - 1) != '/'
        invariant
            n == dir@.len(),
            start <= end <= n,
            t == dir@.take(end as int),
            base_name(dir@) == after_last_slash(t.take(start as int)) + t.subrange(
                start as int,
                end as int,
            ),
        decreases start,
    {
        proof {
            let p = t.take(start as int);
            assert(p.drop_last() =~= t.take(start - 1));
            assert(p.last() == dir@[start - 1]);
            assert(after_last_slash(t.take(start - 1)).push(p.last()) + t.subrange(
                start as int,
                end as int,
            ) =~= after_last_slash(t.take(start - 1)) + t.subrange(start - 1, end as int));
        }
        start -= 1;
    }
    assert(after_last_slash(t.take(start as int)) =~= Seq::<char>::empty());
    assert(t.subrange(start as int, end as int) =~= dir@.subrange(start as int, end as int));
    dir.substring_char(start, end)
}

/// Quotes `s` as one word for a POSIX shell.
pub fn shell_quote(s: &str) -> (r: String)
    ensures
        r@ == shell_quoted(s@),
{
    let n = s.unicode_len();
    let mut out = String::from_str("'");
    proof {
        reveal_strlit("'");
        reveal_strlit("'\\''");
    }
    let mut i: usize = 0;
    while i < n
        invariant
            n == s@.len(),
            i <= n,
            out@ == seq!['\''] + quote_body(s@.take(i as int)),
            "'"@ == seq!['\''],
            "'\\''"@ == seq!['\'', '\\', '\'', '\''],
        decreases n - i,
    {
        let ghost before = out@;
        proof {
            let p = s@.take(i as int + 1);
            assert(p.drop_last() =~= s@.take(i as int));
            assert(p.last() == s@[i as int]);
        }
        if s.get_char(i) == '\'' {
            out.append("'\\''");
            assert(out@ =~= seq!['\''] + quote_body(s@.take(i as int + 1)));
        } else {
            let c = s.substring_char(i, i + 1);
            out.append(c);
            assert(c@ =~= seq![s@[i as int]]);
            assert(out@ =~= seq!['\''] + quote_body(s@.take(i as int + 1)));
        }
        i += 1;
    }
    assert(s@.take(n as int) =~= s@);
    out.append("'");
    out
}

/// Whether `flag` is one of the spellings `names`.
pub open spec fn spelled(flag: Seq<char>, names: Seq<Seq<char>>) -> bool {
    names.contains(flag)
}

/// The action a flag selects for directory `dir`, if the flag is known. A Go
/// module is named after the directory's last path component.
pub open spec fn action_for(flag: Seq<char>, dir: Seq<char>) -> Option<ActionView> {
    if spelled(flag, seq!["--git"@, "-g"@]) {
        Some(ActionView::Shell("git init"@))
    } else if spelled(flag, seq!["--npm"@, "-n"@]) {
        Some(ActionView::Shell("npm init -y"@))
    } else if spelled(flag, seq!["--bun"@, "-b"@]) {
        Some(ActionView::Shell("bun init"@))
    } else if spelled(flag, seq!["--yarn"@, "-y"@]) {
        Some(ActionView::Shell("yarn init -y"@))
    } else if spelled(flag, seq!["--pnpm"@, "-p"@]) {
        Some(ActionView::Shell("pnpm init"@))
    } else if spelled(flag, seq!["--deno"@, "-d"@]) {
        Some(ActionView::Shell("deno init"@))
    } else if spelled(flag, seq!["--cargo"@, "-c"@]) {
        Some(ActionView::Shell("cargo init"@))
    } else if spelled(flag, seq!["--go"@, "-go"@]) {
        Some(ActionView::Shell("go mod init "@ + shell_quoted(base_name(dir))))
    } else if spelled(flag, seq!["--readme"@, "-r"@]) {
        Some(ActionView::Write(Template::Readme))
    } else if spelled(flag, seq!["--license"@, "-l"@, "--mit"@]) {
        Some(ActionView::Write(Template::License))
    } else if spelled(flag, seq!["--docker"@, "-do"@]) {
        Some(ActionView::Write(Template::Dockerfile))
    } else {
        None
    }
}

/// Whether `flag` is `a` or `b`.
fn is_one_of(flag: &str, a: &str, b: &str) -> (r: bool)
    ensures
        r == spelled(flag@, seq![a@, b@]),
{
    let r = same_text(flag, a) || same_text(flag, b);
    proof {
        if flag@ == a@ {
            assert(seq![a@, b@][0] == a@);
        }
        if flag@ == b@ {
            assert(seq![a@, b@][1] == b@);
        }
    }
    r
}

/// Looks up the action that `flag` selects for the directory `dir`; `None` for an
/// unknown flag.
pub fn lookup(flag: &str, dir: &str) -> (r: Option<Action>)
    ensures
        match r {
            Some(a) => action_for(flag@, dir@) == Some(a@),
            None => action_for(flag@, dir@) is None,
        },
{
    if is_one_of(flag, "--git", "-g") {
        Some(Action::Shell(String::from_str("git init")))
    } else if is_one_of(flag, "--npm", "-n") {
        Some(Action::Shell(String::from_str("npm init -y")))
    } else if is_one_of(flag, "--bun", "-b") {
        Some(Action::Shell(String::from_str("bun init")))
    } else if is_one_of(flag, "--yarn", "-y") {
        Some(Action::Shell(String::from_str("yarn init -y")))
    } else if is_one_of(flag, "--pnpm", "-p") {
        Some(Action::Shell(String::from_str("pnpm init")))
    } else if is_one_of(flag, "--deno", "-d") {
        Some(Action::Shell(String::from_str("deno init")))
    } else if is_one_of(flag, "--cargo", "-c") {
        Some(Action::Shell(String::from_str("cargo init")))
    } else if is_one_of(flag, "--go", "-go") {
        let module = shell_quote(directory_base_name(dir));
        Some(Action::Shell(String::from_str("go mod init ").concat(module.as_str())))
    } else if is_one_of(flag, "--readme", "-r") {
        Some(Action::Write(Template::Readme))
    } else if is_one_of(flag, "--license", "-l") || same_text(flag, "--mit") {
        proof {
            let names = seq!["--license"@, "-l"@, "--mit"@];
            if flag@ == "--mit"@ {
                assert(names[2] == flag@);
            } else {
                let k = choose|k: int| 0 <= k < 2 && seq!["--license"@, "-l"@][k] == flag@;
                assert(names[k] == flag@);
            }
        }
        Some(Action::Write(Template::License))
    } else if is_one_of(flag, "--docker", "-do") {
        Some(Action::Write(Template::Dockerfile))
    } else {
        proof {
            let names = seq!["--license"@, "-l"@, "--mit"@];
            if names.contains(flag@) {
                let k = choose|k: int| 0 <= k < 3 && names[k] == flag@;
                if k < 2 {
                    assert(seq!["--license"@, "-l"@][k] == flag@);
                }
            }
        }
        None
    }
}

} // verus!
