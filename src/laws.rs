use vstd::prelude::*;

use crate::args::{
    directories_of, is_octal_digit, last_mode, mode_of, octal_value, run_status, token_kind,
    wants_help, wants_version, TokenKind, lemma_mode_is_nine_bits,
};
use crate::pipeline::{mode_steps, planned_steps, provision_outcome, step_for, ProvisionView, StepView};
use crate::registry::action_for;

verus! {

/// Paths present after creating `d` together with its missing parents: `d` itself
/// and each prefix of it that ends just before a `/`.
pub open spec fn made_by(d: Seq<char>) -> Set<Seq<char>> {
    Set::new(
        |p: Seq<char>|
            p == d || exists|k: int| 0 < k < d.len() && d[k] == '/' && p == d.take(k),
    )
}

/// Outcomes of provisioning `dirs` in order on a filesystem where the paths in
/// `present` exist, and where creating a path of `failing` fails with the reason
/// it maps to while creating any other path succeeds.
pub open spec fn provision_run(
    dirs: Seq<Seq<char>>,
    present: Set<Seq<char>>,
    failing: Map<Seq<char>, Seq<char>>,
) -> Seq<ProvisionView>
    decreases dirs.len(),
{
    if dirs.len() == 0 {
        seq![]
    } else {
        let d = dirs[0];
        let creation: Result<(), Seq<char>> = if failing.contains_key(d) {
            Err(failing[d])
        } else {
            Ok(())
        };
        let o = provision_outcome(present.contains(d), creation);
        let after = if o is Created {
            present.union(made_by(d))
        } else {
            present
        };
        seq![o] + provision_run(dirs.drop_first(), after, failing)
    }
}

/// The paths present after the first directory of `dirs` has been provisioned.
pub open spec fn present_after_first(
    dirs: Seq<Seq<char>>,
    present: Set<Seq<char>>,
    failing: Map<Seq<char>, Seq<char>>,
) -> Set<Seq<char>> {
    if provision_run(dirs, present, failing)[0] is Created {
        present.union(made_by(dirs[0]))
    } else {
        present
    }
}

/// One step of a run: the first directory, then the rest on the grown filesystem.
proof fn lemma_run_unfold(
    dirs: Seq<Seq<char>>,
    present: Set<Seq<char>>,
    failing: Map<Seq<char>, Seq<char>>,
)
    requires
        dirs.len() > 0,
    ensures
        provision_run(dirs, present, failing).len() == dirs.len(),
        forall|i: int|
            0 < i < dirs.len() ==> #[trigger] provision_run(dirs, present, failing)[i]
                == provision_run(
                dirs.drop_first(),
                present_after_first(dirs, present, failing),
                failing,
            )[i - 1],
        present.subset_of(present_after_first(dirs, present, failing)),
{
    lemma_run_len(dirs, present, failing);
}

/// A run has one outcome per directory.
proof fn lemma_run_len(
    dirs: Seq<Seq<char>>,
    present: Set<Seq<char>>,
    failing: Map<Seq<char>, Seq<char>>,
)
    ensures
        provision_run(dirs, present, failing).len() == dirs.len(),
    decreases dirs.len(),
{
    if dirs.len() > 0 {
        let after = present_after_first(dirs, present, failing);
        lemma_run_len(dirs.drop_first(), after, failing);
    }
}

/// A directory whose path is already present when its turn comes is recorded as
/// already existing.
proof fn lemma_present_path_already_exists(
    dirs: Seq<Seq<char>>,
    present: Set<Seq<char>>,
    failing: Map<Seq<char>, Seq<char>>,
    j: int,
)
    requires
        0 <= j < dirs.len(),
        present.contains(dirs[j]),
    ensures
        provision_run(dirs, present, failing)[j] is AlreadyExists,
    decreases dirs.len(),
{
    lemma_run_unfold(dirs, present, failing);
    if j > 0 {
        let after = present_after_first(dirs, present, failing);
        assert(dirs.drop_first()[j - 1] == dirs[j]);
        lemma_present_path_already_exists(dirs.drop_first(), after, failing, j - 1);
    }
}

/// A directory that is already present gets no permission change and no action:
/// it is recorded as already existing, and nothing is planned for it.
pub proof fn lemma_present_directory_untouched(
    dirs: Seq<Seq<char>>,
    present: Set<Seq<char>>,
    failing: Map<Seq<char>, Seq<char>>,
    i: int,
    mode: Option<u32>,
    flags: Seq<Seq<char>>,
)
    requires
        0 <= i < dirs.len(),
        present.contains(dirs[i]),
    ensures
        provision_run(dirs, present, failing)[i] is AlreadyExists,
        planned_steps(provision_run(dirs, present, failing)[i], mode, flags, dirs[i]).len() == 0,
{
    lemma_present_path_already_exists(dirs, present, failing, i);
}

/// When a directory is named twice and its first creation did not fail, the
/// second occurrence is recorded as already existing and nothing is done to it.
pub proof fn lemma_repeated_directory_untouched(
    dirs: Seq<Seq<char>>,
    present: Set<Seq<char>>,
    failing: Map<Seq<char>, Seq<char>>,
    i: int,
    j: int,
    mode: Option<u32>,
    flags: Seq<Seq<char>>,
)
    requires
        0 <= i < j < dirs.len(),
        dirs[i] == dirs[j],
        !failing.contains_key(dirs[i]),
    ensures
        provision_run(dirs, present, failing)[j] is AlreadyExists,
        planned_steps(provision_run(dirs, present, failing)[j], mode, flags, dirs[j]).len() == 0,
    decreases i,
{
    lemma_run_unfold(dirs, present, failing);
    let after = present_after_first(dirs, present, failing);
    assert(dirs.drop_first()[j - 1] == dirs[j]);
    if i == 0 {
        assert(made_by(dirs[0]).contains(dirs[0]));
        assert(after.contains(dirs[0]));
        lemma_present_path_already_exists(dirs.drop_first(), after, failing, j - 1);
    } else {
        assert(dirs.drop_first()[i - 1] == dirs[i]);
        lemma_repeated_directory_untouched(dirs.drop_first(), after, failing, i - 1, j - 1, mode, flags);
    }
}

/// Directories that are absent, whose creation succeeds, and none of which lies
/// on the path of another, are all created and all get the same steps: the mode
/// first, if any, then one step per flag. The conditions do not depend on the
/// order of the list, so neither does the outcome.
pub proof fn lemma_independent_directories_alike(
    dirs: Seq<Seq<char>>,
    present: Set<Seq<char>>,
    failing: Map<Seq<char>, Seq<char>>,
    mode: Option<u32>,
    flags: Seq<Seq<char>>,
)
    requires
        forall|i: int| 0 <= i < dirs.len() ==> !present.contains(#[trigger] dirs[i]),
        forall|i: int| 0 <= i < dirs.len() ==> !failing.contains_key(#[trigger] dirs[i]),
        forall|i: int, j: int|
            0 <= i < dirs.len() && 0 <= j < dirs.len() && i != j ==> !(#[trigger] made_by(
                dirs[i],
            ).contains(dirs[j])),
    ensures
        provision_run(dirs, present, failing).len() == dirs.len(),
        forall|i: int| 0 <= i < dirs.len() ==> #[trigger] provision_run(dirs, present, failing)[i] is Created,
        forall|i: int|
            0 <= i < dirs.len() ==> planned_steps(
                #[trigger] provision_run(dirs, present, failing)[i],
                mode,
                flags,
                dirs[i],
            ) == mode_steps(mode) + flags.map_values(|f: Seq<char>| step_for(f, dirs[i])),
    decreases dirs.len(),
{
    lemma_run_len(dirs, present, failing);
    if dirs.len() > 0 {
        lemma_run_unfold(dirs, present, failing);
        let rest = dirs.drop_first();
        let after = present_after_first(dirs, present, failing);
        assert(provision_run(dirs, present, failing)[0] is Created);
        assert forall|i: int| 0 <= i < rest.len() implies !after.contains(#[trigger] rest[i]) by {
            assert(rest[i] == dirs[i + 1]);
            assert(!made_by(dirs[0]).contains(dirs[i + 1]));
        }
        assert forall|i: int| 0 <= i < rest.len() implies !failing.contains_key(#[trigger] rest[i]) by {
            assert(rest[i] == dirs[i + 1]);
        }
        assert forall|i: int, j: int|
            0 <= i < rest.len() && 0 <= j < rest.len() && i != j implies !(#[trigger] made_by(
                rest[i],
            ).contains(rest[j])) by {
            assert(rest[i] == dirs[i + 1]);
            assert(rest[j] == dirs[j + 1]);
        }
        lemma_independent_directories_alike(rest, after, failing, mode, flags);
        assert forall|i: int| 0 <= i < dirs.len() implies #[trigger] provision_run(
            dirs,
            present,
            failing,
        )[i] is Created by {
            if i > 0 {
                assert(provision_run(dirs, present, failing)[i] == provision_run(rest, after, failing)[i - 1]);
            }
        }
    }
}

/// Provisioning independent directories in any other order gives each of them
/// the same outcome and the same steps: `order` lists, without repeats, the
/// positions in `dirs` of the directories as they are processed instead.
pub proof fn lemma_independent_directories_any_order(
    dirs: Seq<Seq<char>>,
    order: Seq<int>,
    present: Set<Seq<char>>,
    failing: Map<Seq<char>, Seq<char>>,
    mode: Option<u32>,
    flags: Seq<Seq<char>>,
)
    requires
        forall|i: int| 0 <= i < dirs.len() ==> !present.contains(#[trigger] dirs[i]),
        forall|i: int| 0 <= i < dirs.len() ==> !failing.contains_key(#[trigger] dirs[i]),
        forall|i: int, j: int|
            0 <= i < dirs.len() && 0 <= j < dirs.len() && i != j ==> !(#[trigger] made_by(
                dirs[i],
            ).contains(dirs[j])),
        forall|k: int| 0 <= k < order.len() ==> 0 <= #[trigger] order[k] < dirs.len(),
        order.no_duplicates(),
    ensures
        ({
            let reordered = order.map_values(|i: int| dirs[i]);
            forall|k: int|
                0 <= k < order.len() ==> #[trigger] provision_run(reordered, present, failing)[k]
                    == provision_run(dirs, present, failing)[order[k]]
                    && planned_steps(provision_run(reordered, present, failing)[k], mode, flags, reordered[k])
                    == planned_steps(
                    provision_run(dirs, present, failing)[order[k]],
                    mode,
                    flags,
                    dirs[order[k]],
                )
        }),
{
    let reordered = order.map_values(|i: int| dirs[i]);
    assert forall|k: int| 0 <= k < reordered.len() implies !present.contains(#[trigger] reordered[k])
        && !failing.contains_key(reordered[k]) by {
        assert(reordered[k] == dirs[order[k]]);
    }
    assert forall|k: int, l: int|
        0 <= k < reordered.len() && 0 <= l < reordered.len() && k != l implies !(#[trigger] made_by(
            reordered[k],
        ).contains(reordered[l])) by {
        assert(reordered[k] == dirs[order[k]]);
        assert(reordered[l] == dirs[order[l]]);
        assert(order[k] != order[l]);
    }
    lemma_independent_directories_alike(reordered, present, failing, mode, flags);
    lemma_independent_directories_alike(dirs, present, failing, mode, flags);
    assert forall|k: int| 0 <= k < order.len() implies #[trigger] provision_run(reordered, present, failing)[k]
        == provision_run(dirs, present, failing)[order[k]] && planned_steps(
        provision_run(reordered, present, failing)[k],
        mode,
        flags,
        reordered[k],
    ) == planned_steps(provision_run(dirs, present, failing)[order[k]], mode, flags, dirs[order[k]]) by {
        assert(reordered[k] == dirs[order[k]]);
        assert(provision_run(reordered, present, failing)[k] is Created);
        assert(provision_run(dirs, present, failing)[order[k]] is Created);
    }
}

/// A dash followed by one to three octal digits sets the permission mode to the
/// base-8 value of the digits, a 9-bit value; as the last such token on the
/// command line it is the mode of the run, and the first step planned for every
/// directory the run creates sets exactly that mode.
pub proof fn lemma_octal_token_sets_mode(
    digits: Seq<char>,
    before: Seq<Seq<char>>,
    flags: Seq<Seq<char>>,
    dir: Seq<char>,
)
    requires
        1 <= digits.len() <= 3,
        forall|i: int| 0 <= i < digits.len() ==> is_octal_digit(#[trigger] digits[i]),
    ensures
        octal_value(digits) < 512,
        mode_of(seq!['-'] + digits) == Some(octal_value(digits) as u32),
        token_kind(seq!['-'] + digits) == TokenKind::Mode(octal_value(digits) as u32),
        last_mode(before.push(seq!['-'] + digits)) == Some(octal_value(digits) as u32),
        planned_steps(
            ProvisionView::Created,
            last_mode(before.push(seq!['-'] + digits)),
            flags,
            dir,
        )[0] == StepView::SetMode(octal_value(digits) as u32),
{
    let t = seq!['-'] + digits;
    assert(t.drop_first() =~= digits);
    assert forall|i: int| 1 <= i < t.len() implies is_octal_digit(#[trigger] t[i]) by {
        assert(t[i] == digits[i - 1]);
    }
    lemma_mode_is_nine_bits(t);
    reveal_strlit("--verbose");
    reveal_strlit("-v");
    assert(t != "--verbose"@);
    assert(t != "-v"@) by {
        if t.len() == 2 {
            assert(t[1] != "-v"@[1]);
        }
    }
    assert(before.push(t).last() == t);
}

/// A dash followed by at most three characters, one of which is the digit `8` or
/// `9`, is no permission token: it is kept as a flag, no action is spelled that
/// way, and the step planned for it reports it as unknown.
pub proof fn lemma_non_octal_token_is_flag(rest: Seq<char>, k: int, dir: Seq<char>)
    requires
        1 <= rest.len() <= 3,
        0 <= k < rest.len(),
        rest[k] == '8' || rest[k] == '9',
    ensures
        mode_of(seq!['-'] + rest) is None,
        token_kind(seq!['-'] + rest) is Flag,
        action_for(seq!['-'] + rest, dir) is None,
        step_for(seq!['-'] + rest, dir) == StepView::Unknown(seq!['-'] + rest),
{
    let t = seq!['-'] + rest;
    assert(t[k + 1] == rest[k]);
    let aliases = seq![
        "--git"@, "-g"@, "--npm"@, "-n"@, "--bun"@, "-b"@, "--yarn"@, "-y"@, "--pnpm"@,
        "-p"@, "--deno"@, "-d"@, "--cargo"@, "-c"@, "--go"@, "-go"@, "--readme"@, "-r"@,
        "--license"@, "-l"@, "--mit"@, "--docker"@, "-do"@,
    ];
    reveal_strlit("--git");
    reveal_strlit("-g");
    reveal_strlit("--npm");
    reveal_strlit("-n");
    reveal_strlit("--bun");
    reveal_strlit("-b");
    reveal_strlit("--yarn");
    reveal_strlit("-y");
    reveal_strlit("--pnpm");
    reveal_strlit("-p");
    reveal_strlit("--deno");
    reveal_strlit("-d");
    reveal_strlit("--cargo");
    reveal_strlit("-c");
    reveal_strlit("--go");
    reveal_strlit("-go");
    reveal_strlit("--readme");
    reveal_strlit("-r");
    reveal_strlit("--license");
    reveal_strlit("-l");
    reveal_strlit("--mit");
    reveal_strlit("--docker");
    reveal_strlit("-do");
    assert forall|a: int| 0 <= a < aliases.len() implies aliases[a] != t by {
        let s = aliases[a];
        if s == t {
            assert(s[k + 1] == '8' || s[k + 1] == '9');
        }
    }
    assert(!is_octal_digit(t[k + 1]));
    reveal_strlit("--verbose");
    reveal_strlit("-v");
    assert(t != "--verbose"@);
    assert(t != "-v"@) by {
        if t.len() == 2 {
            assert(t[1] != "-v"@[1]);
        }
    }
}

/// A non-empty command line of flags alone, with neither help nor version asked
/// for, names no directory and makes the run fail before any directory is touched.
pub proof fn lemma_flags_only_fails(toks: Seq<Seq<char>>)
    requires
        toks.len() > 0,
        forall|i: int| 0 <= i < toks.len() ==> (#[trigger] toks[i]).len() > 0 && toks[i][0] == '-',
        !wants_help(toks),
        !wants_version(toks),
    ensures
        directories_of(toks).len() == 0,
        run_status(toks) == 1,
{
    lemma_no_directory_tokens(toks);
}

/// Tokens that all begin with a dash name no directory.
proof fn lemma_no_directory_tokens(toks: Seq<Seq<char>>)
    requires
        forall|i: int| 0 <= i < toks.len() ==> (#[trigger] toks[i]).len() > 0 && toks[i][0] == '-',
    ensures
        directories_of(toks).len() == 0,
    decreases toks.len(),
{
    reveal(Seq::filter);
    if toks.len() > 0 {
        let init = toks.drop_last();
        assert forall|i: int| 0 <= i < init.len() implies (#[trigger] init[i]).len() > 0
            && init[i][0] == '-' by {
            assert(init[i] == toks[i]);
        }
        lemma_no_directory_tokens(init);
        assert(toks.last() == toks[toks.len() - 1]);
    }
}

} // verus!
