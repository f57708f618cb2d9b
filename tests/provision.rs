use drako::args::{interpret, Invocation};
use drako::pipeline::{plan_steps, ProvisionResult, Session, Step};
use drako::registry::{Action, Template};

fn toks(v: &[&str]) -> Vec<String> {
    v.iter().map(|s| s.to_string()).collect()
}

/// Drives a run over an in-memory set of present paths; creation fails for the
/// paths in `failing`. Returns the exit code and, per directory, its outcome and
/// the steps it got.
fn simulate(
    args: &[&str],
    present: &mut Vec<String>,
    failing: &[&str],
) -> (i32, Vec<(String, ProvisionResult, Vec<Step>)>) {
    let inv = interpret(&toks(args));
    let code = inv.exit_code();
    let mut report = Vec::new();
    if let Invocation::Run(parsed) = inv {
        let mut session = Session::new(parsed);
        while let Some(dir) = session.current_directory() {
            let is_present = present.contains(&dir);
            let steps = if session.probed(is_present) {
                if failing.contains(&dir.as_str()) {
                    session.created(Err("permission denied".to_string()))
                } else {
                    present.push(dir.clone());
                    session.created(Ok(()))
                }
            } else {
                Vec::new()
            };
            let outcome = session.outcomes().last().unwrap().clone();
            report.push((dir, outcome, steps));
        }
        assert_eq!(session.outcomes().len(), report.len());
    }
    (code, report)
}

fn write(t: Template) -> Step {
    Step::Perform(Action::Write(t))
}

fn shell(cmd: &str) -> Step {
    Step::Perform(Action::Shell(cmd.to_string()))
}

#[test]
fn new_project_with_readme_and_mode() {
    let mut present = Vec::new();
    let (code, report) = simulate(&["newproj", "--readme", "-755"], &mut present, &[]);
    assert_eq!(code, 0);
    assert_eq!(report.len(), 1);
    assert_eq!(report[0].0, "newproj");
    assert_eq!(report[0].1, ProvisionResult::Created);
    assert_eq!(report[0].2, vec![Step::SetMode(0o755), write(Template::Readme)]);
}

#[test]
fn repeated_directory_gets_license_once() {
    let mut present = Vec::new();
    let (code, report) = simulate(&["a", "a", "--license"], &mut present, &[]);
    assert_eq!(code, 0);
    assert_eq!(report.len(), 2);
    assert_eq!(report[0].1, ProvisionResult::Created);
    assert_eq!(report[0].2, vec![write(Template::License)]);
    assert_eq!(report[1].1, ProvisionResult::AlreadyExists);
    assert!(report[1].2.is_empty());
}

#[test]
fn bogus_flag_is_reported() {
    let mut present = Vec::new();
    let (code, report) = simulate(&["x", "--bogus-flag"], &mut present, &[]);
    assert_eq!(code, 0);
    assert_eq!(report[0].1, ProvisionResult::Created);
    assert_eq!(report[0].2, vec![Step::Unknown("--bogus-flag".to_string())]);
}

#[test]
fn test_error_handling() {
    let mut present = Vec::new();
    let (code, report) = simulate(&["invalid-perm", "-999", "--readme"], &mut present, &[]);
    assert_eq!(code, 0);
    assert_eq!(report[0].1, ProvisionResult::Created);
    assert_eq!(report[0].2, vec![Step::Unknown("-999".to_string()), write(Template::Readme)]);

    let (code, report) = simulate(&["unknown-flag", "--unknown-flag", "--readme"], &mut present, &[]);
    assert_eq!(code, 0);
    assert_eq!(report[0].1, ProvisionResult::Created);
    assert_eq!(report[0].2, vec![Step::Unknown("--unknown-flag".to_string()), write(Template::Readme)]);
}

#[test]
fn test_error_handling_and_recovery() {
    let mut present = Vec::new();
    let (code, report) = simulate(&["invalid_perm_test", "-999", "--readme"], &mut present, &[]);
    assert_eq!(code, 0);
    assert_eq!(report[0].1, ProvisionResult::Created);
    assert!(!report[0].2.iter().any(|s| matches!(s, Step::SetMode(_))));
    assert!(report[0].2.contains(&write(Template::Readme)));

    let (code, report) = simulate(&["unknown_flag_test", "--nonexistent-flag", "--readme"], &mut present, &[]);
    assert_eq!(code, 0);
    assert_eq!(report[0].1, ProvisionResult::Created);
    assert_eq!(
        report[0].2,
        vec![Step::Unknown("--nonexistent-flag".to_string()), write(Template::Readme)]
    );
}

#[test]
fn test_rust_project_initialization() {
    let mut present = Vec::new();
    let (code, report) =
        simulate(&["rust-project", "--cargo", "--readme", "--license", "--git"], &mut present, &[]);
    assert_eq!(code, 0);
    assert_eq!(
        report[0].2,
        vec![shell("cargo init"), write(Template::Readme), write(Template::License), shell("git init")]
    );
}

#[test]
fn comprehensive_test_test_go_project_initialization() {
    let mut present = Vec::new();
    let (_, report) =
        simulate(&["/tmp/drako/go-project", "--go", "--readme", "--docker"], &mut present, &[]);
    assert_eq!(
        report[0].2,
        vec![shell("go mod init 'go-project'"), write(Template::Readme), write(Template::Dockerfile)]
    );
}

#[test]
fn comprehensive_test_test_existing_directory_behavior() {
    let mut present = vec!["existing".to_string()];
    let (code, report) = simulate(&["existing", "--readme", "--verbose"], &mut present, &[]);
    assert_eq!(code, 0);
    assert_eq!(report[0].1, ProvisionResult::AlreadyExists);
    assert!(report[0].2.is_empty());
}

#[test]
fn test_test_existing_directory_behavior() {
    let mut present = vec!["existing_directory".to_string()];
    let (code, report) = simulate(&["existing_directory", "--readme", "--verbose"], &mut present, &[]);
    assert_eq!(code, 0);
    assert_eq!(report[0].1, ProvisionResult::AlreadyExists);
    assert!(report[0].2.is_empty());
}

#[test]
fn existing_directory_keeps_its_mode() {
    let mut present = vec!["existing_directory".to_string()];
    let (code, report) = simulate(&["existing_directory", "--readme", "--verbose", "-700"], &mut present, &[]);
    assert_eq!(code, 0);
    assert_eq!(report[0].1, ProvisionResult::AlreadyExists);
    assert!(report[0].2.is_empty());
}

#[test]
fn test_multiple_directories_same_config() {
    let mut present = Vec::new();
    let (code, report) =
        simulate(&["project1", "project2", "project3", "--readme", "--license", "-700"], &mut present, &[]);
    assert_eq!(code, 0);
    assert_eq!(report.len(), 3);
    for (i, (dir, outcome, steps)) in report.iter().enumerate() {
        assert_eq!(dir, &format!("project{}", i + 1));
        assert_eq!(outcome, &ProvisionResult::Created);
        assert_eq!(steps, &vec![Step::SetMode(0o700), write(Template::Readme), write(Template::License)]);
    }
}

#[test]
fn independent_directories_do_not_depend_on_order() {
    let args = ["alpha", "beta", "gamma", "--git", "-755"];
    let reversed = ["gamma", "beta", "alpha", "--git", "-755"];
    let (_, first) = simulate(&args, &mut Vec::new(), &[]);
    let (_, second) = simulate(&reversed, &mut Vec::new(), &[]);
    for (dir, outcome, steps) in &first {
        let other = second.iter().find(|r| &r.0 == dir).unwrap();
        assert_eq!(outcome, &other.1);
        assert_eq!(steps, &other.2);
        assert_eq!(steps, &vec![Step::SetMode(0o755), shell("git init")]);
    }
}

#[test]
fn failed_creation_skips_only_that_directory() {
    let mut present = Vec::new();
    let (code, report) = simulate(&["bad", "good", "--readme", "-755"], &mut present, &["bad"]);
    assert_eq!(code, 0);
    assert_eq!(report[0].1, ProvisionResult::CreationFailed("permission denied".to_string()));
    assert!(report[0].2.is_empty());
    assert_eq!(report[1].1, ProvisionResult::Created);
    assert_eq!(report[1].2, vec![Step::SetMode(0o755), write(Template::Readme)]);
}

#[test]
fn repeated_directory_retried_after_failed_creation() {
    let mut present = Vec::new();
    let failing = ["dup"];
    let inv = interpret(&toks(&["dup", "dup", "--git"]));
    let parsed = match inv {
        Invocation::Run(p) => p,
        _ => panic!("expected a run"),
    };
    let mut session = Session::new(parsed);
    let dir = session.current_directory().unwrap();
    assert!(session.probed(present.contains(&dir)));
    assert!(session.created(Err("disk full".to_string())).is_empty());
    let dir = session.current_directory().unwrap();
    assert_eq!(dir, "dup");
    assert!(failing.contains(&dir.as_str()));
    assert!(session.probed(present.contains(&dir)));
    present.push(dir);
    assert_eq!(session.created(Ok(())), vec![shell("git init")]);
    assert_eq!(session.current_directory(), None);
    assert_eq!(
        session.outcomes(),
        &vec![ProvisionResult::CreationFailed("disk full".to_string()), ProvisionResult::Created]
    );
}

#[test]
fn flags_only_touch_nothing() {
    let mut present = Vec::new();
    let (code, report) = simulate(&["--readme", "-755"], &mut present, &[]);
    assert_eq!(code, 1);
    assert!(report.is_empty());
    assert!(present.is_empty());
}

#[test]
fn plan_for_each_outcome() {
    let flags = toks(&["--readme", "--nope", "--readme"]);
    assert_eq!(
        plan_steps(&ProvisionResult::Created, Some(0o750), &flags, "d"),
        vec![
            Step::SetMode(0o750),
            write(Template::Readme),
            Step::Unknown("--nope".to_string()),
            write(Template::Readme)
        ]
    );
    assert_eq!(
        plan_steps(&ProvisionResult::Created, None, &flags, "d"),
        vec![write(Template::Readme), Step::Unknown("--nope".to_string()), write(Template::Readme)]
    );
    assert!(plan_steps(&ProvisionResult::AlreadyExists, Some(0o750), &flags, "d").is_empty());
    assert!(plan_steps(&ProvisionResult::CreationFailed("x".to_string()), Some(0o750), &flags, "d").is_empty());
    assert!(plan_steps(&ProvisionResult::Created, None, &Vec::new(), "d").is_empty());
}

#[test]
fn session_reports_verbosity() {
    let parsed = match interpret(&toks(&["d", "-v"])) {
        Invocation::Run(p) => p,
        _ => panic!("expected a run"),
    };
    let session = Session::new(parsed);
    assert!(session.verbose());
    assert_eq!(session.current_directory(), Some("d".to_string()));
}
