use sysup::command::{strings, CommandSpec};
use sysup::outcome::{ExecError, ExecutionResult, FailureKind, Outcome};
use sysup::runner::{Action, Directive, Mode, Runner};
use sysup::step::{Effect, Step};

fn cmd(program: &str, arguments: &[&str]) -> CommandSpec {
    CommandSpec::new(program.to_string(), strings(arguments)).unwrap()
}

fn exited(code: i32) -> Outcome {
    Outcome::Exited(ExecutionResult { exit_code: Some(code), stdout: None, stderr: None })
}

fn captured(stdout: &[u8]) -> Outcome {
    Outcome::Exited(ExecutionResult {
        exit_code: Some(0),
        stdout: Some(stdout.to_vec()),
        stderr: Some(Vec::new()),
    })
}

fn failed(kind: FailureKind, detail: &str) -> Outcome {
    Outcome::Failed(ExecError { kind, detail: detail.to_string() })
}

fn banner_of(shown: &str) -> Vec<String> {
    vec![
        "".to_string(),
        "========================".to_string(),
        format!("$ {}", shown),
        "========================".to_string(),
    ]
}

/// What a run did while a script of outcomes answered its launches.
struct Played {
    shown: Vec<CommandSpec>,
    captured: Vec<CommandSpec>,
    launches: Vec<String>,
    printed: Vec<String>,
    end: Result<(), ExecError>,
    unused: usize,
}

fn play(mut runner: Runner, script: Vec<Outcome>) -> Played {
    let mut played = Played {
        shown: Vec::new(),
        captured: Vec::new(),
        launches: Vec::new(),
        printed: Vec::new(),
        end: Ok(()),
        unused: 0,
    };
    let mut script = script.into_iter();
    let mut directive = runner.directive();
    loop {
        played.printed.extend(directive.print);
        match directive.action {
            Action::Run(command) => {
                played.launches.push(command.display());
                played.shown.push(command);
            }
            Action::Capture(command) => {
                played.launches.push(command.display());
                played.captured.push(command);
            }
            Action::Done(end) => {
                played.end = end;
                played.unused = script.count();
                return played;
            }
        }
        let outcome = script.next().expect("the script is too short");
        directive = runner.advance(outcome);
    }
}

#[test]
fn a_run_without_steps_has_ended() {
    let runner = Runner::new(Vec::new());
    assert_eq!(runner.directive(), Directive { print: Vec::new(), action: Action::Done(Ok(())) });
    let runner = Runner::sequence(Vec::new(), Mode::Required);
    assert_eq!(runner.directive(), Directive { print: Vec::new(), action: Action::Done(Ok(())) });
}

#[test]
fn a_required_sequence_runs_every_command_in_order() {
    let specs = vec![cmd("a", &["1"]), cmd("b", &[]), cmd("c", &["2", "3"])];
    let played = play(
        Runner::sequence(specs, Mode::Required),
        vec![exited(0), exited(0), exited(0)],
    );
    assert_eq!(played.end, Ok(()));
    assert_eq!(played.shown, vec![cmd("a", &["1"]), cmd("b", &[]), cmd("c", &["2", "3"])]);
    assert!(played.captured.is_empty());
    let mut printed = banner_of("a 1");
    printed.extend(banner_of("b "));
    printed.extend(banner_of("c 2 3"));
    assert_eq!(played.printed, printed);
}

#[test]
fn a_nonzero_exit_code_is_no_failure() {
    let specs = vec![cmd("a", &[]), cmd("b", &[])];
    let signalled =
        Outcome::Exited(ExecutionResult { exit_code: None, stdout: None, stderr: None });
    let played = play(Runner::sequence(specs, Mode::Required), vec![exited(1), signalled]);
    assert_eq!(played.end, Ok(()));
    assert_eq!(played.launches, vec!["a ".to_string(), "b ".to_string()]);
}

#[test]
fn a_required_sequence_stops_at_the_first_failure() {
    let specs = vec![cmd("a", &[]), cmd("b", &[]), cmd("c", &[]), cmd("d", &[])];
    let played = play(
        Runner::sequence(specs, Mode::Required),
        vec![
            exited(0),
            failed(FailureKind::Spawn, "permission denied"),
            failed(FailureKind::Wait, "later"),
            exited(0),
        ],
    );
    assert_eq!(
        played.end,
        Err(ExecError { kind: FailureKind::Spawn, detail: "permission denied".to_string() })
    );
    assert_eq!(played.launches.len(), 2);
    assert_eq!(played.shown, vec![cmd("a", &[]), cmd("b", &[])]);
    assert_eq!(played.unused, 2);
    let mut printed = banner_of("a ");
    printed.extend(banner_of("b "));
    assert_eq!(played.printed, printed);
}

#[test]
fn a_required_sequence_fails_on_a_missing_program() {
    let played = play(
        Runner::sequence(vec![cmd("nowhere", &["x"]), cmd("b", &[])], Mode::Required),
        vec![failed(FailureKind::NotFound, "No such file or directory (os error 2)")],
    );
    assert_eq!(
        played.end,
        Err(ExecError {
            kind: FailureKind::NotFound,
            detail: "No such file or directory (os error 2)".to_string()
        })
    );
    assert_eq!(played.launches, vec!["nowhere x".to_string()]);
}

#[test]
fn a_required_sequence_fails_when_waiting_fails() {
    let played = play(
        Runner::sequence(vec![cmd("a", &[]), cmd("b", &[])], Mode::Required),
        vec![failed(FailureKind::Wait, "interrupted")],
    );
    assert_eq!(
        played.end,
        Err(ExecError { kind: FailureKind::Wait, detail: "interrupted".to_string() })
    );
    assert_eq!(played.launches.len(), 1);
}

#[test]
fn a_run_that_has_ended_stays_as_it_is() {
    let mut runner = Runner::sequence(vec![cmd("a", &[]), cmd("b", &[])], Mode::Required);
    let halted = runner.advance(failed(FailureKind::Spawn, "no"));
    let error = ExecError { kind: FailureKind::Spawn, detail: "no".to_string() };
    assert_eq!(halted, Directive { print: Vec::new(), action: Action::Done(Err(error.clone())) });
    assert_eq!(runner.advance(exited(0)), halted);
    assert_eq!(runner.advance(failed(FailureKind::Wait, "other")), halted);
    assert_eq!(runner.directive(), halted);

    let mut runner = Runner::sequence(vec![cmd("a", &[])], Mode::Required);
    let ended = runner.advance(exited(0));
    assert_eq!(ended, Directive { print: Vec::new(), action: Action::Done(Ok(())) });
    assert_eq!(runner.advance(failed(FailureKind::Spawn, "late")), ended);
    assert_eq!(runner.directive(), ended);
}

#[test]
fn a_best_effort_sequence_never_fails() {
    let specs = vec![cmd("rustup", &["update"]), cmd("b", &["x"]), cmd("c", &[])];
    let played = play(
        Runner::sequence(specs, Mode::BestEffort),
        vec![
            failed(FailureKind::NotFound, "No such file or directory (os error 2)"),
            failed(FailureKind::Spawn, "permission denied"),
            failed(FailureKind::Wait, "interrupted"),
        ],
    );
    assert_eq!(played.end, Ok(()));
    assert_eq!(
        played.shown,
        vec![cmd("rustup", &["update"]), cmd("b", &["x"]), cmd("c", &[])]
    );
    let mut printed = banner_of("rustup update");
    printed.push("warning: rustup not found, skipping: rustup update".to_string());
    printed.extend(banner_of("b x"));
    printed.push("warning: b x failed: permission denied".to_string());
    printed.extend(banner_of("c "));
    printed.push("warning: c  failed: interrupted".to_string());
    assert_eq!(played.printed, printed);
}

#[test]
fn a_best_effort_sequence_that_meets_no_failure_prints_no_warning() {
    let played = play(
        Runner::sequence(vec![cmd("a", &[]), cmd("b", &[])], Mode::BestEffort),
        vec![exited(0), exited(3)],
    );
    assert_eq!(played.end, Ok(()));
    let mut printed = banner_of("a ");
    printed.extend(banner_of("b "));
    assert_eq!(played.printed, printed);
}

#[test]
fn a_silent_probe_launches_no_follow_up() {
    let played = play(
        Runner::chained(cmd("pacman", &["-Qtdq"]), cmd("rm", &["-f"])),
        vec![captured(b"")],
    );
    assert_eq!(played.end, Ok(()));
    assert_eq!(played.captured, vec![cmd("pacman", &["-Qtdq"])]);
    assert!(played.shown.is_empty());
    assert_eq!(played.launches.len(), 1);
    assert!(played.printed.is_empty());
}

#[test]
fn a_probe_of_empty_lines_launches_no_follow_up() {
    let played = play(
        Runner::chained(cmd("pacman", &["-Qtdq"]), cmd("rm", &["-f"])),
        vec![captured(b"\n\n")],
    );
    assert_eq!(played.end, Ok(()));
    assert_eq!(played.launches, vec!["pacman -Qtdq".to_string()]);
}

#[test]
fn a_probe_without_captured_output_launches_no_follow_up() {
    let played =
        play(Runner::chained(cmd("pacman", &["-Qtdq"]), cmd("rm", &["-f"])), vec![exited(0)]);
    assert_eq!(played.end, Ok(()));
    assert_eq!(played.launches.len(), 1);
}

#[test]
fn the_follow_up_gets_the_tokens_of_the_probe() {
    let played = play(
        Runner::chained(cmd("probe", &[]), cmd("rm", &["-f"])),
        vec![captured(b"a\nb\n"), exited(0)],
    );
    assert_eq!(played.end, Ok(()));
    assert_eq!(played.captured, vec![cmd("probe", &[])]);
    assert_eq!(played.shown, vec![cmd("rm", &["-f", "a", "b"])]);
    assert_eq!(played.printed, banner_of("rm -f a b"));
}

#[test]
fn the_exit_code_of_a_probe_is_not_looked_at() {
    let probe = Outcome::Exited(ExecutionResult {
        exit_code: Some(1),
        stdout: Some(b"x\n".to_vec()),
        stderr: Some(b"error: no orphans".to_vec()),
    });
    let played =
        play(Runner::chained(cmd("probe", &[]), cmd("rm", &[])), vec![probe, exited(0)]);
    assert_eq!(played.shown, vec![cmd("rm", &["x"])]);
}

#[test]
fn a_probe_that_cannot_run_ends_the_chain() {
    let played = play(
        Runner::chained(cmd("probe", &[]), cmd("rm", &["-f"])),
        vec![failed(FailureKind::NotFound, "gone"), captured(b"a\n")],
    );
    assert_eq!(
        played.end,
        Err(ExecError { kind: FailureKind::NotFound, detail: "gone".to_string() })
    );
    assert_eq!(played.launches, vec!["probe ".to_string()]);
    assert_eq!(played.unused, 1);
}

#[test]
fn a_follow_up_that_cannot_run_ends_the_chain() {
    let played = play(
        Runner::chained(cmd("probe", &[]), cmd("rm", &["-f"])),
        vec![captured(b"a\n"), failed(FailureKind::Spawn, "denied")],
    );
    assert_eq!(
        played.end,
        Err(ExecError { kind: FailureKind::Spawn, detail: "denied".to_string() })
    );
    assert_eq!(played.launches, vec!["probe ".to_string(), "rm -f a".to_string()]);
}

#[test]
fn listed_packages_are_updated_one_by_one() {
    let listing = b"dev v1.2.0 (/home/user/src/dev):\n    dev\nbat v0.24.0:\n    bat\ntm v0.5.0 (/home/user/src/tm):\n    tm\nripgrep v14.1.0:\n    rg\n";
    let steps = vec![
        Step::Packages { list: cmd("cargo", &["install", "--list"]) },
        Step::Plain(cmd("after", &[])),
    ];
    let played = play(Runner::new(steps), vec![captured(listing), exited(0), exited(0), exited(0)]);
    assert_eq!(played.end, Ok(()));
    assert_eq!(played.captured, vec![cmd("cargo", &["install", "--list"])]);
    assert_eq!(
        played.shown,
        vec![
            cmd("cargo", &["install", "bat"]),
            cmd("cargo", &["install", "ripgrep"]),
            cmd("after", &[]),
        ]
    );
    let mut printed = vec![
        "Skipping dev (local install)".to_string(),
        "Skipping tm (local install)".to_string(),
    ];
    printed.extend(banner_of("cargo install bat"));
    printed.extend(banner_of("cargo install ripgrep"));
    printed.extend(banner_of("after "));
    assert_eq!(played.printed, printed);
}

#[test]
fn an_empty_listing_updates_nothing() {
    let steps = vec![Step::Packages { list: cmd("cargo", &["install", "--list"]) }];
    let played = play(Runner::new(steps), vec![captured(b"")]);
    assert_eq!(played.end, Ok(()));
    assert_eq!(played.launches.len(), 1);
    assert!(played.printed.is_empty());
}

#[test]
fn a_listing_that_cannot_be_had_ends_the_run() {
    let steps = vec![
        Step::Packages { list: cmd("cargo", &["install", "--list"]) },
        Step::Plain(cmd("after", &[])),
    ];
    let played = play(Runner::new(steps), vec![failed(FailureKind::NotFound, "gone")]);
    assert_eq!(
        played.end,
        Err(ExecError { kind: FailureKind::NotFound, detail: "gone".to_string() })
    );
    assert_eq!(played.launches.len(), 1);
}

#[test]
fn an_update_that_cannot_run_ends_the_run() {
    let steps = vec![Step::Packages { list: cmd("cargo", &["install", "--list"]) }];
    let played = play(
        Runner::new(steps),
        vec![captured(b"a v1:\nb v1:\nc v1:\n"), exited(0), failed(FailureKind::Spawn, "no")],
    );
    assert_eq!(played.end, Err(ExecError { kind: FailureKind::Spawn, detail: "no".to_string() }));
    assert_eq!(
        played.shown,
        vec![cmd("cargo", &["install", "a"]), cmd("cargo", &["install", "b"])]
    );
}

#[test]
fn steps_of_every_kind_in_one_run() {
    let steps = vec![
        Step::Plain(cmd("upgrade", &[])),
        Step::Chained { probe: cmd("orphans", &[]), follow_up: cmd("remove", &["-y"]) },
        Step::BestEffort(cmd("rustup", &["update"])),
        Step::Plain(cmd("nvim", &[])),
    ];
    let played = play(
        Runner::new(steps),
        vec![
            exited(0),
            captured(b"libold\n"),
            exited(0),
            failed(FailureKind::NotFound, "gone"),
            exited(0),
        ],
    );
    assert_eq!(played.end, Ok(()));
    assert_eq!(
        played.launches,
        vec![
            "upgrade ".to_string(),
            "orphans ".to_string(),
            "remove -y libold".to_string(),
            "rustup update".to_string(),
            "nvim ".to_string(),
        ]
    );
    assert_eq!(played.unused, 0);
}

#[test]
fn settle_a_plain_step() {
    let step = Step::Plain(cmd("a", &[]));
    assert_eq!(
        step.settle(exited(7)),
        Effect::Continue { steps: Vec::new(), notices: Vec::new() }
    );
    assert_eq!(
        step.settle(failed(FailureKind::NotFound, "gone")),
        Effect::Halt(ExecError { kind: FailureKind::NotFound, detail: "gone".to_string() })
    );
}

#[test]
fn settle_a_best_effort_step() {
    let step = Step::BestEffort(cmd("a", &["b"]));
    assert_eq!(
        step.settle(exited(0)),
        Effect::Continue { steps: Vec::new(), notices: Vec::new() }
    );
    assert_eq!(
        step.settle(failed(FailureKind::NotFound, "gone")),
        Effect::Continue {
            steps: Vec::new(),
            notices: vec!["warning: a not found, skipping: a b".to_string()]
        }
    );
    assert_eq!(
        step.settle(failed(FailureKind::Wait, "gone")),
        Effect::Continue { steps: Vec::new(), notices: vec!["warning: a b failed: gone".to_string()] }
    );
}

#[test]
fn settle_a_chained_step() {
    let step = Step::Chained { probe: cmd("p", &[]), follow_up: cmd("rm", &["-f"]) };
    assert_eq!(
        step.settle(captured(b"a\n\nb")),
        Effect::Continue { steps: vec![Step::Plain(cmd("rm", &["-f", "a", "b"]))], notices: Vec::new() }
    );
    assert_eq!(
        step.settle(captured(b"")),
        Effect::Continue { steps: Vec::new(), notices: Vec::new() }
    );
    assert_eq!(
        step.settle(failed(FailureKind::Wait, "w")),
        Effect::Halt(ExecError { kind: FailureKind::Wait, detail: "w".to_string() })
    );
}

#[test]
fn settle_a_packages_step() {
    let step = Step::Packages { list: cmd("cargo", &["install", "--list"]) };
    assert_eq!(
        step.settle(captured(b"a v1:\n    a\nb v1 (/b):\n")),
        Effect::Continue {
            steps: vec![Step::Plain(cmd("cargo", &["install", "a"]))],
            notices: vec!["Skipping b (local install)".to_string()]
        }
    );
    assert_eq!(
        step.settle(failed(FailureKind::Spawn, "s")),
        Effect::Halt(ExecError { kind: FailureKind::Spawn, detail: "s".to_string() })
    );
}

#[test]
fn the_captured_output_of_a_result() {
    let with = ExecutionResult { exit_code: Some(0), stdout: Some(b"out".to_vec()), stderr: None };
    let without = ExecutionResult { exit_code: Some(0), stdout: None, stderr: Some(b"e".to_vec()) };
    assert_eq!(with.output(), b"out");
    assert_eq!(without.output(), b"");
}

#[test]
fn replay_counts_the_launches_of_a_required_sequence() {
    let specs = vec![cmd("a", &[]), cmd("b", &[]), cmd("c", &[]), cmd("d", &[])];
    let mut runner = Runner::sequence(specs, Mode::Required);
    let launched = runner.replay(vec![
        exited(0),
        exited(0),
        failed(FailureKind::Spawn, "no"),
        exited(0),
        exited(0),
    ]);
    assert_eq!(launched, 3);
    assert!(runner.is_done());
    assert_eq!(
        runner.directive().action,
        Action::Done(Err(ExecError { kind: FailureKind::Spawn, detail: "no".to_string() }))
    );
}

#[test]
fn replay_of_a_best_effort_sequence_ends_well() {
    let specs = vec![cmd("a", &[]), cmd("b", &[]), cmd("c", &[])];
    let mut runner = Runner::sequence(specs, Mode::BestEffort);
    let launched = runner.replay(vec![
        failed(FailureKind::NotFound, "gone"),
        failed(FailureKind::Spawn, "no"),
        failed(FailureKind::Wait, "lost"),
    ]);
    assert_eq!(launched, 3);
    assert!(runner.is_done());
    assert_eq!(runner.directive().action, Action::Done(Ok(())));
}

#[test]
fn replay_stops_where_the_script_ends() {
    let specs = vec![cmd("a", &[]), cmd("b", &[]), cmd("c", &[])];
    let mut runner = Runner::sequence(specs, Mode::Required);
    assert!(!runner.is_done());
    assert_eq!(runner.replay(Vec::new()), 0);
    assert_eq!(runner.replay(vec![exited(0), exited(0)]), 2);
    assert!(!runner.is_done());
    assert_eq!(runner.directive().action, Action::Run(cmd("c", &[])));
    assert_eq!(runner.replay(vec![exited(0), exited(0)]), 1);
    assert!(runner.is_done());
}

#[test]
fn replay_of_a_silent_probe_launches_once() {
    let mut runner = Runner::chained(cmd("probe", &[]), cmd("rm", &["-f"]));
    assert_eq!(runner.replay(vec![captured(b""), exited(0), exited(0)]), 1);
    assert_eq!(runner.directive().action, Action::Done(Ok(())));
    let mut runner = Runner::chained(cmd("probe", &[]), cmd("rm", &["-f"]));
    assert_eq!(runner.replay(vec![captured(b"a\n"), exited(0), exited(0)]), 2);
    assert_eq!(runner.directive().action, Action::Done(Ok(())));
}
