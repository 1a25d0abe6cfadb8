//! The steps of an update and what the answer to a launch means for each.
//!
//! A step names the command to launch next. When the launch has been answered, the
//! step is settled: it is done, with more steps or lines to show where it gives rise to
//! them, or it halts the run with the error that it met.

use crate::cargo_list::{parse_output, parsed, skip_notice_of, update_command_of};
use crate::chain::{follow_up_command, follow_up_of, orphan_tokens, tokens_of};
use crate::command::{CommandSpec, CommandView};
use crate::decode::decoded;
use crate::outcome::{ExecError, ExecErrorView, FailureKind, Outcome, OutcomeView};
use vstd::prelude::*;

verus! {

/// What a [`Step`] stands for.
pub enum StepView {
    Plain(CommandView),
    BestEffort(CommandView),
    Chained { probe: CommandView, follow_up: CommandView },
    Packages { list: CommandView },
}

/// One step of an update.
#[derive(Debug, PartialEq)]
pub enum Step {
    /// A command that has to run: if it cannot be run, the update ends there.
    Plain(CommandSpec),
    /// A command whose absence or failure is told and passed over.
    BestEffort(CommandSpec),
    /// A probe whose output is captured, and a command to run with the probe's tokens
    /// after its own arguments if there are any.
    Chained { probe: CommandSpec, follow_up: CommandSpec },
    /// A command whose captured output lists the installed packages, each of which is
    /// then brought up to date unless it was installed from a local path.
    Packages { list: CommandSpec },
}

impl View for Step {
    type V = StepView;

    open spec fn view(&self) -> StepView {
        match self {
            Step::Plain(command) => StepView::Plain(command@),
            Step::BestEffort(command) => StepView::BestEffort(command@),
            Step::Chained { probe, follow_up } => StepView::Chained {
                probe: probe@,
                follow_up: follow_up@,
            },
            Step::Packages { list } => StepView::Packages { list: list@ },
        }
    }
}

impl DeepView for Step {
    type V = StepView;

    open spec fn deep_view(&self) -> StepView {
        self@
    }
}

/// What an [`Effect`] stands for.
pub enum EffectView {
    Continue { steps: Seq<StepView>, notices: Seq<Seq<char>> },
    Halt(ExecErrorView),
}

/// What the answer to a step's launch means.
#[derive(Debug, PartialEq)]
pub enum Effect {
    /// The step is done. `steps` take its place before the steps that follow it, and
    /// `notices` are lines to show.
    Continue { steps: Vec<Step>, notices: Vec<String> },
    /// The run ends with this error; no later step is launched.
    Halt(ExecError),
}

impl View for Effect {
    type V = EffectView;

    open spec fn view(&self) -> EffectView {
        match self {
            Effect::Continue { steps, notices } => EffectView::Continue {
                steps: steps.deep_view(),
                notices: notices.deep_view(),
            },
            Effect::Halt(error) => EffectView::Halt(error@),
        }
    }
}

/// The line that tells of a best-effort command that could not be run. Where the program
/// is missing it names the program and the command; otherwise it holds the host's words.
pub open spec fn warning_of(command: CommandView, error: ExecErrorView) -> Seq<char> {
    if error.kind == FailureKind::NotFound {
        "warning: "@ + command.program + " not found, skipping: "@ + command.display()
    } else {
        "warning: "@ + command.display() + " failed: "@ + error.detail
    }
}

/// Each command as a step that has to run.
pub open spec fn plain_steps_of(commands: Seq<CommandView>) -> Seq<StepView> {
    commands.map_values(|command: CommandView| StepView::Plain(command))
}

impl StepView {
    /// The command that the step launches first.
    pub open spec fn command(self) -> CommandView {
        match self {
            StepView::Plain(command) => command,
            StepView::BestEffort(command) => command,
            StepView::Chained { probe, follow_up } => probe,
            StepView::Packages { list } => list,
        }
    }

    /// Whether the launch captures the output instead of showing it.
    pub open spec fn captures(self) -> bool {
        self is Chained || self is Packages
    }

    /// What `outcome`, the answer to the step's launch, means.
    ///
    /// An exit code is never looked at: a process that ran to its end has done the step.
    /// A launch that failed halts every step but a best-effort one.
    pub open spec fn effect(self, outcome: OutcomeView) -> EffectView {
        match outcome {
            OutcomeView::Failed(error) => match self {
                StepView::BestEffort(command) => EffectView::Continue {
                    steps: Seq::empty(),
                    notices: seq![warning_of(command, error)],
                },
                _ => EffectView::Halt(error),
            },
            OutcomeView::Exited(result) => match self {
                StepView::Chained { probe, follow_up } => EffectView::Continue {
                    steps: match follow_up_of(follow_up, tokens_of(result.output())) {
                        Some(command) => seq![StepView::Plain(command)],
                        None => Seq::empty(),
                    },
                    notices: Seq::empty(),
                },
                StepView::Packages { list } => {
                    let packages = parsed(decoded(result.output()));
                    EffectView::Continue {
                        steps: plain_steps_of(
                            packages.to_update.map_values(
                                |name: Seq<char>| update_command_of(name),
                            ),
                        ),
                        notices: packages.skipped.map_values(
                            |name: Seq<char>| skip_notice_of(name),
                        ),
                    }
                },
                _ => EffectView::Continue { steps: Seq::empty(), notices: Seq::empty() },
            },
        }
    }
}

/// The line that tells of a best-effort command that could not be run.
pub fn warning(command: &CommandSpec, error: &ExecError) -> (line: String)
    ensures
        line@ == warning_of(command@, error@),
{
    let mut line = "warning: ".to_owned();
    let shown = command.display();
    match error.kind {
        FailureKind::NotFound => {
            line.append(command.program());
            line.append(" not found, skipping: ");
            line.append(shown.as_str());
        },
        _ => {
            line.append(shown.as_str());
            line.append(" failed: ");
            line.append(error.detail.as_str());
        },
    }
    line
}

/// Each command as a step that has to run.
pub fn plain_steps(commands: Vec<CommandSpec>) -> (steps: Vec<Step>)
    ensures
        steps.deep_view() == plain_steps_of(commands.deep_view()),
{
    let mut steps: Vec<Step> = Vec::new();
    let ghost all = commands.deep_view();
    assert(steps.deep_view() =~= plain_steps_of(all.take(0)));
    for command in it: commands
        invariant
            it.seq().len() == all.len(),
            forall|i: int| 0 <= i < all.len() ==> (#[trigger] it.seq()[i])@ == all[i],
            steps.deep_view() == plain_steps_of(all.take(it.index())),
    {
        let ghost before = steps.deep_view();
        let ghost view = command@;
        steps.push(Step::Plain(command));
        assert(steps.deep_view() =~= before.push(StepView::Plain(view)));
        assert(plain_steps_of(all.take(it.index() + 1)) =~= plain_steps_of(
            all.take(it.index()),
        ).push(StepView::Plain(view)));
    }
    assert(all.take(all.len() as int) =~= all);
    steps
}

impl Step {
    /// What `outcome`, the answer to the step's launch, means.
    pub fn settle(&self, outcome: Outcome) -> (effect: Effect)
        ensures
            effect@ == self@.effect(outcome@),
    {
        match outcome {
            Outcome::Failed(error) => match self {
                Step::BestEffort(command) => {
                    let mut notices: Vec<String> = Vec::new();
                    notices.push(warning(command, &error));
                    let steps: Vec<Step> = Vec::new();
                    assert(notices.deep_view() =~= seq![warning_of(command@, error@)]);
                    assert(steps.deep_view() =~= Seq::<StepView>::empty());
                    Effect::Continue { steps, notices }
                },
                _ => Effect::Halt(error),
            },
            Outcome::Exited(result) => {
                let mut steps: Vec<Step> = Vec::new();
                let mut notices: Vec<String> = Vec::new();
                assert(notices.deep_view() =~= Seq::<Seq<char>>::empty());
                assert(steps.deep_view() =~= Seq::<StepView>::empty());
                match self {
                    Step::Chained { probe, follow_up } => {
                        let tokens = orphan_tokens(result.output());
                        match follow_up_command(follow_up, &tokens) {
                            Some(command) => {
                                steps.push(Step::Plain(command));
                                assert(steps.deep_view() =~= seq![StepView::Plain(command@)]);
                            },
                            None => {},
                        }
                    },
                    Step::Packages { list } => {
                        let packages = parse_output(result.output());
                        steps = plain_steps(packages.update_commands());
                        notices = packages.skip_notices();
                    },
                    _ => {},
                }
                Effect::Continue { steps, notices }
            },
        }
    }
}

} // verus!
