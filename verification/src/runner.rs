//! The run of an update, one launch at a time.
//!
//! A [`Runner`] holds the steps that are still to do. It never starts a process itself:
//! it says what to show and which command to launch, is told how the launch ended, and
//! says what comes next. The steps are taken strictly in order, and each launch is
//! answered before the next command is named. The runner knows no time: a launch that
//! is never answered holds the run for good, and nothing is tried twice.

use crate::chain::lemma_silent_probe;
use crate::command::{CommandSpec, CommandView};
use crate::outcome::{ExecError, ExecErrorView, Outcome, OutcomeView};
use crate::step::{Effect, EffectView, Step, StepView};
use vstd::prelude::*;

verus! {

/// How a sequence of commands treats one that cannot be run.
#[derive(Debug, Clone, Copy, PartialEq, Eq, Structural)]
pub enum Mode {
    /// The first command that cannot be run ends the sequence with its error.
    Required,
    /// A command that cannot be run is told and passed over.
    BestEffort,
}

/// What an [`Action`] stands for.
pub enum ActionView {
    Run(CommandView),
    Capture(CommandView),
    Done(Result<(), ExecErrorView>),
}

/// What a [`Directive`] stands for.
pub struct DirectiveView {
    pub print: Seq<Seq<char>>,
    pub action: ActionView,
}

/// What to do once the lines of a directive are shown.
#[derive(Debug, PartialEq)]
pub enum Action {
    /// Launch the command with its output shown, and report how it ended.
    Run(CommandSpec),
    /// Launch the command with its output captured, and report how it ended.
    Capture(CommandSpec),
    /// Nothing is left to launch: the run has ended, well or with the error given.
    Done(Result<(), ExecError>),
}

impl View for Action {
    type V = ActionView;

    open spec fn view(&self) -> ActionView {
        match self {
            Action::Run(command) => ActionView::Run(command@),
            Action::Capture(command) => ActionView::Capture(command@),
            Action::Done(Ok(())) => ActionView::Done(Ok(())),
            Action::Done(Err(error)) => ActionView::Done(Err(error@)),
        }
    }
}

/// Lines to show, in order, and what to do once they are shown.
#[derive(Debug, PartialEq)]
pub struct Directive {
    pub print: Vec<String>,
    pub action: Action,
}

impl View for Directive {
    type V = DirectiveView;

    open spec fn view(&self) -> DirectiveView {
        DirectiveView { print: self.print.deep_view(), action: self.action@ }
    }
}

/// What a [`Runner`] stands for: the steps still to do, the next one first, and the
/// error that has ended the run, if one has.
pub struct RunnerView {
    pub pending: Seq<StepView>,
    pub halted: Option<ExecErrorView>,
}

impl RunnerView {
    /// Nothing is left to launch.
    pub open spec fn is_done(self) -> bool {
        self.halted is Some || self.pending.len() == 0
    }

    /// What is to be done in this state. A command whose output is shown is announced
    /// by its banner; one whose output is captured is launched in silence.
    pub open spec fn directive(self) -> DirectiveView {
        match self.halted {
            Some(error) => DirectiveView { print: Seq::empty(), action: ActionView::Done(Err(error)) },
            None => if self.pending.len() == 0 {
                DirectiveView { print: Seq::empty(), action: ActionView::Done(Ok(())) }
            } else if self.pending[0].captures() {
                DirectiveView {
                    print: Seq::empty(),
                    action: ActionView::Capture(self.pending[0].command()),
                }
            } else {
                DirectiveView {
                    print: self.pending[0].command().banner(),
                    action: ActionView::Run(self.pending[0].command()),
                }
            },
        }
    }

    /// The state after `outcome` has answered the launch of the first pending step.
    /// Where nothing was to be launched, an answer changes nothing.
    pub open spec fn after(self, outcome: OutcomeView) -> RunnerView {
        if self.is_done() {
            self
        } else {
            match self.pending[0].effect(outcome) {
                EffectView::Continue { steps, notices } => RunnerView {
                    pending: steps + self.pending.drop_first(),
                    halted: None,
                },
                EffectView::Halt(error) => RunnerView { pending: self.pending, halted: Some(error) },
            }
        }
    }

    /// The lines that `outcome` itself gives rise to.
    pub open spec fn notices(self, outcome: OutcomeView) -> Seq<Seq<char>> {
        if self.is_done() {
            Seq::empty()
        } else {
            match self.pending[0].effect(outcome) {
                EffectView::Continue { steps, notices } => notices,
                EffectView::Halt(error) => Seq::empty(),
            }
        }
    }

    /// What is to be done once `outcome` is known: its notices, then the directive of
    /// the state that follows.
    pub open spec fn answer(self, outcome: OutcomeView) -> DirectiveView {
        DirectiveView {
            print: self.notices(outcome) + self.after(outcome).directive().print,
            action: self.after(outcome).directive().action,
        }
    }

    /// The state after the launches have been answered by `outcomes`, in order.
    pub open spec fn replay(self, outcomes: Seq<OutcomeView>) -> RunnerView
        decreases outcomes.len(),
    {
        if outcomes.len() == 0 {
            self
        } else {
            self.after(outcomes[0]).replay(outcomes.drop_first())
        }
    }

    /// How many commands are launched while `outcomes` answer the launches in order:
    /// each answer stands for one launch until nothing is left to launch.
    pub open spec fn launches(self, outcomes: Seq<OutcomeView>) -> nat
        decreases outcomes.len(),
    {
        if outcomes.len() == 0 || self.is_done() {
            0
        } else {
            1 + self.after(outcomes[0]).launches(outcomes.drop_first())
        }
    }
}

/// The steps of a sequence of commands that all run in one mode.
pub open spec fn sequence_of(specs: Seq<CommandView>, mode: Mode) -> Seq<StepView> {
    specs.map_values(
        |command: CommandView|
            match mode {
                Mode::Required => StepView::Plain(command),
                Mode::BestEffort => StepView::BestEffort(command),
            },
    )
}

/// The run of an update.
#[derive(Debug)]
pub struct Runner {
    pending: Vec<Step>,
    halted: Option<ExecError>,
}

impl View for Runner {
    type V = RunnerView;

    closed spec fn view(&self) -> RunnerView {
        RunnerView {
            pending: self.pending.deep_view(),
            halted: match self.halted {
                Some(error) => Some(error@),
                None => None,
            },
        }
    }
}

impl Runner {
    /// A run that has `steps` to do, in order.
    pub fn new(steps: Vec<Step>) -> (runner: Runner)
        ensures
            runner@ == (RunnerView { pending: steps.deep_view(), halted: None }),
    {
        Runner { pending: steps, halted: None }
    }

    /// A run of `specs` in order, all in one mode.
    pub fn sequence(specs: Vec<CommandSpec>, mode: Mode) -> (runner: Runner)
        ensures
            runner@ == (RunnerView {
                pending: sequence_of(specs.deep_view(), mode),
                halted: None,
            }),
    {
        let mut steps: Vec<Step> = Vec::new();
        let ghost all = specs.deep_view();
        assert(steps.deep_view() =~= sequence_of(all.take(0), mode));
        for command in it: specs
            invariant
                it.seq().len() == all.len(),
                forall|i: int| 0 <= i < all.len() ==> (#[trigger] it.seq()[i])@ == all[i],
                steps.deep_view() == sequence_of(all.take(it.index()), mode),
        {
            let ghost before = steps.deep_view();
            let step = match mode {
                Mode::Required => Step::Plain(command),
                Mode::BestEffort => Step::BestEffort(command),
            };
            steps.push(step);
            assert(steps.deep_view() =~= before.push(step@));
            assert(sequence_of(all.take(it.index() + 1), mode) =~= sequence_of(
                all.take(it.index()),
                mode,
            ).push(step@));
        }
        assert(all.take(all.len() as int) =~= all);
        Runner::new(steps)
    }

    /// A run of one chain: `probe`, and then `follow_up` with the probe's tokens if
    /// there are any.
    pub fn chained(probe: CommandSpec, follow_up: CommandSpec) -> (runner: Runner)
        ensures
            runner@ == (RunnerView {
                pending: seq![StepView::Chained { probe: probe@, follow_up: follow_up@ }],
                halted: None,
            }),
    {
        let mut steps: Vec<Step> = Vec::new();
        steps.push(Step::Chained { probe, follow_up });
        assert(steps.deep_view() =~= seq![
            StepView::Chained { probe: probe@, follow_up: follow_up@ },
        ]);
        Runner::new(steps)
    }

    /// What is to be done now.
    pub fn directive(&self) -> (now: Directive)
        ensures
            now@ == self@.directive(),
    {
        let mut print: Vec<String> = Vec::new();
        assert(print.deep_view() =~= Seq::<Seq<char>>::empty());
        let action = match &self.halted {
            Some(error) => Action::Done(Err(error.clone())),
            None => if self.pending.len() == 0 {
                Action::Done(Ok(()))
            } else {
                match &self.pending[0] {
                    Step::Plain(command) => {
                        print = command.banner();
                        Action::Run(command.clone())
                    },
                    Step::BestEffort(command) => {
                        print = command.banner();
                        Action::Run(command.clone())
                    },
                    Step::Chained { probe, follow_up } => Action::Capture(probe.clone()),
                    Step::Packages { list } => Action::Capture(list.clone()),
                }
            },
        };
        Directive { print, action }
    }

    /// Whether nothing is left to launch.
    pub fn is_done(&self) -> (done: bool)
        ensures
            done == self@.is_done(),
    {
        self.halted.is_some() || self.pending.len() == 0
    }

    /// Goes through the run without launching anything: the launches are answered from
    /// `script`, in order, as far as there are launches to answer. Returns how many
    /// commands would have been launched.
    pub fn replay(&mut self, script: Vec<Outcome>) -> (launched: usize)
        ensures
            final(self)@ == old(self)@.replay(script.deep_view()),
            launched == old(self)@.launches(script.deep_view()),
    {
        let ghost start = self@;
        let ghost outcomes = script.deep_view();
        let mut launched: usize = 0;
        let mut index: usize = 0;
        let total = script.len();
        assert(outcomes.skip(0) =~= outcomes);
        for outcome in it: script
            invariant
                index == it.index(),
                total == outcomes.len(),
                it.seq().len() == total,
                forall|i: int| 0 <= i < total ==> (#[trigger] it.seq()[i])@ == outcomes[i],
                launched <= index <= total,
                start.replay(outcomes) == self@.replay(outcomes.skip(index as int)),
                start.launches(outcomes) == launched + self@.launches(
                    outcomes.skip(index as int),
                ),
        {
            let ghost rest = outcomes.skip(index as int);
            assert(rest[0] == outcome@);
            assert(rest.drop_first() =~= outcomes.skip(index + 1));
            if !self.is_done() {
                launched = launched + 1;
            } else {
                proof {
                    lemma_done_is_final(self@, rest);
                    lemma_done_is_final(self@, rest.drop_first());
                }
            }
            self.advance(outcome);
            index = index + 1;
        }
        launched
    }

    /// Takes `outcome` as the answer to the launch that the last directive asked for,
    /// and says what is to be done next.
    pub fn advance(&mut self, outcome: Outcome) -> (next: Directive)
        ensures
            final(self)@ == old(self)@.after(outcome@),
            next@ == old(self)@.answer(outcome@),
    {
        let mut print: Vec<String> = Vec::new();
        assert(print.deep_view() =~= Seq::<Seq<char>>::empty());
        if self.halted.is_none() && self.pending.len() > 0 {
            match self.pending[0].settle(outcome) {
                Effect::Halt(error) => {
                    self.halted = Some(error);
                },
                Effect::Continue { steps, notices } => {
                    let ghost rest = self.pending.deep_view().drop_first();
                    let mut steps = steps;
                    let ghost first = steps.deep_view();
                    self.pending.remove(0);
                    assert(self.pending.deep_view() =~= rest);
                    steps.append(&mut self.pending);
                    assert(steps.deep_view() =~= first + rest);
                    self.pending = steps;
                    print = notices;
                },
            }
        }
        let ghost notices = print.deep_view();
        let now = self.directive();
        let mut lines = now.print;
        print.append(&mut lines);
        assert(print.deep_view() =~= notices + now.print.deep_view());
        Directive { print, action: now.action }
    }
}

/// Every step has to run.
pub open spec fn all_plain(steps: Seq<StepView>) -> bool {
    forall|i: int| 0 <= i < steps.len() ==> #[trigger] steps[i] is Plain
}

/// Every step is a best-effort one.
pub open spec fn all_best_effort(steps: Seq<StepView>) -> bool {
    forall|i: int| 0 <= i < steps.len() ==> #[trigger] steps[i] is BestEffort
}

/// A sequence in required mode is made of steps that have to run, and one in
/// best-effort mode of best-effort steps.
pub proof fn lemma_sequence_steps(specs: Seq<CommandView>, mode: Mode)
    ensures
        sequence_of(specs, mode).len() == specs.len(),
        mode == Mode::Required ==> all_plain(sequence_of(specs, mode)),
        mode == Mode::BestEffort ==> all_best_effort(sequence_of(specs, mode)),
{
}

/// A run that has ended stays as it is, whatever it is told, and launches nothing.
pub proof fn lemma_done_is_final(state: RunnerView, outcomes: Seq<OutcomeView>)
    requires
        state.is_done(),
    ensures
        state.replay(outcomes) == state,
        state.launches(outcomes) == 0,
    decreases outcomes.len(),
{
    if outcomes.len() > 0 {
        lemma_done_is_final(state, outcomes.drop_first());
    }
}

/// Best-effort steps never end a run with an error: whatever answers the launches,
/// missing programs among them, the run is not halted and no directive carries an error.
/// Once every step has been answered the run has ended well.
pub proof fn lemma_best_effort_never_fails(state: RunnerView, outcomes: Seq<OutcomeView>)
    requires
        state.halted is None,
        all_best_effort(state.pending),
    ensures
        state.replay(outcomes).halted is None,
        all_best_effort(state.replay(outcomes).pending),
        !(state.replay(outcomes).directive().action matches ActionView::Done(Err(_))),
        outcomes.len() >= state.pending.len() ==> state.replay(outcomes).directive().action
            == ActionView::Done(Ok(())),
    decreases outcomes.len(),
{
    if outcomes.len() == 0 {
    } else if state.pending.len() == 0 {
        lemma_done_is_final(state, outcomes);
    } else {
        let next = state.after(outcomes[0]);
        assert(state.pending[0] is BestEffort);
        assert(next.pending =~= state.pending.drop_first());
        lemma_best_effort_never_fails(next, outcomes.drop_first());
    }
}

/// Steps that have to run stop at the first launch that fails. If the first `k` launches
/// ran to their end and the next one failed, the run is halted with that very error,
/// the steps from the failing one on are left undone, `k + 1` commands were launched
/// however many answers follow, and what is left to do is to report the error.
pub proof fn lemma_required_stops_at_first_failure(
    state: RunnerView,
    outcomes: Seq<OutcomeView>,
    k: int,
)
    requires
        state.halted is None,
        all_plain(state.pending),
        0 <= k < outcomes.len(),
        k < state.pending.len(),
        forall|j: int| 0 <= j < k ==> #[trigger] outcomes[j] is Exited,
        outcomes[k] is Failed,
    ensures
        state.replay(outcomes).halted == Some(outcomes[k]->Failed_0),
        state.replay(outcomes).pending == state.pending.skip(k),
        state.launches(outcomes) == k + 1,
        state.replay(outcomes).directive().action == ActionView::Done(
            Err(outcomes[k]->Failed_0),
        ),
    decreases k,
{
    let next = state.after(outcomes[0]);
    let rest = outcomes.drop_first();
    assert(state.pending[0] is Plain);
    if k == 0 {
        assert(state.pending.skip(0) =~= state.pending);
        lemma_done_is_final(next, rest);
    } else {
        assert(outcomes[0] is Exited);
        assert(next.pending =~= state.pending.drop_first());
        assert forall|j: int| 0 <= j < k - 1 implies #[trigger] rest[j] is Exited by {
            assert(rest[j] == outcomes[j + 1]);
        }
        lemma_required_stops_at_first_failure(next, rest, k - 1);
        assert(next.pending.skip(k - 1) =~= state.pending.skip(k));
    }
}

/// An answer after which the run goes on with the step behind `step`: any answer to a
/// best-effort step, and a process that ran to its end for a step that has to run.
pub open spec fn passes(step: StepView, outcome: OutcomeView) -> bool {
    step is BestEffort || (step is Plain && outcome is Exited)
}

/// Commands are launched strictly in the order of their steps, each after the one
/// before it has been answered: when the first `i` steps have been passed, what is to
/// be done is to announce and launch the command of step `i`.
pub proof fn lemma_launches_in_order(state: RunnerView, outcomes: Seq<OutcomeView>, i: int)
    requires
        state.halted is None,
        0 <= i < state.pending.len(),
        i == outcomes.len(),
        forall|j: int| 0 <= j < i ==> passes(#[trigger] state.pending[j], outcomes[j]),
        state.pending[i] is Plain || state.pending[i] is BestEffort,
    ensures
        state.replay(outcomes).halted is None,
        state.replay(outcomes).pending == state.pending.skip(i),
        state.launches(outcomes) == i,
        state.replay(outcomes).directive().action == ActionView::Run(
            state.pending[i].command(),
        ),
        state.replay(outcomes).directive().print == state.pending[i].command().banner(),
    decreases i,
{
    if i == 0 {
        assert(state.pending.skip(0) =~= state.pending);
    } else {
        let next = state.after(outcomes[0]);
        let rest = outcomes.drop_first();
        assert(passes(state.pending[0], outcomes[0]));
        assert(next.pending =~= state.pending.drop_first());
        assert forall|j: int| 0 <= j < i - 1 implies passes(
            #[trigger] next.pending[j],
            rest[j],
        ) by {
            assert(passes(state.pending[j + 1], outcomes[j + 1]));
        }
        lemma_launches_in_order(next, rest, i - 1);
        assert(next.pending.skip(i - 1) =~= state.pending.skip(i));
    }
}

/// Steps that have to run and whose launches all run to their end are all launched, one
/// launch each, and the run ends well. An exit code changes nothing.
pub proof fn lemma_required_runs_all(state: RunnerView, outcomes: Seq<OutcomeView>)
    requires
        state.halted is None,
        all_plain(state.pending),
        outcomes.len() == state.pending.len(),
        forall|j: int| 0 <= j < outcomes.len() ==> #[trigger] outcomes[j] is Exited,
    ensures
        state.replay(outcomes).halted is None,
        state.replay(outcomes).pending.len() == 0,
        state.launches(outcomes) == state.pending.len(),
        state.replay(outcomes).directive().action == ActionView::Done(Ok(())),
    decreases outcomes.len(),
{
    if outcomes.len() > 0 {
        let next = state.after(outcomes[0]);
        let rest = outcomes.drop_first();
        assert(state.pending[0] is Plain);
        assert(outcomes[0] is Exited);
        assert(next.pending =~= state.pending.drop_first());
        assert forall|j: int| 0 <= j < rest.len() implies #[trigger] rest[j] is Exited by {
            assert(rest[j] == outcomes[j + 1]);
        }
        lemma_required_runs_all(next, rest);
    }
}

/// A probe that printed nothing is the whole of its chain: the command to follow is
/// never launched. The run goes on with the steps behind the chain, and a chain on its
/// own has ended well after one launch, whatever answers follow.
pub proof fn lemma_silent_probe_launches_nothing(
    state: RunnerView,
    outcomes: Seq<OutcomeView>,
)
    requires
        state.halted is None,
        state.pending.len() > 0,
        state.pending[0] is Chained,
        outcomes.len() > 0,
        outcomes[0] matches OutcomeView::Exited(result) && result.output().len() == 0,
    ensures
        state.after(outcomes[0]).pending == state.pending.drop_first(),
        state.after(outcomes[0]).halted is None,
        state.notices(outcomes[0]).len() == 0,
        state.pending.len() == 1 ==> state.launches(outcomes) == 1 && state.replay(
            outcomes,
        ).directive().action == ActionView::Done(Ok(())),
{
    let result = outcomes[0]->Exited_0;
    assert(result.output() =~= Seq::<u8>::empty());
    lemma_silent_probe(state.pending[0]->follow_up);
    let next = state.after(outcomes[0]);
    assert(next.pending =~= state.pending.drop_first());
    if state.pending.len() == 1 {
        lemma_done_is_final(next, outcomes.drop_first());
    }
}

} // verus!
