//! The supervisor race: the single decision point that reacts to whichever of
//! the two concurrent operations — the backoff wait for the watched paths and
//! the wait for child termination — finishes first, and translates the winner
//! into notifications, an optional kill request, and the supervisor's own
//! exit code. The caller owns the two concurrent waits; every decision is
//! taken here.

use vstd::prelude::*;
use vstd::string::StringExecFns;

use crate::digits::{dec_int, i32_to_string};

verus! {

/// The classified reason the child process stopped running: a normal exit
/// code, a terminating signal, or an indeterminate cause.
#[derive(Clone, Copy, Debug, PartialEq, Eq, Structural)]
pub enum TerminationOutcome {
    ExitCode(i32),
    Signal(i32),
    Unknown,
}

/// How the backoff wait ended: every watched path exists, or the time budget
/// ran out first.
#[derive(Clone, Copy, Debug, PartialEq, Eq, Structural)]
pub enum WaitOutcome {
    Satisfied,
    TimedOut,
}

/// What the race observed: one of the two concurrent operations finished.
#[derive(Clone, Copy, Debug, PartialEq, Eq, Structural)]
pub enum RaceEvent {
    WaitFinished(WaitOutcome),
    ChildExited(TerminationOutcome),
}

/// Which branch of the race won; drives the single exit-decision point of the
/// whole program.
#[derive(Clone, Copy, Debug, PartialEq, Eq, Structural)]
pub enum RaceResult {
    ReadyBeforeChildExit,
    ChildExitedFirst(TerminationOutcome),
    WaitTimedOut,
}

/// Where the supervisor stands: both operations still running; readiness
/// already reported and only the child still awaited; or the run decided,
/// with no further events accepted.
#[derive(Clone, Copy, Debug, PartialEq, Eq, Structural)]
pub enum Phase {
    Racing,
    ReadyWaitingChild,
    Finished,
}

/// What the supervisor must do in response to one event.
pub struct Directive {
    /// Report readiness to the external notification layer.
    pub notify_ready: bool,
    /// Report this status text to the external notification layer.
    pub status: Option<String>,
    /// Request best-effort termination of the child.
    pub kill_child: bool,
    /// Exit the whole program with this code.
    pub exit_code: Option<i32>,
    /// The race outcome, decided exactly once, on the first event.
    pub race_result: Option<RaceResult>,
}

/// The mathematical content of a `Directive`.
#[verifier::ext_equal]
pub ghost struct DirectiveModel {
    pub notify_ready: bool,
    pub status: Option<Seq<char>>,
    pub kill_child: bool,
    pub exit_code: Option<int>,
    pub race_result: Option<RaceResult>,
}

impl View for Directive {
    type V = DirectiveModel;

    open spec fn view(&self) -> DirectiveModel {
        DirectiveModel {
            notify_ready: self.notify_ready,
            status: match self.status {
                Option::Some(s) => Option::Some(s@),
                Option::None => Option::None,
            },
            kill_child: self.kill_child,
            exit_code: match self.exit_code {
                Option::Some(c) => Option::Some(c as int),
                Option::None => Option::None,
            },
            race_result: self.race_result,
        }
    }
}

/// The exit code the supervisor adopts for a child termination outcome: the
/// child's own exit code, the terminating signal's number, or the fixed
/// fallback of one when the cause is indeterminate.
pub open spec fn exit_code_spec(outcome: TerminationOutcome) -> int {
    match outcome {
        TerminationOutcome::ExitCode(code) => code as int,
        TerminationOutcome::Signal(signal) => signal as int,
        TerminationOutcome::Unknown => 1,
    }
}

/// The status text reported for a child termination outcome.
pub open spec fn status_message_spec(outcome: TerminationOutcome) -> Seq<char> {
    match outcome {
        TerminationOutcome::ExitCode(code) => "vault agent exited with code "@ + dec_int(
            code as int,
        ),
        TerminationOutcome::Signal(signal) => "vault agent exited with signal "@ + dec_int(
            signal as int,
        ),
        TerminationOutcome::Unknown => "vault agent exited with unknown cause (not exit code or signal)"@,
    }
}

/// A directive that asks for nothing; only the unreachable transitions of the
/// machine produce it.
pub open spec fn no_op_directive() -> DirectiveModel {
    DirectiveModel {
        notify_ready: false,
        status: Option::None,
        kill_child: false,
        exit_code: Option::None,
        race_result: Option::None,
    }
}

/// Whether the machine accepts an event in a phase: while racing, either
/// operation may finish first; after readiness, only child termination
/// remains; a finished run accepts nothing.
pub open spec fn valid_event(phase: Phase, event: RaceEvent) -> bool {
    match phase {
        Phase::Racing => true,
        Phase::ReadyWaitingChild => event matches RaceEvent::ChildExited(_),
        Phase::Finished => false,
    }
}

/// One transition of the supervisor. While racing: a satisfied wait reports
/// readiness and keeps waiting on the child; a timed-out wait is fatal — kill
/// the child, report the failure status, exit with the fixed code one; a
/// child exit is never readiness, whatever the code — report its status and
/// forward its outcome as the exit code. After readiness, the child's
/// eventual termination is forwarded the same way, but the race was already
/// won, so no further race result is produced.
pub open spec fn race_step_spec(phase: Phase, event: RaceEvent) -> (Phase, DirectiveModel) {
    match (phase, event) {
        (Phase::Racing, RaceEvent::WaitFinished(WaitOutcome::Satisfied)) => (
            Phase::ReadyWaitingChild,
            DirectiveModel {
                notify_ready: true,
                status: Option::None,
                kill_child: false,
                exit_code: Option::None,
                race_result: Option::Some(RaceResult::ReadyBeforeChildExit),
            },
        ),
        (Phase::Racing, RaceEvent::WaitFinished(WaitOutcome::TimedOut)) => (
            Phase::Finished,
            DirectiveModel {
                notify_ready: false,
                status: Option::Some("files did not exist in a timely fashion"@),
                kill_child: true,
                exit_code: Option::Some(1),
                race_result: Option::Some(RaceResult::WaitTimedOut),
            },
        ),
        (Phase::Racing, RaceEvent::ChildExited(outcome)) => (
            Phase::Finished,
            DirectiveModel {
                notify_ready: false,
                status: Option::Some(status_message_spec(outcome)),
                kill_child: false,
                exit_code: Option::Some(exit_code_spec(outcome)),
                race_result: Option::Some(RaceResult::ChildExitedFirst(outcome)),
            },
        ),
        (Phase::ReadyWaitingChild, RaceEvent::ChildExited(outcome)) => (
            Phase::Finished,
            DirectiveModel {
                notify_ready: false,
                status: Option::Some(status_message_spec(outcome)),
                kill_child: false,
                exit_code: Option::Some(exit_code_spec(outcome)),
                race_result: Option::None,
            },
        ),
        (Phase::ReadyWaitingChild, RaceEvent::WaitFinished(_)) => (phase, no_op_directive()),
        (Phase::Finished, _) => (phase, no_op_directive()),
    }
}

/// The exit code adopted for a child termination outcome.
pub fn exit_code_of(outcome: &TerminationOutcome) -> (code: i32)
    ensures
        code as int == exit_code_spec(*outcome),
{
    match outcome {
        TerminationOutcome::ExitCode(code) => *code,
        TerminationOutcome::Signal(signal) => *signal,
        TerminationOutcome::Unknown => 1,
    }
}

/// The status text reported for a child termination outcome.
pub fn status_message(outcome: &TerminationOutcome) -> (message: String)
    ensures
        message@ == status_message_spec(*outcome),
{
    match outcome {
        TerminationOutcome::ExitCode(code) => {
            let digits = i32_to_string(*code);
            "vault agent exited with code ".to_owned().concat(digits.as_str())
        },
        TerminationOutcome::Signal(signal) => {
            let digits = i32_to_string(*signal);
            "vault agent exited with signal ".to_owned().concat(digits.as_str())
        },
        TerminationOutcome::Unknown => {
            "vault agent exited with unknown cause (not exit code or signal)".to_owned()
        },
    }
}

/// The supervisor race's decision point, fed one event per completed
/// operation.
pub struct SupervisorRace {
    phase: Phase,
}

impl View for SupervisorRace {
    type V = Phase;

    closed spec fn view(&self) -> Phase {
        self.phase
    }
}

impl SupervisorRace {
    /// A fresh race: both operations still running.
    pub fn new() -> (race: SupervisorRace)
        ensures
            race@ == Phase::Racing,
    {
        SupervisorRace { phase: Phase::Racing }
    }

    /// Whether the machine accepts `event` in its current phase.
    pub fn accepts(&self, event: &RaceEvent) -> (b: bool)
        ensures
            b == valid_event(self@, *event),
    {
        match self.phase {
            Phase::Racing => true,
            Phase::ReadyWaitingChild => matches!(event, RaceEvent::ChildExited(_)),
            Phase::Finished => false,
        }
    }

    /// React to one completed operation, following `race_step_spec` exactly.
    pub fn on_event(&mut self, event: RaceEvent) -> (directive: Directive)
        requires
            valid_event(old(self)@, event),
        ensures
            final(self)@ == race_step_spec(old(self)@, event).0,
            directive@ == race_step_spec(old(self)@, event).1,
    {
        match (self.phase, event) {
            (Phase::Racing, RaceEvent::WaitFinished(WaitOutcome::Satisfied)) => {
                self.phase = Phase::ReadyWaitingChild;
                Directive {
                    notify_ready: true,
                    status: None,
                    kill_child: false,
                    exit_code: None,
                    race_result: Some(RaceResult::ReadyBeforeChildExit),
                }
            },
            (Phase::Racing, RaceEvent::WaitFinished(WaitOutcome::TimedOut)) => {
                self.phase = Phase::Finished;
                Directive {
                    notify_ready: false,
                    status: Some("files did not exist in a timely fashion".to_owned()),
                    kill_child: true,
                    exit_code: Some(1),
                    race_result: Some(RaceResult::WaitTimedOut),
                }
            },
            (Phase::Racing, RaceEvent::ChildExited(outcome)) => {
                self.phase = Phase::Finished;
                Directive {
                    notify_ready: false,
                    status: Some(status_message(&outcome)),
                    kill_child: false,
                    exit_code: Some(exit_code_of(&outcome)),
                    race_result: Some(RaceResult::ChildExitedFirst(outcome)),
                }
            },
            (Phase::ReadyWaitingChild, RaceEvent::ChildExited(outcome)) => {
                self.phase = Phase::Finished;
                Directive {
                    notify_ready: false,
                    status: Some(status_message(&outcome)),
                    kill_child: false,
                    exit_code: Some(exit_code_of(&outcome)),
                    race_result: None,
                }
            },
            _ => {
                proof {
                    assert(false);
                }
                Directive {
                    notify_ready: false,
                    status: None,
                    kill_child: false,
                    exit_code: None,
                    race_result: None,
                }
            },
        }
    }
}

/// The fixed, non-configurable argument shape the child is spawned with: an
/// `agent` subcommand and a config-file flag pointing at the externally
/// supplied configuration, appended to the binary path in exactly this order.
pub fn agent_arguments(agent_config: String) -> (args: Vec<String>)
    ensures
        args.deep_view() =~= seq!["agent"@, "-config"@, agent_config@],
{
    let ghost config_view = agent_config@;
    let mut args: Vec<String> = Vec::new();
    args.push("agent".to_owned());
    args.push("-config".to_owned());
    args.push(agent_config);
    proof {
        assert(args.deep_view() =~= seq!["agent"@, "-config"@, config_view]);
    }
    args
}

/// The decision for a child that could not be spawned at all: a fatal startup
/// failure, reported once as a status, with the fixed failure exit code and
/// no race to run.
pub fn spawn_failure_directive() -> (directive: Directive)
    ensures
        directive@.status == Option::Some("failed to spawn vault agent"@),
        directive@.exit_code == Option::Some(1int),
        !directive@.notify_ready,
        !directive@.kill_child,
        directive@.race_result == Option::None::<RaceResult>,
{
    Directive {
        notify_ready: false,
        status: Some("failed to spawn vault agent".to_owned()),
        kill_child: false,
        exit_code: Some(1),
        race_result: None,
    }
}

/// Law: a child exit during the race is decided as `ChildExitedFirst`, is
/// never reported as readiness, and finishes the machine, which then accepts
/// no further event — so no notification of any kind can follow it.
pub proof fn lemma_child_exit_first_never_ready(outcome: TerminationOutcome)
    ensures
        race_step_spec(Phase::Racing, RaceEvent::ChildExited(outcome)).1.race_result
            == Option::Some(RaceResult::ChildExitedFirst(outcome)),
        !race_step_spec(Phase::Racing, RaceEvent::ChildExited(outcome)).1.notify_ready,
        race_step_spec(Phase::Racing, RaceEvent::ChildExited(outcome)).0 == Phase::Finished,
        forall|event: RaceEvent| !valid_event(Phase::Finished, event),
{
}

/// Law: when the path set is satisfied before the child terminates, the run
/// reports readiness exactly once — on the wait's completion and never again
/// — and then forwards the child's own termination outcome as the program's
/// final exit code.
pub proof fn lemma_ready_then_child_exit_forwards(outcome: TerminationOutcome)
    ensures
        ({
            let first = race_step_spec(
                Phase::Racing,
                RaceEvent::WaitFinished(WaitOutcome::Satisfied),
            );
            let second = race_step_spec(first.0, RaceEvent::ChildExited(outcome));
            &&& first.1.notify_ready
            &&& first.1.race_result == Option::Some(RaceResult::ReadyBeforeChildExit)
            &&& first.1.exit_code == Option::None::<int>
            &&& valid_event(first.0, RaceEvent::ChildExited(outcome))
            &&& !second.1.notify_ready
            &&& second.1.exit_code == Option::Some(exit_code_spec(outcome))
            &&& second.0 == Phase::Finished
        }),
{
}

/// The phase the machine is in after processing `events` in order, starting
/// from a fresh race.
pub open spec fn phase_after(events: Seq<RaceEvent>) -> Phase
    decreases events.len(),
{
    if events.len() == 0 {
        Phase::Racing
    } else {
        race_step_spec(phase_after(events.drop_last()), events.last()).0
    }
}

/// Whether every event of the run was accepted in the phase it arrived in.
pub open spec fn valid_run(events: Seq<RaceEvent>) -> bool
    decreases events.len(),
{
    if events.len() == 0 {
        true
    } else {
        valid_run(events.drop_last()) && valid_event(phase_after(events.drop_last()), events.last())
    }
}

/// How many steps of the run reported readiness.
pub open spec fn ready_reports(events: Seq<RaceEvent>) -> nat
    decreases events.len(),
{
    if events.len() == 0 {
        0
    } else {
        ready_reports(events.drop_last()) + (if race_step_spec(
            phase_after(events.drop_last()),
            events.last(),
        ).1.notify_ready {
            1nat
        } else {
            0nat
        })
    }
}

/// Law: over any whole run — any sequence of events the machine accepts —
/// readiness is reported at most once; and while the race is still undecided,
/// it has not been reported at all.
pub proof fn lemma_ready_reported_at_most_once(events: Seq<RaceEvent>)
    requires
        valid_run(events),
    ensures
        ready_reports(events) <= 1,
        phase_after(events) == Phase::Racing ==> ready_reports(events) == 0,
    decreases events.len(),
{
    if events.len() > 0 {
        lemma_ready_reported_at_most_once(events.drop_last());
    }
}

/// How many notifications — readiness reports and status reports together —
/// the steps of the run sent to the external layer.
pub open spec fn notification_reports(events: Seq<RaceEvent>) -> nat
    decreases events.len(),
{
    if events.len() == 0 {
        0
    } else {
        let directive = race_step_spec(phase_after(events.drop_last()), events.last()).1;
        notification_reports(events.drop_last()) + (if directive.notify_ready {
            1nat
        } else {
            0nat
        }) + (if directive.status matches Option::Some(_) {
            1nat
        } else {
            0nat
        })
    }
}

/// Law: a race is decided in at most two steps — at most one completion of
/// each concurrent operation — so any run the machine accepts has at most two
/// events.
pub proof fn lemma_run_has_at_most_two_events(events: Seq<RaceEvent>)
    requires
        valid_run(events),
    ensures
        events.len() <= 2,
{
    if events.len() > 2 {
        reveal_with_fuel(valid_run, 4);
        reveal_with_fuel(phase_after, 4);
        lemma_take_is_valid_run(events, 3);
        let three = events.take(3);
        assert(three.drop_last() =~= events.take(2));
        let two = events.take(2);
        assert(two.drop_last() =~= events.take(1));
        let one = events.take(1);
        assert(one.drop_last() =~= events.take(0));
        assert(events.take(0) =~= Seq::<RaceEvent>::empty());
    }
}

/// Law: the external notifier is invoked at most twice in a run — once for
/// readiness or failure, and at most once more for the final termination
/// status.
pub proof fn lemma_at_most_two_notifications(events: Seq<RaceEvent>)
    requires
        valid_run(events),
    ensures
        notification_reports(events) <= 2,
{
    lemma_run_has_at_most_two_events(events);
    reveal_with_fuel(valid_run, 3);
    reveal_with_fuel(phase_after, 3);
    reveal_with_fuel(notification_reports, 3);
    if events.len() == 1 {
        assert(events.drop_last() =~= Seq::<RaceEvent>::empty());
    } else if events.len() == 2 {
        assert(events.drop_last().drop_last() =~= Seq::<RaceEvent>::empty());
    }
}

/// Law: a step that asks the program to exit finishes the machine, and a
/// finished machine accepts nothing more, so in a valid run only the last
/// event can carry an exit — every notification precedes the program's exit.
pub proof fn lemma_exit_ends_the_run(events: Seq<RaceEvent>, i: int)
    requires
        valid_run(events),
        0 <= i < events.len(),
        race_step_spec(phase_after(events.take(i)), events[i]).1.exit_code matches Option::Some(_),
    ensures
        i == events.len() - 1,
    decreases events.len(),
{
    if i < events.len() - 1 {
        lemma_take_is_valid_run(events, i + 1);
        assert(phase_after(events.take(i + 1)) == Phase::Finished) by {
            assert(events.take(i + 1).drop_last() =~= events.take(i));
            assert(events.take(i + 1).last() == events[i]);
        }
        lemma_finished_persists(events, i + 1, events.len() - 1 as int);
        assert(events.take(events.len() - 1 as int).drop_last() =~= events.take(
            events.len() - 2 as int,
        ));
        assert(!valid_event(phase_after(events.take(events.len() - 1 as int)), events.last()));
        assert(events.drop_last() =~= events.take(events.len() - 1 as int));
    }
}

/// A prefix of a valid run is itself a valid run.
pub proof fn lemma_take_is_valid_run(events: Seq<RaceEvent>, n: int)
    requires
        valid_run(events),
        0 <= n <= events.len(),
    ensures
        valid_run(events.take(n)),
    decreases events.len(),
{
    if n < events.len() {
        assert(events.drop_last() =~= events.take(events.len() - 1 as int));
        lemma_take_is_valid_run(events.drop_last(), n);
        assert(events.drop_last().take(n) =~= events.take(n));
    } else {
        assert(events.take(n) =~= events);
    }
}

/// Once the machine is finished after some prefix, it is finished after every
/// longer prefix.
pub proof fn lemma_finished_persists(events: Seq<RaceEvent>, i: int, j: int)
    requires
        0 <= i <= j <= events.len(),
        phase_after(events.take(i)) == Phase::Finished,
    ensures
        phase_after(events.take(j)) == Phase::Finished,
    decreases j - i,
{
    if i < j {
        assert(events.take(i + 1).drop_last() =~= events.take(i));
        lemma_finished_persists(events, i + 1, j);
    }
}

/// Law: readiness and a fatal status never race each other. A step that
/// reports readiness can only happen while racing and carries no exit; a step
/// that carries an exit finishes the machine, after which no event — and so
/// no readiness report — is accepted.
pub proof fn lemma_first_notification_exclusive(phase: Phase, event: RaceEvent)
    requires
        valid_event(phase, event),
    ensures
        race_step_spec(phase, event).1.notify_ready ==> phase == Phase::Racing && race_step_spec(
            phase,
            event,
        ).1.exit_code == Option::None::<int>,
        race_step_spec(phase, event).1.exit_code matches Option::Some(_) ==> race_step_spec(
            phase,
            event,
        ).0 == Phase::Finished,
{
}

} // verus!
