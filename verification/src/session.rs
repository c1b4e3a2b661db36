//! A run, walked through one step at a time.
//!
//! The library does not touch the machine. A [`Session`] says what is to be
//! done next ([`Session::step`]), the caller does it and reports how it went
//! ([`Session::advance`]). The session decides what follows: root
//! privileges are secured first, then the driver calls of the plan are made
//! in their order, and the first failure ends the run with its error.
//!
//! What a session does is defined by its [`Model`]; what holds of every run
//! is proved of the model in [`crate::laws`].

use crate::config::Configuration;
use crate::error::Error;
use crate::plan::{plan, spec_plan, DriverCall};
use vstd::prelude::*;

verus! {

/// A program that runs a command as root. They are tried in the order in
/// which they are listed here.
#[derive(Clone, Copy, Debug, PartialEq, Eq, Structural)]
pub enum Helper {
    Sudo,
    Doas,
    Pkexec,
}

impl Helper {
    pub open spec fn spec_next(&self) -> Option<Helper> {
        match *self {
            Helper::Sudo => Some(Helper::Doas),
            Helper::Doas => Some(Helper::Pkexec),
            Helper::Pkexec => None,
        }
    }

    /// The helper to try after this one, if there is another.
    #[verifier::when_used_as_spec(spec_next)]
    pub fn next(&self) -> (following: Option<Helper>)
        ensures
            following == self.spec_next(),
    {
        match *self {
            Helper::Sudo => Some(Helper::Doas),
            Helper::Doas => Some(Helper::Pkexec),
            Helper::Pkexec => None,
        }
    }

    pub open spec fn spec_program(&self) -> Seq<char> {
        match *self {
            Helper::Sudo => "sudo"@,
            Helper::Doas => "doas"@,
            Helper::Pkexec => "pkexec"@,
        }
    }

    /// The name of the helper's program, as it is looked for on the search
    /// path.
    pub fn program(&self) -> (name: &'static str)
        ensures
            name@ == self.spec_program(),
    {
        match *self {
            Helper::Sudo => "sudo",
            Helper::Doas => "doas",
            Helper::Pkexec => "pkexec",
        }
    }
}

/// What the caller is asked to do next.
#[derive(Clone, Copy, Debug, PartialEq, Eq, Structural)]
pub enum Step {
    /// Find out whether the process runs as root. Answered with
    /// [`Reply::Yes`] or [`Reply::No`].
    CheckRoot,
    /// Find out whether the helper is installed. Answered with
    /// [`Reply::Yes`] or [`Reply::No`].
    Probe(Helper),
    /// Gain root privileges through the helper. Answered with
    /// [`Reply::Yes`] if the process now runs as root, else with
    /// [`Reply::No`].
    Escalate(Helper),
    /// Make the driver call. A setter is answered with the status code it
    /// returned, as [`Reply::Status`]; the other calls with [`Reply::Yes`]
    /// if they succeeded, else with [`Reply::No`].
    Call(DriverCall),
    /// Nothing is left to do: report success.
    Finish,
    /// The run is given up: report the error.
    Abort(Error),
}

/// How a step went.
#[derive(Clone, Copy, Debug, PartialEq, Eq, Structural)]
pub enum Reply {
    Yes,
    No,
    /// The status code that a setter returned. Zero means success.
    Status(u32),
}

impl Reply {
    /// Whether the reply reports a success.
    pub open spec fn success(self) -> bool {
        self == Reply::Yes || self == Reply::Status(0)
    }

    /// The status code that the reply carries; zero where it carries none.
    pub open spec fn code(self) -> u32 {
        match self {
            Reply::Status(code) => code,
            _ => 0,
        }
    }
}

/// Where a run stands.
pub enum Stage {
    /// It is not known yet whether the process runs as root.
    CheckRoot,
    /// The process does not run as root, and it is not known yet whether
    /// this helper is installed. `tried` tells whether an earlier helper was
    /// installed, and failed.
    Probe { helper: Helper, tried: bool },
    /// This helper is installed and is to be used.
    Escalate { helper: Helper },
    /// The process runs as root and the first `done` calls of the plan have
    /// succeeded; the next one is due.
    Drive { done: nat },
    /// Every call of the plan has succeeded.
    Finished,
    /// The run was given up for this reason.
    Aborted { error: Error },
}

/// What comes after a helper that was not installed or did not work: the
/// next helper, or the end of the run when there is none. The run then ends
/// as failed if any helper was tried, and as unavailable if none was
/// installed.
pub open spec fn after_helper(helper: Helper, tried: bool) -> Stage {
    match helper.spec_next() {
        Some(following) => Stage::Probe { helper: following, tried },
        None => Stage::Aborted {
            error: if tried {
                Error::EscalationFailed
            } else {
                Error::EscalationUnavailable
            },
        },
    }
}

/// The state of a run: the driver calls that it is to make, and how far it
/// has come.
pub struct Model {
    pub plan: Seq<DriverCall>,
    pub stage: Stage,
}

impl Model {
    /// A run before its first step.
    pub open spec fn start(plan: Seq<DriverCall>) -> Model {
        Model { plan, stage: Stage::CheckRoot }
    }

    /// A call that is due is a call of the plan.
    pub open spec fn wf(self) -> bool {
        self.stage matches Stage::Drive { done } ==> done < self.plan.len()
    }

    /// The stage in which the first `done` calls of the plan have succeeded.
    pub open spec fn enter(self, done: nat) -> Stage {
        if done < self.plan.len() {
            Stage::Drive { done }
        } else {
            Stage::Finished
        }
    }

    /// What the caller is asked to do in this state.
    pub open spec fn step(self) -> Step {
        match self.stage {
            Stage::CheckRoot => Step::CheckRoot,
            Stage::Probe { helper, .. } => Step::Probe(helper),
            Stage::Escalate { helper } => Step::Escalate(helper),
            Stage::Drive { done } => Step::Call(self.plan[done as int]),
            Stage::Finished => Step::Finish,
            Stage::Aborted { error } => Step::Abort(error),
        }
    }

    /// Whether the reply answers the step that is due. A setter is answered
    /// with a status code, every other step with yes or no; once the run is
    /// over, nothing is due and no reply is accepted.
    pub open spec fn accepts(self, reply: Reply) -> bool {
        match self.step() {
            Step::Call(DriverCall::Apply(_, _)) => reply is Status,
            Step::Finish | Step::Abort(_) => false,
            _ => reply is Yes || reply is No,
        }
    }

    /// The state after the reply. A reply that is not accepted changes
    /// nothing.
    pub open spec fn advance(self, reply: Reply) -> Model {
        if !self.accepts(reply) {
            self
        } else {
            let stage = match self.stage {
                Stage::CheckRoot => if reply.success() {
                    self.enter(0)
                } else {
                    Stage::Probe { helper: Helper::Sudo, tried: false }
                },
                Stage::Probe { helper, tried } => if reply.success() {
                    Stage::Escalate { helper }
                } else {
                    after_helper(helper, tried)
                },
                Stage::Escalate { helper } => if reply.success() {
                    self.enter(0)
                } else {
                    after_helper(helper, true)
                },
                Stage::Drive { done } => if reply.success() {
                    self.enter(done + 1)
                } else {
                    Stage::Aborted { error: self.plan[done as int].spec_failure(reply.code()) }
                },
                Stage::Finished => Stage::Finished,
                Stage::Aborted { error } => Stage::Aborted { error },
            };
            Model { plan: self.plan, stage }
        }
    }

    /// The state after a sequence of replies, given one after the other.
    pub open spec fn run(self, replies: Seq<Reply>) -> Model
        decreases replies.len(),
    {
        if replies.len() == 0 {
            self
        } else {
            self.run(replies.drop_last()).advance(replies.last())
        }
    }

    /// Whether the run is over.
    pub open spec fn over(self) -> bool {
        self.stage is Finished || self.stage is Aborted
    }
}

enum Phase {
    CheckRoot,
    Probe(Helper, bool),
    Escalate(Helper),
    Drive(usize),
    Finished,
    Aborted(Error),
}

/// A run in progress.
pub struct Session {
    plan: Vec<DriverCall>,
    phase: Phase,
}

impl View for Session {
    type V = Model;

    closed spec fn view(&self) -> Model {
        Model { plan: self.plan@, stage: self.phase.stage() }
    }
}

impl Phase {
    spec fn stage(self) -> Stage {
        match self {
            Phase::CheckRoot => Stage::CheckRoot,
            Phase::Probe(helper, tried) => Stage::Probe { helper, tried },
            Phase::Escalate(helper) => Stage::Escalate { helper },
            Phase::Drive(done) => Stage::Drive { done: done as nat },
            Phase::Finished => Stage::Finished,
            Phase::Aborted(error) => Stage::Aborted { error },
        }
    }
}

fn following(helper: Helper, tried: bool) -> (phase: Phase)
    ensures
        phase is Probe || phase is Aborted,
        phase.stage() == after_helper(helper, tried),
{
    match helper.next() {
        Some(next) => Phase::Probe(next, tried),
        None => Phase::Aborted(
            if tried {
                Error::EscalationFailed
            } else {
                Error::EscalationUnavailable
            },
        ),
    }
}

impl Session {
    #[verifier::type_invariant]
    spec fn in_plan(&self) -> bool {
        self.phase matches Phase::Drive(done) ==> done < self.plan@.len()
    }

    /// A run over the given configuration, before its first step.
    pub fn new(config: &Configuration) -> (session: Session)
        ensures
            session@ == Model::start(spec_plan(config.entries())),
    {
        Session { plan: plan(config), phase: Phase::CheckRoot }
    }

    /// What is to be done next.
    pub fn step(&self) -> (step: Step)
        ensures
            step == self@.step(),
            self@.wf(),
    {
        proof {
            use_type_invariant(self);
        }
        match self.phase {
            Phase::CheckRoot => Step::CheckRoot,
            Phase::Probe(helper, _) => Step::Probe(helper),
            Phase::Escalate(helper) => Step::Escalate(helper),
            Phase::Drive(done) => Step::Call(self.plan[done]),
            Phase::Finished => Step::Finish,
            Phase::Aborted(error) => Step::Abort(error),
        }
    }

    fn enter(&self, done: usize) -> (phase: Phase)
        requires
            done <= self.plan@.len(),
        ensures
            phase matches Phase::Drive(at) ==> at < self.plan@.len(),
            phase.stage() == self@.enter(done as nat),
    {
        if done < self.plan.len() {
            Phase::Drive(done)
        } else {
            Phase::Finished
        }
    }

    /// Takes the answer to the step that is due and moves on. Returns
    /// whether the reply answered that step; one that did not is ignored.
    pub fn advance(&mut self, reply: Reply) -> (accepted: bool)
        ensures
            accepted == old(self)@.accepts(reply),
            final(self)@ == old(self)@.advance(reply),
            final(self)@.wf(),
    {
        proof {
            use_type_invariant(&*self);
        }
        let moved: Option<Phase> = match self.phase {
            Phase::CheckRoot => match reply {
                Reply::Yes => Some(self.enter(0)),
                Reply::No => Some(Phase::Probe(Helper::Sudo, false)),
                Reply::Status(_) => None,
            },
            Phase::Probe(helper, tried) => match reply {
                Reply::Yes => Some(Phase::Escalate(helper)),
                Reply::No => Some(following(helper, tried)),
                Reply::Status(_) => None,
            },
            Phase::Escalate(helper) => match reply {
                Reply::Yes => Some(self.enter(0)),
                Reply::No => Some(following(helper, true)),
                Reply::Status(_) => None,
            },
            Phase::Drive(done) => {
                let call = self.plan[done];
                assert(done < self.plan.len());
                match (call, reply) {
                    (DriverCall::Apply(_, setting), Reply::Status(code)) => match setting.check(
                        code,
                    ) {
                        Ok(()) => Some(self.enter(done + 1)),
                        Err(error) => Some(Phase::Aborted(error)),
                    },
                    (DriverCall::Apply(_, _), _) => None,
                    (_, Reply::Yes) => Some(self.enter(done + 1)),
                    (_, Reply::No) => Some(Phase::Aborted(call.failure(0))),
                    (_, Reply::Status(_)) => None,
                }
            },
            Phase::Finished => None,
            Phase::Aborted(_) => None,
        };
        match moved {
            Some(phase) => {
                self.phase = phase;
                true
            },
            None => false,
        }
    }
}

} // verus!
