//! What holds of every run, whatever the machine answers.
//!
//! The laws are stated over the [`Model`] of a session and over sequences of
//! replies, so they cover every way in which the steps of a run can go.

use crate::error::Error;
use crate::params::Setting;
use crate::plan::DriverCall;
use crate::session::{Helper, Model, Reply, Stage, Step};
use vstd::prelude::*;

verus! {

/// A step keeps the plan, and a call that is due after it is a call of the
/// plan.
pub proof fn lemma_advance_wf(model: Model, reply: Reply)
    requires
        model.wf(),
    ensures
        model.advance(reply).wf(),
        model.advance(reply).plan == model.plan,
{
}

/// A run keeps the plan, and a call that is due in it is a call of the plan.
pub proof fn lemma_run_wf(model: Model, replies: Seq<Reply>)
    requires
        model.wf(),
    ensures
        model.run(replies).wf(),
        model.run(replies).plan == model.plan,
    decreases replies.len(),
{
    if replies.len() > 0 {
        lemma_run_wf(model, replies.drop_last());
        lemma_advance_wf(model.run(replies.drop_last()), replies.last());
    }
}

/// A run that is over stays as it ended: no reply moves it again.
pub proof fn lemma_over_is_final(model: Model, replies: Seq<Reply>)
    requires
        model.over(),
    ensures
        model.run(replies) == model,
    decreases replies.len(),
{
    if replies.len() > 0 {
        lemma_over_is_final(model, replies.drop_last());
    }
}

/// The first failure ends the run. When a driver call fails, the run is
/// aborted with the error of that call, and whatever is reported afterwards
/// it stays aborted with that error: no further call is asked for.
pub proof fn lemma_failure_ends_run(model: Model, reply: Reply, replies: Seq<Reply>)
    requires
        model.wf(),
        model.step() is Call,
        model.accepts(reply),
        !reply.success(),
    ensures
        model.advance(reply).run(replies).step() == Step::Abort(
            model.step()->Call_0.spec_failure(reply.code()),
        ),
{
    lemma_over_is_final(model.advance(reply), replies);
}

/// A status code other than zero from a setter ends the run with an error
/// that names the setter's operation and carries that very code; no setter
/// is called after it, on this device or on any other.
pub proof fn lemma_setter_failure_ends_run(
    model: Model,
    index: u32,
    setting: Setting,
    status: u32,
    replies: Seq<Reply>,
)
    requires
        model.wf(),
        model.step() == Step::Call(DriverCall::Apply(index, setting)),
        status != 0,
    ensures
        model.advance(Reply::Status(status)).run(replies).step() == Step::Abort(
            Error::SetterFailed(setting.spec_operation(), status),
        ),
{
    lemma_failure_ends_run(model, Reply::Status(status), replies);
}

/// A device that cannot be found ends the run with an error that names its
/// index; nothing is applied to the devices that come after it.
pub proof fn lemma_lookup_failure_ends_run(model: Model, index: u32, replies: Seq<Reply>)
    requires
        model.wf(),
        model.step() == Step::Call(DriverCall::Lookup(index)),
    ensures
        model.advance(Reply::No).run(replies).step() == Step::Abort(Error::DeviceNotFound(index)),
{
    lemma_failure_ends_run(model, Reply::No, replies);
}

/// The reply that reports the success of a driver call.
pub open spec fn success_of(call: DriverCall) -> Reply {
    match call {
        DriverCall::Apply(_, _) => Reply::Status(0),
        _ => Reply::Yes,
    }
}

/// The replies that report the success of the first `count` calls of a plan.
pub open spec fn successes(plan: Seq<DriverCall>, count: nat) -> Seq<Reply> {
    Seq::new(count, |at: int| success_of(plan[at]))
}

/// As long as every call succeeds, the calls of the plan are asked for one
/// after the other, each once and in the plan's order, and after the last
/// one the run is finished.
pub proof fn lemma_success_path(plan: Seq<DriverCall>, count: nat)
    requires
        count <= plan.len(),
    ensures
        Model::start(plan).advance(Reply::Yes).run(successes(plan, count)).stage == Model::start(
            plan,
        ).enter(count),
    decreases count,
{
    let granted = Model::start(plan).advance(Reply::Yes);
    if count == 0 {
        assert(successes(plan, count).len() == 0);
    } else {
        let before = (count - 1) as nat;
        lemma_success_path(plan, before);
        lemma_run_wf(granted, successes(plan, before));
        assert(successes(plan, count).drop_last() =~= successes(plan, before));
        assert(successes(plan, count).last() == success_of(plan[before as int]));
        let due = granted.run(successes(plan, before));
        assert(due.stage == Stage::Drive { done: before });
        assert(due.accepts(success_of(plan[before as int])));
    }
}

/// The driver calls that were made in a run: those that were due when a
/// reply came that answered them, in the order of the replies.
pub open spec fn performed(model: Model, replies: Seq<Reply>) -> Seq<DriverCall>
    decreases replies.len(),
{
    if replies.len() == 0 {
        Seq::empty()
    } else {
        let before = model.run(replies.drop_last());
        let earlier = performed(model, replies.drop_last());
        if before.step() is Call && before.accepts(replies.last()) {
            earlier.push(before.step()->Call_0)
        } else {
            earlier
        }
    }
}

/// Whatever the replies are, the driver calls made in a run are the first
/// calls of its plan, in the plan's order: no call is made out of turn, none
/// is made twice, and none is made that the plan does not hold. While a
/// call is due, the calls made are exactly those before it; when the run
/// has finished, they are the whole plan.
pub proof fn lemma_calls_follow_plan(plan: Seq<DriverCall>, replies: Seq<Reply>)
    ensures
        ({
            let made = performed(Model::start(plan), replies);
            let end = Model::start(plan).run(replies);
            &&& made.len() <= plan.len()
            &&& made == plan.take(made.len() as int)
            &&& escalating(end) ==> made.len() == 0
            &&& end.stage matches Stage::Drive { done } ==> made.len() == done
            &&& end.stage is Finished ==> made == plan
        }),
    decreases replies.len(),
{
    let start = Model::start(plan);
    if replies.len() == 0 {
        assert(plan.take(0) =~= Seq::<DriverCall>::empty());
    } else {
        let rest = replies.drop_last();
        lemma_calls_follow_plan(plan, rest);
        lemma_run_wf(start, rest);
        let before = start.run(rest);
        let earlier = performed(start, rest);
        let made = performed(start, replies);
        if before.step() is Call && before.accepts(replies.last()) {
            let done = before.stage->Drive_done;
            assert(made =~= plan.take(done as int + 1));
        }
        assert(plan.take(plan.len() as int) =~= plan);
    }
}

/// Whether the run has got as far as the driver: a call is due, or was made.
pub open spec fn reached_driver(model: Model) -> bool {
    match model.stage {
        Stage::Drive { .. } | Stage::Finished => true,
        Stage::Aborted { error } => error is DriverInit || error is DeviceNotFound
            || error is SetterFailed,
        _ => false,
    }
}

/// Whether the reply to the step says that the process runs as root.
pub open spec fn grants(step: Step, reply: Reply) -> bool {
    (step is CheckRoot || step is Escalate) && reply is Yes
}

/// Privileges come first. A run gets as far as the driver only after it was
/// told that the process runs as root, either at the start or after an
/// escalation.
pub proof fn lemma_privilege_first(plan: Seq<DriverCall>, replies: Seq<Reply>)
    requires
        reached_driver(Model::start(plan).run(replies)),
    ensures
        exists|k: int|
            0 <= k < replies.len() && grants(
                #[trigger] Model::start(plan).run(replies.take(k)).step(),
                replies[k],
            ),
    decreases replies.len(),
{
    let start = Model::start(plan);
    if replies.len() > 0 {
        let rest = replies.drop_last();
        let before = start.run(rest);
        if reached_driver(before) {
            lemma_privilege_first(plan, rest);
            let k = choose|k: int|
                0 <= k < rest.len() && grants(#[trigger] start.run(rest.take(k)).step(), rest[k]);
            assert(replies.take(k) =~= rest.take(k));
            assert(grants(start.run(replies.take(k)).step(), replies[k]));
        } else {
            let k = replies.len() - 1;
            assert(replies.take(k) =~= rest);
            assert(grants(start.run(replies.take(k)).step(), replies[k]));
        }
    }
}

/// The machine as far as gaining privileges goes: whether the process runs
/// as root, which helpers are installed, and which of them would succeed.
pub struct Host {
    pub root: bool,
    pub installed: Set<Helper>,
    pub working: Set<Helper>,
}

impl Host {
    /// Whether the helper is installed and would succeed.
    pub open spec fn usable(self, helper: Helper) -> bool {
        self.installed.contains(helper) && self.working.contains(helper)
    }

    /// The host's answer to a step that concerns privileges.
    pub open spec fn answer(self, step: Step) -> Reply
        recommends
            step is CheckRoot || step is Probe || step is Escalate,
    {
        let yes = match step {
            Step::CheckRoot => self.root,
            Step::Probe(helper) => self.installed.contains(helper),
            Step::Escalate(helper) => self.working.contains(helper),
            _ => false,
        };
        if yes {
            Reply::Yes
        } else {
            Reply::No
        }
    }
}

/// Whether the run is still busy with privileges.
pub open spec fn escalating(model: Model) -> bool {
    model.stage is CheckRoot || model.stage is Probe || model.stage is Escalate
}

/// The state in which a run on the given host is done with privileges,
/// reached in at most `limit` steps.
pub open spec fn settle(model: Model, host: Host, limit: nat) -> Model
    decreases limit,
{
    if limit == 0 || !escalating(model) {
        model
    } else {
        settle(model.advance(host.answer(model.step())), host, (limit - 1) as nat)
    }
}

/// How gaining privileges ends. The run goes on to the driver exactly if the
/// process runs as root or one of the helpers is installed and succeeds. It
/// is given up as unavailable if the process does not run as root and no
/// helper is installed, and as failed if some helper is installed but none
/// that is installed succeeds. Seven steps are enough to decide.
pub proof fn lemma_escalation_outcome(plan: Seq<DriverCall>, host: Host)
    ensures
        settle(Model::start(plan), host, 7).plan == plan,
        settle(Model::start(plan), host, 7).stage == if host.root || host.usable(Helper::Sudo)
            || host.usable(Helper::Doas) || host.usable(Helper::Pkexec) {
            Model::start(plan).enter(0)
        } else if !host.installed.contains(Helper::Sudo) && !host.installed.contains(Helper::Doas)
            && !host.installed.contains(Helper::Pkexec) {
            Stage::Aborted { error: Error::EscalationUnavailable }
        } else {
            Stage::Aborted { error: Error::EscalationFailed }
        },
{
    reveal_with_fuel(settle, 8);
}

} // verus!
