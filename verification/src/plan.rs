//! The driver calls of a run, laid out before any of them is made.

use crate::config::{ascending, last_for, lemma_last_for, Configuration, Target};
use crate::error::Error;
use crate::params::{lemma_settings_exact, lemma_settings_ordered, Setting};
use vstd::prelude::*;

verus! {

/// One call into the driver.
#[derive(Clone, Copy, Debug, PartialEq, Eq, Structural)]
pub enum DriverCall {
    /// Initialise the driver library.
    Init,
    /// Resolve the device with this index.
    Lookup(u32),
    /// Call a setter on the device with this index.
    Apply(u32, Setting),
}

impl DriverCall {
    /// The error that ends the run when this call fails. A setter fails with
    /// a status code, which the error carries as it came; the other calls
    /// have none.
    pub open spec fn spec_failure(&self, status: u32) -> Error {
        match *self {
            DriverCall::Init => Error::DriverInit,
            DriverCall::Lookup(index) => Error::DeviceNotFound(index),
            DriverCall::Apply(_, setting) => Error::SetterFailed(setting.spec_operation(), status),
        }
    }

    /// The error that ends the run when this call fails with the given
    /// status code.
    #[verifier::when_used_as_spec(spec_failure)]
    pub fn failure(&self, status: u32) -> (error: Error)
        ensures
            error == self.spec_failure(status),
    {
        match *self {
            DriverCall::Init => Error::DriverInit,
            DriverCall::Lookup(index) => Error::DeviceNotFound(index),
            DriverCall::Apply(_, setting) => Error::SetterFailed(setting.operation(), status),
        }
    }
}

/// The calls for one target: the device is looked up, then each of its
/// settings is applied to it, in their order.
pub open spec fn device_calls(target: Target) -> Seq<DriverCall> {
    seq![DriverCall::Lookup(target.index)] + target.sets.spec_settings().map_values(
        |setting: Setting| DriverCall::Apply(target.index, setting),
    )
}

/// The calls for a list of targets: those of the first target, then those of
/// the second, and so on.
pub open spec fn targets_calls(entries: Seq<Target>) -> Seq<DriverCall> {
    entries.flat_map(|target: Target| device_calls(target))
}

/// The calls of a whole run: the driver is initialised, then the targets are
/// gone through.
pub open spec fn spec_plan(entries: Seq<Target>) -> Seq<DriverCall> {
    seq![DriverCall::Init] + targets_calls(entries)
}

/// The calls for a list that has one more target at its end are those for
/// the list, followed by those for that target.
pub proof fn lemma_targets_calls_push(entries: Seq<Target>, target: Target)
    ensures
        targets_calls(entries.push(target)) == targets_calls(entries) + device_calls(target),
{
    let each = |target: Target| device_calls(target);
    entries.lemma_push_map_commute(each, target);
    entries.map_values(each).lemma_flatten_push(device_calls(target));
}

proof fn lemma_contains_add(left: Seq<DriverCall>, right: Seq<DriverCall>, call: DriverCall)
    ensures
        (left + right).contains(call) <==> left.contains(call) || right.contains(call),
{
    let both = left + right;
    if both.contains(call) {
        let at = choose|at: int| 0 <= at < both.len() && both[at] == call;
        if at < left.len() {
            assert(left[at] == call);
        } else {
            assert(right[at - left.len()] == call);
        }
    }
    if left.contains(call) {
        let at = choose|at: int| 0 <= at < left.len() && left[at] == call;
        assert(both[at] == call);
    }
    if right.contains(call) {
        let at = choose|at: int| 0 <= at < right.len() && right[at] == call;
        assert(both[left.len() + at] == call);
    }
}

/// The calls for one target, position by position: the lookup of its device
/// comes first, and the call at each later position applies the setting at
/// the position before it to that same device.
pub proof fn lemma_device_calls(target: Target)
    ensures
        device_calls(target).len() == 1 + target.sets.spec_settings().len(),
        device_calls(target)[0] == DriverCall::Lookup(target.index),
        forall|at: int|
            1 <= at < device_calls(target).len() ==> #[trigger] device_calls(target)[at]
                == DriverCall::Apply(target.index, target.sets.spec_settings()[at - 1]),
{
}

/// A call is among the calls for a list of targets exactly if it is among
/// the calls for one of the targets.
pub proof fn lemma_calls_by_target(entries: Seq<Target>, call: DriverCall)
    ensures
        targets_calls(entries).contains(call) <==> exists|k: int|
            0 <= k < entries.len() && #[trigger] device_calls(entries[k]).contains(call),
    decreases entries.len(),
{
    if entries.len() == 0 {
        assert(targets_calls(entries) =~= Seq::<DriverCall>::empty());
    } else {
        let rest = entries.drop_last();
        let last = entries.last();
        assert(entries =~= rest.push(last));
        lemma_targets_calls_push(rest, last);
        lemma_contains_add(targets_calls(rest), device_calls(last), call);
        lemma_calls_by_target(rest, call);
        if targets_calls(rest).contains(call) {
            let k = choose|k: int|
                0 <= k < rest.len() && #[trigger] device_calls(rest[k]).contains(call);
            assert(device_calls(entries[k]).contains(call));
        }
        if device_calls(last).contains(call) {
            assert(device_calls(entries[entries.len() - 1]).contains(call));
        }
        if exists|k: int|
            0 <= k < entries.len() && #[trigger] device_calls(entries[k]).contains(call) {
            let k = choose|k: int|
                0 <= k < entries.len() && #[trigger] device_calls(entries[k]).contains(call);
            if k < rest.len() {
                assert(device_calls(rest[k]).contains(call));
            }
        }
    }
}

/// Values pass through untouched, and nothing is applied that was not asked
/// for: the plan applies a setting to a device exactly if the configuration
/// holds a request for that device, and the request holds that very value
/// in the field of the setting's operation.
pub proof fn lemma_plan_values(entries: Seq<Target>, index: u32, setting: Setting)
    requires
        ascending(entries),
    ensures
        spec_plan(entries).contains(DriverCall::Apply(index, setting)) <==> (last_for(
            entries,
            index,
        ) matches Some(sets) && match setting {
            Setting::FrequencyOffset(offset) => sets.freq_offset == Some(offset),
            Setting::MemoryOffset(offset) => sets.mem_offset == Some(offset),
            Setting::PowerLimit(limit) => sets.power_limit == Some(limit),
        }),
{
    let call = DriverCall::Apply(index, setting);
    lemma_contains_add(seq![DriverCall::Init], targets_calls(entries), call);
    if seq![DriverCall::Init].contains(call) {
        let at = choose|at: int| 0 <= at < 1 && seq![DriverCall::Init][at] == call;
    }
    lemma_calls_by_target(entries, call);
    lemma_last_for(entries, index);
    if targets_calls(entries).contains(call) {
        let k = choose|k: int|
            0 <= k < entries.len() && #[trigger] device_calls(entries[k]).contains(call);
        let calls = device_calls(entries[k]);
        let at = choose|at: int| 0 <= at < calls.len() && calls[at] == call;
        lemma_device_calls(entries[k]);
        assert(entries[k].index == index);
        assert(entries[k].sets.spec_settings()[at - 1] == setting);
        assert(entries[k].sets.spec_settings().contains(setting));
        lemma_settings_exact(entries[k].sets, setting);
    }
    if let Some(sets) = last_for(entries, index) {
        lemma_settings_exact(sets, setting);
        if sets.spec_settings().contains(setting) {
            let target = Target { index, sets };
            let k = choose|k: int| 0 <= k < entries.len() && entries[k] == target;
            let at = choose|at: int|
                0 <= at < sets.spec_settings().len() && sets.spec_settings()[at] == setting;
            lemma_device_calls(target);
            assert(device_calls(target)[at + 1] == call);
            assert(device_calls(entries[k]).contains(call));
        }
    }
}

/// A device is looked up exactly if it is a target of the configuration.
pub proof fn lemma_plan_lookups(entries: Seq<Target>, index: u32)
    requires
        ascending(entries),
    ensures
        spec_plan(entries).contains(DriverCall::Lookup(index)) <==> last_for(entries, index) is Some,
{
    let call = DriverCall::Lookup(index);
    lemma_contains_add(seq![DriverCall::Init], targets_calls(entries), call);
    if seq![DriverCall::Init].contains(call) {
        let at = choose|at: int| 0 <= at < 1 && seq![DriverCall::Init][at] == call;
    }
    lemma_calls_by_target(entries, call);
    lemma_last_for(entries, index);
    if targets_calls(entries).contains(call) {
        let k = choose|k: int|
            0 <= k < entries.len() && #[trigger] device_calls(entries[k]).contains(call);
        let calls = device_calls(entries[k]);
        let at = choose|at: int| 0 <= at < calls.len() && calls[at] == call;
        lemma_device_calls(entries[k]);
        assert(entries[k].index == index);
    }
    if let Some(sets) = last_for(entries, index) {
        let target = Target { index, sets };
        let k = choose|k: int| 0 <= k < entries.len() && entries[k] == target;
        lemma_device_calls(target);
        assert(device_calls(target)[0] == call);
        assert(device_calls(entries[k]).contains(call));
    }
}

/// The order of the setter calls is fixed. Of two setter calls in the plan,
/// the earlier one is for a device with a lower index, or for the same
/// device and an operation of lower rank: devices are gone through in
/// ascending order, and on each device the frequency offset is set before
/// the memory offset, and the memory offset before the power limit.
pub proof fn lemma_plan_ordered(entries: Seq<Target>, earlier: int, later: int)
    requires
        ascending(entries),
        0 <= earlier < later < targets_calls(entries).len(),
        targets_calls(entries)[earlier] is Apply,
        targets_calls(entries)[later] is Apply,
    ensures
        ({
            let first = targets_calls(entries)[earlier];
            let second = targets_calls(entries)[later];
            first->Apply_0 < second->Apply_0 || (first->Apply_0 == second->Apply_0
                && first->Apply_1.spec_operation().rank() < second->Apply_1.spec_operation().rank())
        }),
    decreases entries.len(),
{
    if entries.len() == 0 {
        assert(targets_calls(entries) =~= Seq::<DriverCall>::empty());
    } else {
        let rest = entries.drop_last();
        let last = entries.last();
        assert(entries =~= rest.push(last));
        lemma_targets_calls_push(rest, last);
        lemma_device_calls(last);
        let split = targets_calls(rest).len() as int;
        if later < split {
            lemma_plan_ordered(rest, earlier, later);
        } else if earlier >= split {
            assert(targets_calls(entries)[earlier] == device_calls(last)[earlier - split]);
            assert(targets_calls(entries)[later] == device_calls(last)[later - split]);
            lemma_settings_ordered(last.sets, earlier - split - 1, later - split - 1);
        } else {
            let first = targets_calls(rest)[earlier];
            assert(targets_calls(entries)[earlier] == first);
            assert(targets_calls(entries)[later] == device_calls(last)[later - split]);
            assert(targets_calls(rest).contains(first));
            lemma_calls_by_target(rest, first);
            let k = choose|k: int|
                0 <= k < rest.len() && #[trigger] device_calls(rest[k]).contains(first);
            let calls = device_calls(rest[k]);
            let at = choose|at: int| 0 <= at < calls.len() && calls[at] == first;
            lemma_device_calls(rest[k]);
            assert(first->Apply_0 == rest[k].index);
            assert(entries[k].index < entries[entries.len() - 1].index);
        }
    }
}

/// No setter is called on a device that was not looked up before: each
/// setter call in the plan comes after the lookup of its device, with
/// nothing but setter calls on that device in between.
pub proof fn lemma_plan_lookup_first(entries: Seq<Target>, at: int)
    requires
        0 <= at < targets_calls(entries).len(),
        targets_calls(entries)[at] is Apply,
    ensures
        exists|lookup: int|
            0 <= lookup < at && #[trigger] targets_calls(entries)[lookup] == DriverCall::Lookup(
                targets_calls(entries)[at]->Apply_0,
            ) && forall|between: int|
                lookup < between < at ==> (#[trigger] targets_calls(entries)[between] matches DriverCall::Apply(
                    index,
                    _,
                ) && index == targets_calls(entries)[at]->Apply_0),
    decreases entries.len(),
{
    if entries.len() == 0 {
        assert(targets_calls(entries) =~= Seq::<DriverCall>::empty());
    } else {
        let rest = entries.drop_last();
        let last = entries.last();
        assert(entries =~= rest.push(last));
        lemma_targets_calls_push(rest, last);
        lemma_device_calls(last);
        let all = targets_calls(entries);
        let split = targets_calls(rest).len() as int;
        if at < split {
            lemma_plan_lookup_first(rest, at);
            let device = targets_calls(rest)[at]->Apply_0;
            let lookup = choose|lookup: int|
                0 <= lookup < at && #[trigger] targets_calls(rest)[lookup] == DriverCall::Lookup(
                    device,
                ) && forall|between: int|
                    lookup < between < at ==> (#[trigger] targets_calls(rest)[between] matches DriverCall::Apply(
                        index,
                        _,
                    ) && index == device);
            assert(all[lookup] == targets_calls(rest)[lookup]);
            assert forall|between: int| lookup < between < at implies (#[trigger] all[between] matches DriverCall::Apply(
                index,
                _,
            ) && index == all[at]->Apply_0) by {
                assert(all[between] == targets_calls(rest)[between]);
            }
        } else {
            assert(all[at] == device_calls(last)[at - split]);
            assert(all[split] == device_calls(last)[0]);
            assert forall|between: int| split < between < at implies (#[trigger] all[between] matches DriverCall::Apply(
                index,
                _,
            ) && index == all[at]->Apply_0) by {
                assert(all[between] == device_calls(last)[between - split]);
            }
        }
    }
}

/// Lays out the driver calls of a run over the given configuration.
pub fn plan(config: &Configuration) -> (calls: Vec<DriverCall>)
    ensures
        calls@ == spec_plan(config.entries()),
{
    let targets = config.targets();
    let mut calls: Vec<DriverCall> = Vec::new();
    calls.push(DriverCall::Init);
    assert(targets@.take(0) =~= Seq::<Target>::empty());
    assert(targets_calls(Seq::<Target>::empty()) =~= Seq::<DriverCall>::empty());
    assert(calls@ =~= spec_plan(targets@.take(0)));
    let mut at: usize = 0;
    while at < targets.len()
        invariant
            at <= targets.len(),
            calls@ == spec_plan(targets@.take(at as int)),
        decreases targets.len() - at,
    {
        let target = targets[at];
        let settings = target.sets.settings();
        let ghost done = calls@;
        calls.push(DriverCall::Lookup(target.index));
        let mut next: usize = 0;
        while next < settings.len()
            invariant
                next <= settings.len(),
                settings@ == target.sets.spec_settings(),
                calls@ == done.push(DriverCall::Lookup(target.index)) + Seq::new(
                    next as nat,
                    |k: int| DriverCall::Apply(target.index, settings@[k]),
                ),
            decreases settings.len() - next,
        {
            calls.push(DriverCall::Apply(target.index, settings[next]));
            next += 1;
            assert(calls@ =~= done.push(DriverCall::Lookup(target.index)) + Seq::new(
                next as nat,
                |k: int| DriverCall::Apply(target.index, settings@[k]),
            ));
        }
        proof {
            assert(calls@ =~= done + device_calls(target));
            lemma_targets_calls_push(targets@.take(at as int), target);
            assert(targets@.take(at as int).push(target) =~= targets@.take(at + 1));
            assert(calls@ =~= spec_plan(targets@.take(at + 1)));
        }
        at += 1;
    }
    assert(targets@.take(at as int) =~= targets@);
    calls
}

} // verus!
