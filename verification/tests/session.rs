use nvidia_oc::config::{resolve_config, resolve_direct, ConfigFile, Configuration, Target};
use nvidia_oc::error::Error;
use nvidia_oc::params::{Operation, Setting, Sets};
use nvidia_oc::plan::DriverCall;
use nvidia_oc::session::{Helper, Reply, Session, Step};

/// A machine that answers from a script.
struct Machine {
    root: bool,
    installed: Vec<Helper>,
    working: Vec<Helper>,
    driver: bool,
    devices: u32,
    failing: Vec<(u32, Operation, u32)>,
}

fn healthy(devices: u32) -> Machine {
    Machine {
        root: true,
        installed: Vec::new(),
        working: Vec::new(),
        driver: true,
        devices,
        failing: Vec::new(),
    }
}

fn yes_no(yes: bool) -> Reply {
    if yes {
        Reply::Yes
    } else {
        Reply::No
    }
}

fn answer(machine: &Machine, step: Step) -> Reply {
    match step {
        Step::CheckRoot => yes_no(machine.root),
        Step::Probe(helper) => yes_no(machine.installed.contains(&helper)),
        Step::Escalate(helper) => yes_no(machine.working.contains(&helper)),
        Step::Call(DriverCall::Init) => yes_no(machine.driver),
        Step::Call(DriverCall::Lookup(index)) => yes_no(index < machine.devices),
        Step::Call(DriverCall::Apply(index, setting)) => {
            let mut status = 0;
            for (device, operation, code) in &machine.failing {
                if *device == index && *operation == setting.operation() {
                    status = *code;
                }
            }
            Reply::Status(status)
        }
        Step::Finish | Step::Abort(_) => unreachable!(),
    }
}

/// Runs the session on the machine; returns the steps that were performed
/// and the step at which the run ended.
fn drive(session: &mut Session, machine: &Machine) -> (Vec<Step>, Step) {
    let mut performed = Vec::new();
    for _ in 0..1000 {
        let step = session.step();
        match step {
            Step::Finish | Step::Abort(_) => return (performed, step),
            _ => {
                let reply = answer(machine, step);
                assert!(session.advance(reply));
                performed.push(step);
            }
        }
    }
    panic!("the run did not end");
}

fn setter_calls(performed: &[Step]) -> Vec<(u32, Setting)> {
    let mut calls = Vec::new();
    for step in performed {
        if let Step::Call(DriverCall::Apply(index, setting)) = step {
            calls.push((*index, *setting));
        }
    }
    calls
}

fn three_devices() -> Configuration {
    let mut config = Configuration::new();
    config.insert(0, Sets::new(Some(10), Some(20), Some(30)));
    config.insert(1, Sets::new(Some(11), Some(21), Some(31)));
    config.insert(2, Sets::new(Some(12), Some(22), Some(32)));
    config
}

#[test]
fn session_starts_by_checking_for_root() {
    let session = Session::new(&Configuration::new());
    assert_eq!(session.step(), Step::CheckRoot);
}

#[test]
fn step_does_not_move_the_session() {
    let session = Session::new(&three_devices());
    assert_eq!(session.step(), session.step());
}

#[test]
fn direct_mode_with_one_frequency_offset() {
    let config = resolve_direct(0, Sets::new(Some(100), None, None)).unwrap();
    let mut session = Session::new(&config);
    let (performed, end) = drive(&mut session, &healthy(1));
    assert_eq!(
        performed,
        vec![
            Step::CheckRoot,
            Step::Call(DriverCall::Init),
            Step::Call(DriverCall::Lookup(0)),
            Step::Call(DriverCall::Apply(0, Setting::FrequencyOffset(100))),
        ]
    );
    assert_eq!(setter_calls(&performed), vec![(0, Setting::FrequencyOffset(100))]);
    assert_eq!(end, Step::Finish);
}

#[test]
fn config_mode_applies_frequency_then_power() {
    let file = ConfigFile::Parsed(vec![Target {
        index: 0,
        sets: Sets::new(Some(50), None, Some(150_000)),
    }]);
    let config = resolve_config(file).unwrap();
    let mut session = Session::new(&config);
    let (performed, end) = drive(&mut session, &healthy(1));
    assert_eq!(
        setter_calls(&performed),
        vec![(0, Setting::FrequencyOffset(50)), (0, Setting::PowerLimit(150_000))]
    );
    assert_eq!(end, Step::Finish);
}

#[test]
fn all_devices_are_served_when_nothing_fails() {
    let mut session = Session::new(&three_devices());
    let (performed, end) = drive(&mut session, &healthy(3));
    assert_eq!(
        setter_calls(&performed),
        vec![
            (0, Setting::FrequencyOffset(10)),
            (0, Setting::MemoryOffset(20)),
            (0, Setting::PowerLimit(30)),
            (1, Setting::FrequencyOffset(11)),
            (1, Setting::MemoryOffset(21)),
            (1, Setting::PowerLimit(31)),
            (2, Setting::FrequencyOffset(12)),
            (2, Setting::MemoryOffset(22)),
            (2, Setting::PowerLimit(32)),
        ]
    );
    assert_eq!(end, Step::Finish);
}

#[test]
fn failing_setter_ends_the_run_with_its_code() {
    let mut machine = healthy(3);
    machine.failing.push((1, Operation::MemoryOffset, 4));
    let mut session = Session::new(&three_devices());
    let (performed, end) = drive(&mut session, &machine);
    assert_eq!(
        setter_calls(&performed),
        vec![
            (0, Setting::FrequencyOffset(10)),
            (0, Setting::MemoryOffset(20)),
            (0, Setting::PowerLimit(30)),
            (1, Setting::FrequencyOffset(11)),
            (1, Setting::MemoryOffset(21)),
        ]
    );
    assert_eq!(end, Step::Abort(Error::SetterFailed(Operation::MemoryOffset, 4)));
}

#[test]
fn failing_first_setter_stops_the_other_two() {
    let mut machine = healthy(1);
    machine.failing.push((0, Operation::FrequencyOffset, 999));
    let config = resolve_direct(0, Sets::new(Some(1), Some(2), Some(3))).unwrap();
    let mut session = Session::new(&config);
    let (performed, end) = drive(&mut session, &machine);
    assert_eq!(setter_calls(&performed), vec![(0, Setting::FrequencyOffset(1))]);
    assert_eq!(end, Step::Abort(Error::SetterFailed(Operation::FrequencyOffset, 999)));
}

#[test]
fn failing_power_limit_is_reported_as_such() {
    let mut machine = healthy(1);
    machine.failing.push((0, Operation::PowerLimit, u32::MAX));
    let config = resolve_direct(0, Sets::new(Some(1), None, Some(3))).unwrap();
    let mut session = Session::new(&config);
    let (_, end) = drive(&mut session, &machine);
    assert_eq!(end, Step::Abort(Error::SetterFailed(Operation::PowerLimit, u32::MAX)));
}

#[test]
fn missing_device_ends_the_run_before_later_devices() {
    let mut config = Configuration::new();
    config.insert(0, Sets::new(Some(10), None, None));
    config.insert(5, Sets::new(Some(15), None, None));
    config.insert(1, Sets::new(Some(11), None, None));
    let mut session = Session::new(&config);
    let (performed, end) = drive(&mut session, &healthy(2));
    assert_eq!(
        setter_calls(&performed),
        vec![(0, Setting::FrequencyOffset(10)), (1, Setting::FrequencyOffset(11))]
    );
    assert_eq!(performed.last(), Some(&Step::Call(DriverCall::Lookup(5))));
    assert_eq!(end, Step::Abort(Error::DeviceNotFound(5)));
}

#[test]
fn missing_first_device_means_no_setter_call_at_all() {
    let mut session = Session::new(&three_devices());
    let (performed, end) = drive(&mut session, &healthy(0));
    assert_eq!(setter_calls(&performed), Vec::new());
    assert_eq!(end, Step::Abort(Error::DeviceNotFound(0)));
}

#[test]
fn driver_that_does_not_start_ends_the_run() {
    let mut machine = healthy(3);
    machine.driver = false;
    let mut session = Session::new(&three_devices());
    let (performed, end) = drive(&mut session, &machine);
    assert_eq!(performed, vec![Step::CheckRoot, Step::Call(DriverCall::Init)]);
    assert_eq!(end, Step::Abort(Error::DriverInit));
}

#[test]
fn entry_that_changes_nothing_is_looked_up_only() {
    let mut config = Configuration::new();
    config.insert(0, Sets::new(None, None, None));
    let mut session = Session::new(&config);
    let (performed, end) = drive(&mut session, &healthy(1));
    assert_eq!(
        performed,
        vec![
            Step::CheckRoot,
            Step::Call(DriverCall::Init),
            Step::Call(DriverCall::Lookup(0)),
        ]
    );
    assert_eq!(end, Step::Finish);
}

#[test]
fn root_needs_no_helper() {
    let mut session = Session::new(&Configuration::new());
    let (performed, end) = drive(&mut session, &healthy(0));
    assert_eq!(performed, vec![Step::CheckRoot, Step::Call(DriverCall::Init)]);
    assert_eq!(end, Step::Finish);
}

#[test]
fn sudo_is_tried_first() {
    let mut machine = healthy(0);
    machine.root = false;
    machine.installed = vec![Helper::Sudo, Helper::Doas, Helper::Pkexec];
    machine.working = vec![Helper::Sudo, Helper::Doas, Helper::Pkexec];
    let mut session = Session::new(&Configuration::new());
    let (performed, end) = drive(&mut session, &machine);
    assert_eq!(
        performed,
        vec![
            Step::CheckRoot,
            Step::Probe(Helper::Sudo),
            Step::Escalate(Helper::Sudo),
            Step::Call(DriverCall::Init),
        ]
    );
    assert_eq!(end, Step::Finish);
}

#[test]
fn helpers_that_are_not_installed_are_skipped() {
    let mut machine = healthy(0);
    machine.root = false;
    machine.installed = vec![Helper::Pkexec];
    machine.working = vec![Helper::Pkexec];
    let mut session = Session::new(&Configuration::new());
    let (performed, end) = drive(&mut session, &machine);
    assert_eq!(
        performed,
        vec![
            Step::CheckRoot,
            Step::Probe(Helper::Sudo),
            Step::Probe(Helper::Doas),
            Step::Probe(Helper::Pkexec),
            Step::Escalate(Helper::Pkexec),
            Step::Call(DriverCall::Init),
        ]
    );
    assert_eq!(end, Step::Finish);
}

#[test]
fn next_helper_is_tried_after_a_failure() {
    let mut machine = healthy(0);
    machine.root = false;
    machine.installed = vec![Helper::Sudo, Helper::Doas];
    machine.working = vec![Helper::Doas];
    let mut session = Session::new(&Configuration::new());
    let (performed, end) = drive(&mut session, &machine);
    assert_eq!(
        performed,
        vec![
            Step::CheckRoot,
            Step::Probe(Helper::Sudo),
            Step::Escalate(Helper::Sudo),
            Step::Probe(Helper::Doas),
            Step::Escalate(Helper::Doas),
            Step::Call(DriverCall::Init),
        ]
    );
    assert_eq!(end, Step::Finish);
}

#[test]
fn no_helper_installed_is_unavailable() {
    let mut machine = healthy(3);
    machine.root = false;
    let mut session = Session::new(&three_devices());
    let (performed, end) = drive(&mut session, &machine);
    assert_eq!(
        performed,
        vec![
            Step::CheckRoot,
            Step::Probe(Helper::Sudo),
            Step::Probe(Helper::Doas),
            Step::Probe(Helper::Pkexec),
        ]
    );
    assert_eq!(end, Step::Abort(Error::EscalationUnavailable));
}

#[test]
fn installed_helpers_that_all_fail_are_a_failure() {
    let mut machine = healthy(3);
    machine.root = false;
    machine.installed = vec![Helper::Doas];
    let mut session = Session::new(&three_devices());
    let (performed, end) = drive(&mut session, &machine);
    assert_eq!(
        performed,
        vec![
            Step::CheckRoot,
            Step::Probe(Helper::Sudo),
            Step::Probe(Helper::Doas),
            Step::Escalate(Helper::Doas),
            Step::Probe(Helper::Pkexec),
        ]
    );
    assert!(setter_calls(&performed).is_empty());
    assert_eq!(end, Step::Abort(Error::EscalationFailed));
}

#[test]
fn last_helper_failing_is_a_failure() {
    let mut machine = healthy(0);
    machine.root = false;
    machine.installed = vec![Helper::Pkexec];
    let mut session = Session::new(&Configuration::new());
    let (_, end) = drive(&mut session, &machine);
    assert_eq!(end, Step::Abort(Error::EscalationFailed));
}

#[test]
fn no_driver_call_without_privileges() {
    let mut machine = healthy(3);
    machine.root = false;
    machine.installed = vec![Helper::Sudo, Helper::Doas, Helper::Pkexec];
    let mut session = Session::new(&three_devices());
    let (performed, _) = drive(&mut session, &machine);
    for step in performed {
        assert!(!matches!(step, Step::Call(_)));
    }
}

#[test]
fn reply_of_the_wrong_kind_is_ignored() {
    let config = resolve_direct(0, Sets::new(Some(1), None, None)).unwrap();
    let mut session = Session::new(&config);
    assert!(!session.advance(Reply::Status(0)));
    assert_eq!(session.step(), Step::CheckRoot);
    assert!(session.advance(Reply::Yes));
    assert!(!session.advance(Reply::Status(0)));
    assert_eq!(session.step(), Step::Call(DriverCall::Init));
    assert!(session.advance(Reply::Yes));
    assert!(!session.advance(Reply::Status(7)));
    assert_eq!(session.step(), Step::Call(DriverCall::Lookup(0)));
    assert!(session.advance(Reply::Yes));
    assert!(!session.advance(Reply::Yes));
    assert!(!session.advance(Reply::No));
    assert_eq!(
        session.step(),
        Step::Call(DriverCall::Apply(0, Setting::FrequencyOffset(1)))
    );
    assert!(session.advance(Reply::Status(0)));
    assert_eq!(session.step(), Step::Finish);
}

#[test]
fn finished_run_takes_no_more_replies() {
    let mut session = Session::new(&Configuration::new());
    assert!(session.advance(Reply::Yes));
    assert!(session.advance(Reply::Yes));
    assert_eq!(session.step(), Step::Finish);
    assert!(!session.advance(Reply::Yes));
    assert!(!session.advance(Reply::No));
    assert!(!session.advance(Reply::Status(1)));
    assert_eq!(session.step(), Step::Finish);
}

#[test]
fn aborted_run_stays_aborted() {
    let config = resolve_direct(2, Sets::new(None, Some(5), Some(6))).unwrap();
    let mut session = Session::new(&config);
    assert!(session.advance(Reply::Yes));
    assert!(session.advance(Reply::Yes));
    assert!(session.advance(Reply::Yes));
    assert!(session.advance(Reply::Status(13)));
    let end = Step::Abort(Error::SetterFailed(Operation::MemoryOffset, 13));
    assert_eq!(session.step(), end);
    assert!(!session.advance(Reply::Status(0)));
    assert!(!session.advance(Reply::Yes));
    assert!(!session.advance(Reply::No));
    assert_eq!(session.step(), end);
}

#[test]
fn helpers_follow_each_other() {
    assert_eq!(Helper::Sudo.next(), Some(Helper::Doas));
    assert_eq!(Helper::Doas.next(), Some(Helper::Pkexec));
    assert_eq!(Helper::Pkexec.next(), None);
}

#[test]
fn helpers_have_their_program_names() {
    assert_eq!(Helper::Sudo.program(), "sudo");
    assert_eq!(Helper::Doas.program(), "doas");
    assert_eq!(Helper::Pkexec.program(), "pkexec");
}
