use nvidia_oc::error::Error;
use nvidia_oc::params::{Operation, Setting, Sets};

#[test]
fn new_keeps_the_fields() {
    let sets = Sets::new(Some(-150), Some(800), Some(250_000));
    assert_eq!(sets.freq_offset, Some(-150));
    assert_eq!(sets.mem_offset, Some(800));
    assert_eq!(sets.power_limit, Some(250_000));
}

#[test]
fn only_the_request_without_fields_is_empty() {
    assert!(Sets::new(None, None, None).is_empty());
    assert!(!Sets::new(Some(0), None, None).is_empty());
    assert!(!Sets::new(None, Some(0), None).is_empty());
    assert!(!Sets::new(None, None, Some(0)).is_empty());
}

#[test]
fn empty_request_has_no_settings() {
    assert_eq!(Sets::new(None, None, None).settings(), Vec::<Setting>::new());
}

#[test]
fn settings_come_in_the_fixed_order() {
    let sets = Sets::new(Some(100), Some(-200), Some(150_000));
    assert_eq!(
        sets.settings(),
        vec![
            Setting::FrequencyOffset(100),
            Setting::MemoryOffset(-200),
            Setting::PowerLimit(150_000),
        ]
    );
}

#[test]
fn absent_fields_are_skipped() {
    assert_eq!(
        Sets::new(None, Some(7), None).settings(),
        vec![Setting::MemoryOffset(7)]
    );
    assert_eq!(
        Sets::new(Some(50), None, Some(150_000)).settings(),
        vec![Setting::FrequencyOffset(50), Setting::PowerLimit(150_000)]
    );
    assert_eq!(
        Sets::new(None, Some(1), Some(2)).settings(),
        vec![Setting::MemoryOffset(1), Setting::PowerLimit(2)]
    );
}

#[test]
fn values_are_not_clamped() {
    let sets = Sets::new(Some(i32::MIN), Some(i32::MAX), Some(u32::MAX));
    assert_eq!(
        sets.settings(),
        vec![
            Setting::FrequencyOffset(i32::MIN),
            Setting::MemoryOffset(i32::MAX),
            Setting::PowerLimit(u32::MAX),
        ]
    );
}

#[test]
fn zero_is_a_value_like_any_other() {
    assert_eq!(
        Sets::new(Some(0), None, Some(0)).settings(),
        vec![Setting::FrequencyOffset(0), Setting::PowerLimit(0)]
    );
}

#[test]
fn every_combination_of_fields_keeps_order_and_values() {
    let freq = [None, Some(-7)];
    let mem = [None, Some(11)];
    let power = [None, Some(13u32)];
    for f in freq {
        for m in mem {
            for p in power {
                let calls = Sets::new(f, m, p).settings();
                let mut expected = Vec::new();
                if let Some(v) = f {
                    expected.push(Setting::FrequencyOffset(v));
                }
                if let Some(v) = m {
                    expected.push(Setting::MemoryOffset(v));
                }
                if let Some(v) = p {
                    expected.push(Setting::PowerLimit(v));
                }
                assert_eq!(calls, expected);
            }
        }
    }
}

#[test]
fn a_setting_knows_its_operation() {
    assert_eq!(Setting::FrequencyOffset(1).operation(), Operation::FrequencyOffset);
    assert_eq!(Setting::MemoryOffset(1).operation(), Operation::MemoryOffset);
    assert_eq!(Setting::PowerLimit(1).operation(), Operation::PowerLimit);
}

#[test]
fn status_zero_is_success() {
    assert_eq!(Setting::FrequencyOffset(100).check(0), Ok(()));
    assert_eq!(Setting::MemoryOffset(100).check(0), Ok(()));
    assert_eq!(Setting::PowerLimit(100).check(0), Ok(()));
}

#[test]
fn any_other_status_is_carried_as_it_came() {
    assert_eq!(
        Setting::FrequencyOffset(100).check(3),
        Err(Error::SetterFailed(Operation::FrequencyOffset, 3))
    );
    assert_eq!(
        Setting::MemoryOffset(-5).check(999),
        Err(Error::SetterFailed(Operation::MemoryOffset, 999))
    );
    assert_eq!(
        Setting::PowerLimit(1).check(u32::MAX),
        Err(Error::SetterFailed(Operation::PowerLimit, u32::MAX))
    );
}
