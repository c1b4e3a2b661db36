use nvidia_oc::error::Error;
use nvidia_oc::params::Operation;

#[test]
fn usage_message_names_the_three_parameters() {
    assert_eq!(
        Error::Usage.message(),
        "At least one of frequency offset, memory offset or power limit must be given."
    );
}

#[test]
fn config_messages_point_to_the_help() {
    assert_eq!(
        Error::ConfigNotFound.message(),
        "Configuration file not found and no valid arguments were provided. Run `nvidia_oc --help` for more information."
    );
    assert_eq!(
        Error::ConfigParse.message(),
        "Invalid configuration file. Run `nvidia_oc --help` for more information."
    );
    assert_ne!(Error::ConfigNotFound.message(), Error::ConfigParse.message());
}

#[test]
fn escalation_messages() {
    assert_eq!(
        Error::EscalationUnavailable.message(),
        "Failed to escalate permissions: Please install sudo, doas or pkexec and try again. Alternatively, run the program as root."
    );
    assert_eq!(Error::EscalationFailed.message(), "Failed to escalate permissions");
}

#[test]
fn driver_init_message() {
    assert_eq!(Error::DriverInit.message(), "Failed to initialize NVML");
}

#[test]
fn device_message_names_the_index() {
    assert_eq!(Error::DeviceNotFound(0).message(), "Failed to get GPU 0");
    assert_eq!(Error::DeviceNotFound(7).message(), "Failed to get GPU 7");
    assert_eq!(Error::DeviceNotFound(12).message(), "Failed to get GPU 12");
}

#[test]
fn setter_message_names_operation_and_code() {
    assert_eq!(
        Error::SetterFailed(Operation::FrequencyOffset, 5).message(),
        "Failed to set GPU frequency offset: Error code: 5"
    );
    assert_eq!(
        Error::SetterFailed(Operation::MemoryOffset, 3).message(),
        "Failed to set GPU memory frequency offset: Error code: 3"
    );
    assert_eq!(
        Error::SetterFailed(Operation::PowerLimit, 999).message(),
        "Failed to set GPU power limit: Error code: 999"
    );
}

#[test]
fn codes_are_written_in_decimal() {
    let cases: [u32; 12] = [
        0, 1, 9, 10, 11, 99, 100, 101, 1000, 65_535, 1_000_000_000, u32::MAX,
    ];
    for code in cases {
        assert_eq!(
            Error::DeviceNotFound(code).message(),
            format!("Failed to get GPU {}", code)
        );
        assert_eq!(
            Error::SetterFailed(Operation::PowerLimit, code).message(),
            format!("Failed to set GPU power limit: Error code: {}", code)
        );
    }
}

#[test]
fn largest_code_is_written_out_in_full() {
    assert_eq!(
        Error::SetterFailed(Operation::FrequencyOffset, u32::MAX).message(),
        "Failed to set GPU frequency offset: Error code: 4294967295"
    );
}

#[test]
fn every_message_is_one_line() {
    let errors = [
        Error::Usage,
        Error::ConfigNotFound,
        Error::ConfigParse,
        Error::EscalationUnavailable,
        Error::EscalationFailed,
        Error::DriverInit,
        Error::DeviceNotFound(3),
        Error::SetterFailed(Operation::MemoryOffset, 2),
    ];
    for error in errors {
        let text = error.message();
        assert!(!text.is_empty());
        assert!(!text.contains('\n'));
    }
}
