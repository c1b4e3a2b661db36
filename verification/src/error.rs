//! What can go wrong in a run, and the line that tells the operator so.

use crate::params::Operation;
use vstd::prelude::*;
use vstd::string::*;

verus! {

/// The reasons for which a run is given up. None of them is recovered from:
/// the first one that occurs ends the run.
#[derive(Clone, Copy, Debug, PartialEq, Eq, Structural)]
pub enum Error {
    /// The command line asked for a change but named none of the three
    /// parameters.
    Usage,
    /// There is no configuration file at the given path.
    ConfigNotFound,
    /// The configuration file does not hold the expected mapping.
    ConfigParse,
    /// Not running as root, and none of the escalation helpers is installed.
    EscalationUnavailable,
    /// Not running as root, and every installed escalation helper failed.
    EscalationFailed,
    /// The driver library could not be initialised.
    DriverInit,
    /// The driver has no device with this index.
    DeviceNotFound(u32),
    /// A setter returned this status code, which is not zero.
    SetterFailed(Operation, u32),
}

/// The character that stands for a value below ten.
pub open spec fn digit(value: nat) -> char
    recommends
        value < 10,
{
    if value == 0 {
        '0'
    } else if value == 1 {
        '1'
    } else if value == 2 {
        '2'
    } else if value == 3 {
        '3'
    } else if value == 4 {
        '4'
    } else if value == 5 {
        '5'
    } else if value == 6 {
        '6'
    } else if value == 7 {
        '7'
    } else if value == 8 {
        '8'
    } else {
        '9'
    }
}

/// A number in decimal notation, without sign or leading zeros.
pub open spec fn decimal(number: nat) -> Seq<char>
    decreases number,
{
    if number < 10 {
        seq![digit(number)]
    } else {
        decimal(number / 10).push(digit(number % 10))
    }
}

/// The words for an operation, as they appear in messages.
pub open spec fn operation_words(operation: Operation) -> Seq<char> {
    match operation {
        Operation::FrequencyOffset => "GPU frequency offset"@,
        Operation::MemoryOffset => "GPU memory frequency offset"@,
        Operation::PowerLimit => "GPU power limit"@,
    }
}

fn digit_text(value: u32) -> (text: &'static str)
    requires
        value < 10,
    ensures
        text@ == seq![digit(value as nat)],
{
    proof {
        reveal_strlit("0");
        reveal_strlit("1");
        reveal_strlit("2");
        reveal_strlit("3");
        reveal_strlit("4");
        reveal_strlit("5");
        reveal_strlit("6");
        reveal_strlit("7");
        reveal_strlit("8");
        reveal_strlit("9");
    }
    let text = match value {
        0 => "0",
        1 => "1",
        2 => "2",
        3 => "3",
        4 => "4",
        5 => "5",
        6 => "6",
        7 => "7",
        8 => "8",
        _ => "9",
    };
    assert(text@ =~= seq![digit(value as nat)]);
    text
}

fn append_decimal(text: &mut String, number: u32)
    ensures
        final(text)@ == old(text)@ + decimal(number as nat),
    decreases number,
{
    if number >= 10 {
        append_decimal(text, number / 10);
    }
    text.append(digit_text(number % 10));
    assert(text@ =~= old(text)@ + decimal(number as nat));
}

impl Error {
    /// The text of the message: one line that names the step that failed.
    /// A status code of the driver is given as the number it is, because
    /// only the driver's documentation says what it means. The two messages
    /// about the configuration file point to the command's help, where the
    /// other way of calling it is described.
    pub open spec fn spec_message(&self) -> Seq<char> {
        match *self {
            Error::Usage => "At least one of frequency offset, memory offset or power limit must be given."@,
            Error::ConfigNotFound => "Configuration file not found and no valid arguments were provided. Run `nvidia_oc --help` for more information."@,
            Error::ConfigParse => "Invalid configuration file. Run `nvidia_oc --help` for more information."@,
            Error::EscalationUnavailable => "Failed to escalate permissions: Please install sudo, doas or pkexec and try again. Alternatively, run the program as root."@,
            Error::EscalationFailed => "Failed to escalate permissions"@,
            Error::DriverInit => "Failed to initialize NVML"@,
            Error::DeviceNotFound(index) => "Failed to get GPU "@ + decimal(index as nat),
            Error::SetterFailed(operation, status) => "Failed to set "@ + operation_words(operation)
                + ": Error code: "@ + decimal(status as nat),
        }
    }

    /// The message for the operator.
    pub fn message(&self) -> (text: String)
        ensures
            text@ == self.spec_message(),
    {
        match *self {
            Error::Usage => String::from_str(
                "At least one of frequency offset, memory offset or power limit must be given.",
            ),
            Error::ConfigNotFound => String::from_str(
                "Configuration file not found and no valid arguments were provided. Run `nvidia_oc --help` for more information.",
            ),
            Error::ConfigParse => String::from_str(
                "Invalid configuration file. Run `nvidia_oc --help` for more information.",
            ),
            Error::EscalationUnavailable => String::from_str(
                "Failed to escalate permissions: Please install sudo, doas or pkexec and try again. Alternatively, run the program as root.",
            ),
            Error::EscalationFailed => String::from_str("Failed to escalate permissions"),
            Error::DriverInit => String::from_str("Failed to initialize NVML"),
            Error::DeviceNotFound(index) => {
                let mut text = String::from_str("Failed to get GPU ");
                append_decimal(&mut text, index);
                text
            },
            Error::SetterFailed(operation, status) => {
                let mut text = String::from_str("Failed to set ");
                match operation {
                    Operation::FrequencyOffset => text.append("GPU frequency offset"),
                    Operation::MemoryOffset => text.append("GPU memory frequency offset"),
                    Operation::PowerLimit => text.append("GPU power limit"),
                }
                text.append(": Error code: ");
                append_decimal(&mut text, status);
                text
            },
        }
    }
}

} // verus!
