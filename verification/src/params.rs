//! Requested parameter changes and the setter calls that they stand for.

use crate::error::Error;
use vstd::prelude::*;

verus! {

/// One of the three things the driver lets us adjust on a device.
#[derive(Clone, Copy, Debug, PartialEq, Eq, Structural)]
pub enum Operation {
    /// The offset of the core clock.
    FrequencyOffset,
    /// The offset of the memory clock.
    MemoryOffset,
    /// The power limit.
    PowerLimit,
}

impl Operation {
    /// The place of the operation in the fixed order of application.
    pub open spec fn rank(self) -> nat {
        match self {
            Operation::FrequencyOffset => 0,
            Operation::MemoryOffset => 1,
            Operation::PowerLimit => 2,
        }
    }
}

/// One setter call: the operation together with the value handed to the
/// driver. Offsets are signed, in the driver's own units; the power limit is
/// in milliwatts.
#[derive(Clone, Copy, Debug, PartialEq, Eq, Structural)]
pub enum Setting {
    FrequencyOffset(i32),
    MemoryOffset(i32),
    PowerLimit(u32),
}

impl Setting {
    pub open spec fn spec_operation(&self) -> Operation {
        match self {
            Setting::FrequencyOffset(_) => Operation::FrequencyOffset,
            Setting::MemoryOffset(_) => Operation::MemoryOffset,
            Setting::PowerLimit(_) => Operation::PowerLimit,
        }
    }

    /// The operation that this call performs.
    #[verifier::when_used_as_spec(spec_operation)]
    pub fn operation(&self) -> (op: Operation)
        ensures
            op == self.spec_operation(),
    {
        match self {
            Setting::FrequencyOffset(_) => Operation::FrequencyOffset,
            Setting::MemoryOffset(_) => Operation::MemoryOffset,
            Setting::PowerLimit(_) => Operation::PowerLimit,
        }
    }

    /// What the status code that this setter returned comes to. Zero is a
    /// success. Any other code is a failure of this setter's operation, and
    /// the error carries the code as it came.
    pub fn check(&self, status: u32) -> (outcome: Result<(), Error>)
        ensures
            status == 0 ==> outcome is Ok,
            status != 0 ==> outcome == Err::<(), Error>(
                Error::SetterFailed(self.spec_operation(), status),
            ),
    {
        if status == 0 {
            Ok(())
        } else {
            Err(Error::SetterFailed(self.operation(), status))
        }
    }
}

/// The parameter changes requested for one device. A field that is `None`
/// leaves the corresponding parameter of the device alone.
#[derive(Clone, Copy, Debug, PartialEq, Eq)]
pub struct Sets {
    /// GPU frequency offset.
    pub freq_offset: Option<i32>,
    /// GPU memory frequency offset.
    pub mem_offset: Option<i32>,
    /// GPU power limit in milliwatts.
    pub power_limit: Option<u32>,
}

impl Sets {
    pub open spec fn spec_is_empty(&self) -> bool {
        self.freq_offset is None && self.mem_offset is None && self.power_limit is None
    }

    /// The setter calls that the request stands for: one for each field that
    /// is present, carrying the field's value as it is, frequency offset
    /// first, memory offset second, power limit last.
    pub open spec fn spec_settings(&self) -> Seq<Setting> {
        let freq = match self.freq_offset {
            Some(offset) => seq![Setting::FrequencyOffset(offset)],
            None => Seq::empty(),
        };
        let mem = match self.mem_offset {
            Some(offset) => seq![Setting::MemoryOffset(offset)],
            None => Seq::empty(),
        };
        let power = match self.power_limit {
            Some(limit) => seq![Setting::PowerLimit(limit)],
            None => Seq::empty(),
        };
        freq + mem + power
    }

    /// A request with the three fields as given.
    pub fn new(freq_offset: Option<i32>, mem_offset: Option<i32>, power_limit: Option<u32>) -> (sets: Sets)
        ensures
            sets.freq_offset == freq_offset,
            sets.mem_offset == mem_offset,
            sets.power_limit == power_limit,
    {
        Sets { freq_offset, mem_offset, power_limit }
    }

    /// Whether the request changes nothing at all.
    #[verifier::when_used_as_spec(spec_is_empty)]
    pub fn is_empty(&self) -> (empty: bool)
        ensures
            empty == self.spec_is_empty(),
    {
        self.freq_offset.is_none() && self.mem_offset.is_none() && self.power_limit.is_none()
    }

    /// The setter calls to make for this request, in the order in which they
    /// are to be made.
    pub fn settings(&self) -> (calls: Vec<Setting>)
        ensures
            calls@ == self.spec_settings(),
    {
        let mut calls: Vec<Setting> = Vec::new();
        if let Some(offset) = self.freq_offset {
            calls.push(Setting::FrequencyOffset(offset));
        }
        if let Some(offset) = self.mem_offset {
            calls.push(Setting::MemoryOffset(offset));
        }
        if let Some(limit) = self.power_limit {
            calls.push(Setting::PowerLimit(limit));
        }
        assert(calls@ =~= self.spec_settings());
        calls
    }
}

/// Every value reaches its setter untouched, and no other call is made: a
/// call is among the settings of a request exactly if the request holds that
/// very value in the field of the call's operation.
pub proof fn lemma_settings_exact(sets: Sets, call: Setting)
    ensures
        sets.spec_settings().contains(call) <==> match call {
            Setting::FrequencyOffset(offset) => sets.freq_offset == Some(offset),
            Setting::MemoryOffset(offset) => sets.mem_offset == Some(offset),
            Setting::PowerLimit(limit) => sets.power_limit == Some(limit),
        },
{
    let calls = sets.spec_settings();
    let provided = match call {
        Setting::FrequencyOffset(offset) => sets.freq_offset == Some(offset),
        Setting::MemoryOffset(offset) => sets.mem_offset == Some(offset),
        Setting::PowerLimit(limit) => sets.power_limit == Some(limit),
    };
    if provided {
        let at: int = match call {
            Setting::FrequencyOffset(_) => 0,
            Setting::MemoryOffset(_) => if sets.freq_offset is Some { 1 } else { 0 },
            Setting::PowerLimit(_) => calls.len() - 1,
        };
        assert(calls[at] == call);
    }
}

/// The order of application is fixed: whatever fields are present, the
/// settings of a request come in strictly ascending rank, so each operation
/// occurs at most once, the frequency offset before the memory offset, and
/// the memory offset before the power limit.
pub proof fn lemma_settings_ordered(sets: Sets, i: int, j: int)
    requires
        0 <= i < j < sets.spec_settings().len(),
    ensures
        sets.spec_settings()[i].spec_operation().rank() < sets.spec_settings()[j].spec_operation().rank(),
{
}

/// A request stands for no call at all exactly if it is empty, and never
/// for more than three.
pub proof fn lemma_settings_count(sets: Sets)
    ensures
        sets.spec_settings().len() <= 3,
        sets.spec_settings().len() == 0 <==> sets.spec_is_empty(),
{
}

} // verus!
