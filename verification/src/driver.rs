//! Choice of an output stream configuration.
//!
//! The synthesizer produces two channels of signed 16-bit samples at a
//! fixed rate and nothing is resampled, so a device either offers exactly
//! that or cannot be used.
use vstd::prelude::*;
use crate::clock::SAMPLE_RATE;

verus! {

/// Number of channels of the synthesizer's output.
pub const CHANNELS: u16 = 2;

/// How a device stores one sample.
#[derive(Clone, Copy, Debug, PartialEq, Eq, Structural)]
pub enum SampleFormat {
    I16,
    U16,
    F32,
}

/// One family of stream configurations that a device supports: a channel
/// count, a sample format and a range of sample rates.
#[derive(Clone, Copy, Debug, PartialEq, Eq, Structural)]
pub struct ConfigRange {
    pub channels: u16,
    pub min_sample_rate: u32,
    pub max_sample_rate: u32,
    pub sample_format: SampleFormat,
}

/// The stream to open: which of the device's configurations, and with what
/// channel count and sample rate.
#[derive(Clone, Copy, Debug, PartialEq, Eq, Structural)]
pub struct StreamPlan {
    pub config_index: usize,
    pub channels: u16,
    pub sample_rate: u32,
}

/// Why no stream can be opened.
#[derive(Clone, Copy, Debug, PartialEq, Eq, Structural)]
pub enum DriverError {
    /// There is no output device.
    NoDevice,
    /// No configuration has two channels of signed 16-bit samples.
    NoSupportedConfig,
    /// Configurations of the right format exist, but none covers the
    /// synthesizer's rate; `min` and `max` are the range of the first.
    InvalidSampleRange { min: u32, max: u32 },
}

impl ConfigRange {
    /// Two channels of signed 16-bit samples.
    pub open spec fn has_format(self) -> bool {
        self.channels == CHANNELS && self.sample_format == SampleFormat::I16
    }

    /// The range of sample rates includes the synthesizer's rate.
    pub open spec fn covers_rate(self) -> bool {
        self.min_sample_rate <= SAMPLE_RATE <= self.max_sample_rate
    }

    /// A stream of this configuration can play the synthesizer's output
    /// as it is.
    pub open spec fn acceptable(self) -> bool {
        self.has_format() && self.covers_rate()
    }

    /// The configuration has the wrong channel count, the wrong sample
    /// format, or a range of rates that leaves out the synthesizer's rate.
    pub open spec fn mismatched(self) -> bool {
        ||| self.channels != CHANNELS
        ||| self.sample_format != SampleFormat::I16
        ||| self.min_sample_rate > SAMPLE_RATE
        ||| self.max_sample_rate < SAMPLE_RATE
    }

    /// Whether the configuration has two channels of signed 16-bit samples.
    pub fn is_right_format(&self) -> (yes: bool)
        ensures
            yes == self.has_format(),
    {
        self.channels == CHANNELS && self.sample_format == SampleFormat::I16
    }

    /// Whether the range of sample rates includes the synthesizer's rate.
    pub fn is_right_rate(&self) -> (yes: bool)
        ensures
            yes == self.covers_rate(),
    {
        self.min_sample_rate <= SAMPLE_RATE && SAMPLE_RATE <= self.max_sample_rate
    }
}

/// The stream to open on a device that supports `ranges`, or why there is
/// none. The first acceptable configuration is taken, at exactly the
/// synthesizer's rate.
pub open spec fn negotiated(ranges: Seq<ConfigRange>, plan: Result<StreamPlan, DriverError>) -> bool {
    match plan {
        Ok(plan) => {
            &&& 0 <= plan.config_index < ranges.len()
            &&& ranges[plan.config_index as int].acceptable()
            &&& forall|j: int| 0 <= j < plan.config_index ==> !(#[trigger] ranges[j]).acceptable()
            &&& plan.channels == CHANNELS
            &&& plan.sample_rate == SAMPLE_RATE
        },
        Err(DriverError::NoDevice) => false,
        Err(DriverError::NoSupportedConfig) => forall|j: int|
            0 <= j < ranges.len() ==> !(#[trigger] ranges[j]).has_format(),
        Err(DriverError::InvalidSampleRange { min, max }) => {
            &&& forall|j: int| 0 <= j < ranges.len() ==> !(#[trigger] ranges[j]).acceptable()
            &&& exists|k: int|
                {
                    &&& 0 <= k < ranges.len()
                    &&& (#[trigger] ranges[k]).has_format()
                    &&& forall|j: int| 0 <= j < k ==> !(#[trigger] ranges[j]).has_format()
                    &&& min == ranges[k].min_sample_rate
                    &&& max == ranges[k].max_sample_rate
                }
        },
    }
}

/// Chooses the stream to open among the configurations that a device
/// supports.
pub fn select_config(ranges: &[ConfigRange]) -> (plan: Result<StreamPlan, DriverError>)
    ensures
        negotiated(ranges@, plan),
        plan is Ok <==> exists|i: int| 0 <= i < ranges@.len() && (#[trigger] ranges@[i]).acceptable(),
{
    let mut first_of_format: Option<usize> = None;
    let mut i: usize = 0;
    while i < ranges.len()
        invariant
            i <= ranges@.len(),
            forall|j: int| 0 <= j < i ==> !(#[trigger] ranges@[j]).acceptable(),
            first_of_format is None ==> forall|j: int|
                0 <= j < i ==> !(#[trigger] ranges@[j]).has_format(),
            first_of_format matches Some(k) ==> {
                &&& k < i
                &&& ranges@[k as int].has_format()
                &&& forall|j: int| 0 <= j < k ==> !(#[trigger] ranges@[j]).has_format()
            },
        decreases ranges@.len() - i,
    {
        let range = &ranges[i];
        if range.is_right_format() {
            if range.is_right_rate() {
                return Ok(StreamPlan { config_index: i, channels: CHANNELS, sample_rate: SAMPLE_RATE });
            }
            if first_of_format.is_none() {
                first_of_format = Some(i);
            }
        }
        i += 1;
    }
    match first_of_format {
        Some(k) => Err(
            DriverError::InvalidSampleRange {
                min: ranges[k].min_sample_rate,
                max: ranges[k].max_sample_rate,
            },
        ),
        None => Err(DriverError::NoSupportedConfig),
    }
}

/// Chooses the stream to open on the default output device, given the
/// configurations it supports, or `None` where the host has no such device.
pub fn open_config(device: Option<&[ConfigRange]>) -> (plan: Result<StreamPlan, DriverError>)
    ensures
        device matches Some(ranges) ==> negotiated(ranges@, plan),
        device is None ==> plan == Err::<StreamPlan, DriverError>(DriverError::NoDevice),
        plan is Ok <==> (device matches Some(ranges) && exists|i: int|
            0 <= i < ranges@.len() && (#[trigger] ranges@[i]).acceptable()),
{
    match device {
        Some(ranges) => select_config(ranges),
        None => Err(DriverError::NoDevice),
    }
}

/// A device of which every configuration has the wrong channel count, the
/// wrong sample format or a range of rates that leaves out the
/// synthesizer's rate gets no stream: whatever answer describes the device,
/// it is a refusal.
pub proof fn lemma_mismatched_device_is_refused(
    ranges: Seq<ConfigRange>,
    plan: Result<StreamPlan, DriverError>,
)
    requires
        forall|i: int| 0 <= i < ranges.len() ==> (#[trigger] ranges[i]).mismatched(),
        negotiated(ranges, plan),
    ensures
        plan is Err,
{
    if plan is Ok {
        let index = plan->Ok_0.config_index as int;
        assert(ranges[index].acceptable());
    }
}

/// The answer is unique: two answers that both describe a device are the
/// same answer.
pub proof fn lemma_negotiation_is_determined(
    ranges: Seq<ConfigRange>,
    first: Result<StreamPlan, DriverError>,
    second: Result<StreamPlan, DriverError>,
)
    requires
        negotiated(ranges, first),
        negotiated(ranges, second),
    ensures
        first == second,
{
    match (first, second) {
        (Ok(a), Ok(b)) => {
            let i = a.config_index as int;
            let j = b.config_index as int;
            assert(ranges[i].acceptable() && ranges[j].acceptable());
            assert(i == j);
        },
        (Ok(a), Err(_)) => {
            assert(ranges[a.config_index as int].acceptable());
        },
        (Err(_), Ok(b)) => {
            assert(ranges[b.config_index as int].acceptable());
        },
        (
            Err(DriverError::InvalidSampleRange { min: min_a, max: max_a }),
            Err(DriverError::InvalidSampleRange { min: min_b, max: max_b }),
        ) => {
            let ka = choose|k: int|
                {
                    &&& 0 <= k < ranges.len()
                    &&& (#[trigger] ranges[k]).has_format()
                    &&& forall|j: int| 0 <= j < k ==> !(#[trigger] ranges[j]).has_format()
                    &&& min_a == ranges[k].min_sample_rate
                    &&& max_a == ranges[k].max_sample_rate
                };
            let kb = choose|k: int|
                {
                    &&& 0 <= k < ranges.len()
                    &&& (#[trigger] ranges[k]).has_format()
                    &&& forall|j: int| 0 <= j < k ==> !(#[trigger] ranges[j]).has_format()
                    &&& min_b == ranges[k].min_sample_rate
                    &&& max_b == ranges[k].max_sample_rate
                };
            assert(ranges[ka].has_format() && ranges[kb].has_format());
            assert(ka == kb);
        },
        (Err(DriverError::InvalidSampleRange { min, max }), Err(_)) => {
            let k = choose|k: int|
                {
                    &&& 0 <= k < ranges.len()
                    &&& (#[trigger] ranges[k]).has_format()
                    &&& forall|j: int| 0 <= j < k ==> !(#[trigger] ranges[j]).has_format()
                    &&& min == ranges[k].min_sample_rate
                    &&& max == ranges[k].max_sample_rate
                };
            assert(ranges[k].has_format());
        },
        (Err(_), Err(DriverError::InvalidSampleRange { min, max })) => {
            let k = choose|k: int|
                {
                    &&& 0 <= k < ranges.len()
                    &&& (#[trigger] ranges[k]).has_format()
                    &&& forall|j: int| 0 <= j < k ==> !(#[trigger] ranges[j]).has_format()
                    &&& min == ranges[k].min_sample_rate
                    &&& max == ranges[k].max_sample_rate
                };
            assert(ranges[k].has_format());
        },
        _ => {},
    }
}

} // verus!
