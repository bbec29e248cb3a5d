//! The recording configuration, built from the operator's four answers:
//! recording duration in minutes, maximum file size (one of a fixed list of
//! choices), promiscuous mode, and the interface to capture on.
use vstd::prelude::*;

verus! {

pub const SECONDS_PER_MINUTE: u64 = 60;

/// The file sizes offered, in bytes, in the order they are offered: 1, 16,
/// 64, 256 and 1024 mebibytes.
pub open spec fn clipping_choices_spec() -> Seq<u64> {
    seq![1048576u64, 16777216u64, 67108864u64, 268435456u64, 1073741824u64]
}

/// The file sizes offered, in bytes, in the order they are offered.
pub fn clipping_choices() -> (r: Vec<u64>)
    ensures
        r@ == clipping_choices_spec(),
{
    let r = vec![1048576u64, 16777216u64, 67108864u64, 268435456u64, 1073741824u64];
    assert(r@ =~= clipping_choices_spec());
    r
}

#[derive(Debug, Clone, Copy, PartialEq, Eq)]
pub enum ConfigError {
    /// The duration in seconds does not fit in a `u64`.
    DurationTooLong,
    /// The file size choice is not one of those offered.
    UnknownClippingChoice,
    /// The interface choice is not one of the interfaces listed.
    UnknownInterface,
}

#[derive(Debug, Clone)]
pub struct CLIConfig {
    pub interface_name: String,
    pub file_size_clipping: u64,
    pub record_duration_secs: u64,
    pub promiscuous_mode: bool,
}

impl CLIConfig {
    /// The configuration for the given answers. The first answer that cannot
    /// be used, in the order duration, file size, interface, is the error.
    pub fn new(
        record_minutes: u64,
        clipping_choice: usize,
        promiscuous_mode: bool,
        interfaces: &Vec<String>,
        interface_choice: usize,
    ) -> (r: Result<CLIConfig, ConfigError>)
        ensures
            record_minutes * SECONDS_PER_MINUTE > u64::MAX ==> r == Err::<CLIConfig, ConfigError>(
                ConfigError::DurationTooLong,
            ),
            record_minutes * SECONDS_PER_MINUTE <= u64::MAX && clipping_choice
                >= clipping_choices_spec().len() ==> r == Err::<CLIConfig, ConfigError>(
                ConfigError::UnknownClippingChoice,
            ),
            record_minutes * SECONDS_PER_MINUTE <= u64::MAX && clipping_choice
                < clipping_choices_spec().len() && interface_choice >= interfaces@.len() ==> r
                == Err::<CLIConfig, ConfigError>(ConfigError::UnknownInterface),
            r is Ok <==> (record_minutes * SECONDS_PER_MINUTE <= u64::MAX && clipping_choice
                < clipping_choices_spec().len() && interface_choice < interfaces@.len()),
            r matches Ok(c) ==> {
                &&& c.interface_name@ == interfaces@[interface_choice as int]@
                &&& c.file_size_clipping == clipping_choices_spec()[clipping_choice as int]
                &&& c.record_duration_secs == record_minutes * SECONDS_PER_MINUTE
                &&& c.promiscuous_mode == promiscuous_mode
            },
    {
        if record_minutes > u64::MAX / SECONDS_PER_MINUTE {
            return Err(ConfigError::DurationTooLong);
        }
        let record_duration_secs = record_minutes * SECONDS_PER_MINUTE;
        let choices = clipping_choices();
        if clipping_choice >= choices.len() {
            return Err(ConfigError::UnknownClippingChoice);
        }
        let file_size_clipping = choices[clipping_choice];
        if interface_choice >= interfaces.len() {
            return Err(ConfigError::UnknownInterface);
        }
        let interface_name = interfaces[interface_choice].clone();
        Ok(CLIConfig { interface_name, file_size_clipping, record_duration_secs, promiscuous_mode })
    }
}

} // verus!
