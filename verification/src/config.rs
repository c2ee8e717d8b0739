use vstd::prelude::*;

verus! {

/// Where the management controller is reached when it is driven over the network.
#[derive(Debug, Clone)]
pub struct IpmiHostInfo {
    pub host: String,
    pub username: String,
    pub password: String,
}

/// One step of the fan curve: temperatures from `temp_range[0]` (inclusive) up to
/// `temp_range[1]` (exclusive), in thousandths of a degree Celsius, ask for `speed`
/// percent duty.
#[derive(Debug, Clone, Copy)]
pub struct FanSpeed {
    pub temp_range: [i64; 2],
    pub speed: u8,
}

/// The controller's configuration, as the surrounding program loaded it.
#[derive(Debug, Clone)]
pub struct Config {
    pub mode: String,
    pub ipmi: IpmiHostInfo,
    pub fan_speeds: Vec<FanSpeed>,
}

impl FanSpeed {
    /// Whether `temp` lies in this step's half-open range.
    pub open spec fn covers(self, temp: int) -> bool {
        self.temp_range[0] <= temp < self.temp_range[1]
    }
}

/// What came of loading the configuration.
#[derive(Debug)]
pub enum ConfigLoad {
    /// Nothing stands at the path.
    Missing,
    /// What stands at the path could not be read; the text says why.
    Unreadable(String),
    /// What was read is no configuration; the text says why.
    Unparsable(String),
    /// The configuration.
    Loaded(Config),
}

} // verus!
