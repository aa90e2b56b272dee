//! The configuration record and its validation.
//!
//! The binary assembles a `Config` from defaults, an optional
//! configuration file and command line overrides; `Config::load`
//! performs the merge and validation, so that the control logic only
//! ever sees a record whose thresholds are ordered and whose device
//! list is non-empty.

use vstd::prelude::*;
use crate::cli::Cli;

verus! {

/// Everything the daemon needs to know for the lifetime of the
/// process: which drives to watch, the PWM bounds and temperature
/// thresholds of the fan curve, the polling interval and where to
/// write the fan speed.
#[derive(Debug, PartialEq, Eq, Clone)]
pub struct Config {
    pub hdds: Vec<String>,
    pub max_speed: u8,
    pub min_speed: u8,
    pub temp_low: i32,
    pub temp_high: i32,
    pub interval: u64,
    pub fan_control_path: String,
}

impl Config {
    /// The threshold ordering that validation guarantees and the fan
    /// curve relies on.
    pub open spec fn valid_thresholds(self) -> bool {
        self.temp_low < self.temp_high && self.min_speed < self.max_speed
    }
}

/// Why a configuration was rejected.
#[derive(Debug, PartialEq, Eq, Clone)]
pub enum ConfigError {
    /// The device list is empty.
    NoHdds,
    /// A listed device does not exist on this system.
    HddNotFound(String),
    /// The fan control PWM file does not exist.
    PwmFileNotFound(String),
    /// `temp_low` is not below `temp_high`.
    InvalidTemperatureRange,
}

impl Default for Config {
    /// Built-in defaults: one device, thresholds 35 to 50 degrees,
    /// PWM range 30 to 255, a ten second interval.
    fn default() -> (c: Config)
        ensures
            c.hdds@.len() == 1,
            c.hdds@[0]@ == "/dev/sda"@,
            c.max_speed == 255,
            c.min_speed == 30,
            c.temp_low == 35,
            c.temp_high == 50,
            c.interval == 10,
            c.fan_control_path@ == "/sys/class/hwmon/hwmon0/pwm1"@,
            c.valid_thresholds(),
    {
        let mut hdds: Vec<String> = Vec::new();
        hdds.push("/dev/sda".to_owned());
        Config {
            hdds,
            max_speed: 255,
            min_speed: 30,
            temp_low: 35,
            temp_high: 50,
            interval: 10,
            fan_control_path: "/sys/class/hwmon/hwmon0/pwm1".to_owned(),
        }
    }
}

/// Relies on std::path::Path::exists: whether `path` names an existing
/// filesystem entry right now.  The answer depends on the state of the
/// filesystem, so nothing is promised of it.
#[verifier::external_body]
fn path_exists(path: &str) -> bool {
    std::path::Path::new(path).exists()
}

/// A non-empty device list, every entry of which exists on this
/// system.  Existence is up to the filesystem, so success is not
/// promised; the empty-list rejection holds if and only if the list is
/// empty, and every other error names a listed device.
pub fn validate_hdds(hdds: &Vec<String>) -> (r: Result<(), ConfigError>)
    ensures
        hdds@.len() == 0 <==> r matches Err(ConfigError::NoHdds),
        r is Ok ==> hdds@.len() > 0,
        r matches Err(ConfigError::HddNotFound(h)) ==> exists|i: int|
            0 <= i < hdds@.len() && h@ == hdds@[i]@,
        r matches Err(e) ==> (e matches ConfigError::NoHdds || e matches ConfigError::HddNotFound(
            _,
        )),
{
    if hdds.len() == 0 {
        return Err(ConfigError::NoHdds);
    }
    let mut i: usize = 0;
    while i < hdds.len()
        invariant
            i <= hdds@.len(),
        decreases hdds@.len() - i,
    {
        if !path_exists(hdds[i].as_str()) {
            return Err(ConfigError::HddNotFound(hdds[i].clone()));
        }
        i = i + 1;
    }
    Ok(())
}

/// The fan control file must exist.  Existence is up to the
/// filesystem; the error, when it comes, names the missing path.
pub fn validate_pwm_file(path: &str) -> (r: Result<(), ConfigError>)
    ensures
        r matches Err(e) ==> (e matches ConfigError::PwmFileNotFound(p) && p@ == path@),
{
    if !path_exists(path) {
        return Err(ConfigError::PwmFileNotFound(path.to_owned()));
    }
    Ok(())
}

/// The low threshold must lie strictly below the high one.
pub fn validate_temperature_ranges(low: i32, high: i32) -> (r: Result<(), ConfigError>)
    ensures
        r is Ok <==> low < high,
        low >= high ==> r matches Err(ConfigError::InvalidTemperatureRange),
{
    if low >= high {
        return Err(ConfigError::InvalidTemperatureRange);
    }
    Ok(())
}

/// Validate a configuration: non-empty existing devices, an existing
/// PWM file, ordered thresholds, checked in that order.  Each error
/// comes only for its own reason: an empty-list rejection if and only
/// if the list is empty, a threshold rejection only when the
/// thresholds are disordered, and the path errors only naming the
/// configuration's own strings.
pub fn validate_config(config: &Config) -> (r: Result<(), ConfigError>)
    ensures
        config.hdds@.len() == 0 <==> r matches Err(ConfigError::NoHdds),
        config.temp_low >= config.temp_high ==> r is Err,
        r is Ok ==> config.hdds@.len() > 0 && config.temp_low < config.temp_high,
        r matches Err(ConfigError::InvalidTemperatureRange) ==> config.temp_low
            >= config.temp_high,
        r matches Err(ConfigError::PwmFileNotFound(p)) ==> p@ == config.fan_control_path@,
        r matches Err(ConfigError::HddNotFound(h)) ==> exists|i: int|
            0 <= i < config.hdds@.len() && h@ == config.hdds@[i]@,
{
    match validate_hdds(&config.hdds) {
        Err(e) => {
            return Err(e);
        },
        Ok(()) => {},
    }
    match validate_pwm_file(config.fan_control_path.as_str()) {
        Err(e) => {
            return Err(e);
        },
        Ok(()) => {},
    }
    match validate_temperature_ranges(config.temp_low, config.temp_high) {
        Err(e) => {
            return Err(e);
        },
        Ok(()) => {},
    }
    Ok(())
}

impl Config {
    /// Merge the command line options over the file configuration (or
    /// over the defaults when no file was given), then validate: a
    /// non-empty `hdds` list on the command line replaces the
    /// configured one, and a `pwm_path` option replaces the configured
    /// fan control path.
    pub fn load(cli: Cli, file_config: Option<Config>) -> (r: Result<Config, ConfigError>)
        ensures
            r matches Ok(c) ==> c.hdds@.len() > 0 && c.temp_low < c.temp_high,
            r matches Ok(c) ==> (cli.hdds@.len() > 0 ==> c.hdds == cli.hdds),
            r matches Ok(c) ==> (cli.hdds@.len() == 0 ==> (file_config matches Some(fc)
                ==> c.hdds == fc.hdds)),
            r matches Ok(c) ==> (cli.hdds@.len() == 0 && file_config is None
                ==> c.hdds@.len() == 1 && c.hdds@[0]@ == "/dev/sda"@),
            r matches Ok(c) ==> (cli.pwm_path matches Some(p) ==> c.fan_control_path == p),
            r matches Ok(c) ==> (cli.pwm_path is None ==> (file_config matches Some(fc)
                ==> c.fan_control_path == fc.fan_control_path)),
            r matches Ok(c) ==> (cli.pwm_path is None && file_config is None
                ==> c.fan_control_path@ == "/sys/class/hwmon/hwmon0/pwm1"@),
            r matches Ok(c) ==> (file_config matches Some(fc) ==> c.max_speed == fc.max_speed
                && c.min_speed == fc.min_speed && c.temp_low == fc.temp_low
                && c.temp_high == fc.temp_high && c.interval == fc.interval),
            r matches Ok(c) ==> (file_config is None ==> c.max_speed == 255
                && c.min_speed == 30 && c.temp_low == 35 && c.temp_high == 50
                && c.interval == 10),
            cli.hdds@.len() == 0 ==> (file_config matches Some(fc) ==> (fc.hdds@.len() == 0
                ==> r matches Err(ConfigError::NoHdds))),
            file_config matches Some(fc) ==> (fc.temp_low >= fc.temp_high ==> r is Err),
            r matches Err(ConfigError::NoHdds) ==> cli.hdds@.len() == 0,
            r matches Err(ConfigError::NoHdds) ==> (file_config matches Some(fc)
                && fc.hdds@.len() == 0),
            r matches Err(ConfigError::InvalidTemperatureRange) ==> (file_config matches Some(fc)
                && fc.temp_low >= fc.temp_high),
            r matches Err(ConfigError::PwmFileNotFound(p)) ==> (match cli.pwm_path {
                Some(q) => p@ == q@,
                None => match file_config {
                    Some(fc) => p@ == fc.fan_control_path@,
                    None => p@ == "/sys/class/hwmon/hwmon0/pwm1"@,
                },
            }),
    {
        let base = match file_config {
            Some(c) => c,
            None => Config::default(),
        };
        let Config {
            hdds: base_hdds,
            max_speed,
            min_speed,
            temp_low,
            temp_high,
            interval,
            fan_control_path: base_path,
        } = base;
        let Cli { hdds: cli_hdds, pwm_path: cli_pwm, config: _, generate_config: _ } = cli;
        let hdds = if cli_hdds.len() > 0 {
            cli_hdds
        } else {
            base_hdds
        };
        let fan_control_path = match cli_pwm {
            Some(p) => p,
            None => base_path,
        };
        let config = Config { hdds, max_speed, min_speed, temp_low, temp_high, interval, fan_control_path };
        match validate_config(&config) {
            Ok(()) => Ok(config),
            Err(e) => Err(e),
        }
    }
}

} // verus!
