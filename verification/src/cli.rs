//! Command line options, as plain values.
//!
//! The binary parses its arguments with an argument-parsing crate and
//! hands the result over in this form; configuration loading then only
//! ever sees strings and lists of strings.

use vstd::prelude::*;

verus! {

/// Options given on the command line.  Every field is optional; an
/// empty `hdds` list means "no devices were named on the command line".
pub struct Cli {
    /// Path of a configuration file to load instead of the defaults.
    pub config: Option<String>,
    /// Overriding path of the fan control PWM file.
    pub pwm_path: Option<String>,
    /// Overriding list of drive devices to monitor.
    pub hdds: Vec<String>,
    /// Where to write an example configuration file, if asked for.
    pub generate_config: Option<String>,
}

} // verus!
