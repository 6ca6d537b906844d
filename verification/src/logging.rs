//! Configuration of the process logger. Installing a subscriber is I/O and
//! lives outside the library; the choice of filter directive is made here.

use vstd::prelude::*;

verus! {

/// Configuration of the process logger.
pub struct LoggerConfig {
    pub debug: bool,
}

/// The filter directive a logger configuration selects.
pub open spec fn log_directive(debug: bool) -> Seq<char> {
    if debug {
        "debug"@
    } else {
        "info"@
    }
}

/// The filter directive to install: everything at `debug` level when
/// debugging, else everything at `info` level.
pub fn logger_filter_directive(config: &LoggerConfig) -> (r: &'static str)
    ensures
        r@ == log_directive(config.debug),
{
    if config.debug {
        "debug"
    } else {
        "info"
    }
}

} // verus!
