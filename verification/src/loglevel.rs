//! The log levels of the Python `logging` package, hard-coded to its
//! numeric constants, with verified conversions from the host logger's
//! levels and to its level filters.

use vstd::prelude::*;

verus! {

/// A log level of the Python `logging` package.
#[derive(Clone, Copy, Debug, PartialEq, Eq, Structural)]
pub enum PythonLogLevel {
    /// No level configured.
    NotSet,
    /// Trace does not exist in the Python world: a bit lower than Debug.
    Trace,
    Debug,
    Info,
    Warn,
    Error,
    Critical,
}

/// A log level of the host logger.
#[derive(Clone, Copy, Debug, PartialEq, Eq, Structural)]
pub enum LogLevel {
    Error,
    Warn,
    Info,
    Debug,
    Trace,
}

/// A maximum-level filter of the host logger.
#[derive(Clone, Copy, Debug, PartialEq, Eq, Structural)]
pub enum LogLevelFilter {
    Off,
    Error,
    Warn,
    Info,
    Debug,
    Trace,
}

/// The numeric value the Python `logging` package gives each level.
pub open spec fn python_level_number(l: PythonLogLevel) -> u64 {
    match l {
        PythonLogLevel::NotSet => 0,
        PythonLogLevel::Trace => 5,
        PythonLogLevel::Debug => 10,
        PythonLogLevel::Info => 20,
        PythonLogLevel::Warn => 30,
        PythonLogLevel::Error => 40,
        PythonLogLevel::Critical => 50,
    }
}

/// The level a numeric value names, if it names one.
pub open spec fn python_level_of_number(n: u64) -> Option<PythonLogLevel> {
    if n == 0 {
        Some(PythonLogLevel::NotSet)
    } else if n == 5 {
        Some(PythonLogLevel::Trace)
    } else if n == 10 {
        Some(PythonLogLevel::Debug)
    } else if n == 20 {
        Some(PythonLogLevel::Info)
    } else if n == 30 {
        Some(PythonLogLevel::Warn)
    } else if n == 40 {
        Some(PythonLogLevel::Error)
    } else if n == 50 {
        Some(PythonLogLevel::Critical)
    } else {
        None
    }
}

/// The Python level a host-logger level maps to.
pub open spec fn python_level_of_log_level(level: LogLevel) -> PythonLogLevel {
    match level {
        LogLevel::Error => PythonLogLevel::Error,
        LogLevel::Warn => PythonLogLevel::Warn,
        LogLevel::Info => PythonLogLevel::Info,
        LogLevel::Debug => PythonLogLevel::Debug,
        LogLevel::Trace => PythonLogLevel::Trace,
    }
}

/// The host-logger filter a Python level maps to.
pub open spec fn filter_of_python_level(level: PythonLogLevel) -> LogLevelFilter {
    match level {
        PythonLogLevel::NotSet => LogLevelFilter::Off,
        PythonLogLevel::Trace => LogLevelFilter::Trace,
        PythonLogLevel::Debug => LogLevelFilter::Debug,
        PythonLogLevel::Info => LogLevelFilter::Info,
        PythonLogLevel::Warn => LogLevelFilter::Warn,
        PythonLogLevel::Error => LogLevelFilter::Error,
        // The host logger has no Critical, so treat it like an Error.
        PythonLogLevel::Critical => LogLevelFilter::Error,
    }
}

impl PythonLogLevel {
    /// The level a numeric value from the Python side names; the value
    /// itself comes back on an unknown number.
    pub fn try_from_u64(n: u64) -> (r: Result<PythonLogLevel, u64>)
        ensures
            match r {
                Ok(l) => python_level_of_number(n) == Some(l),
                Err(m) => python_level_of_number(n) is None && m == n,
            },
    {
        if n == 0 {
            Ok(PythonLogLevel::NotSet)
        } else if n == 5 {
            Ok(PythonLogLevel::Trace)
        } else if n == 10 {
            Ok(PythonLogLevel::Debug)
        } else if n == 20 {
            Ok(PythonLogLevel::Info)
        } else if n == 30 {
            Ok(PythonLogLevel::Warn)
        } else if n == 40 {
            Ok(PythonLogLevel::Error)
        } else if n == 50 {
            Ok(PythonLogLevel::Critical)
        } else {
            Err(n)
        }
    }

    /// The numeric value of the level in the Python `logging` package.
    pub fn as_u64(&self) -> (r: u64)
        ensures
            r == python_level_number(*self),
    {
        match self {
            PythonLogLevel::NotSet => 0,
            PythonLogLevel::Trace => 5,
            PythonLogLevel::Debug => 10,
            PythonLogLevel::Info => 20,
            PythonLogLevel::Warn => 30,
            PythonLogLevel::Error => 40,
            PythonLogLevel::Critical => 50,
        }
    }
}

/// A level's numeric value names the level back: the two conversions are
/// inverse on every level.
pub proof fn lemma_python_level_round_trip(l: PythonLogLevel)
    ensures
        python_level_of_number(python_level_number(l)) == Some(l),
{
}

impl From<LogLevel> for PythonLogLevel {
    fn from(level: LogLevel) -> (r: PythonLogLevel) {
        match level {
            LogLevel::Error => PythonLogLevel::Error,
            LogLevel::Warn => PythonLogLevel::Warn,
            LogLevel::Info => PythonLogLevel::Info,
            LogLevel::Debug => PythonLogLevel::Debug,
            LogLevel::Trace => PythonLogLevel::Trace,
        }
    }
}

impl vstd::std_specs::convert::FromSpecImpl<LogLevel> for PythonLogLevel {
    open spec fn obeys_from_spec() -> bool {
        true
    }

    open spec fn from_spec(level: LogLevel) -> PythonLogLevel {
        python_level_of_log_level(level)
    }
}

impl From<PythonLogLevel> for LogLevelFilter {
    fn from(level: PythonLogLevel) -> (r: LogLevelFilter) {
        match level {
            PythonLogLevel::NotSet => LogLevelFilter::Off,
            PythonLogLevel::Trace => LogLevelFilter::Trace,
            PythonLogLevel::Debug => LogLevelFilter::Debug,
            PythonLogLevel::Info => LogLevelFilter::Info,
            PythonLogLevel::Warn => LogLevelFilter::Warn,
            PythonLogLevel::Error => LogLevelFilter::Error,
            PythonLogLevel::Critical => LogLevelFilter::Error,
        }
    }
}

impl vstd::std_specs::convert::FromSpecImpl<PythonLogLevel> for LogLevelFilter {
    open spec fn obeys_from_spec() -> bool {
        true
    }

    open spec fn from_spec(level: PythonLogLevel) -> LogLevelFilter {
        filter_of_python_level(level)
    }
}

} // verus!
