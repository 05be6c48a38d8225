use nailgun_pool::loglevel::{LogLevel, LogLevelFilter, PythonLogLevel};

#[test]
fn python_levels_parse_from_their_numbers() {
    assert_eq!(PythonLogLevel::try_from_u64(0), Ok(PythonLogLevel::NotSet));
    assert_eq!(PythonLogLevel::try_from_u64(5), Ok(PythonLogLevel::Trace));
    assert_eq!(PythonLogLevel::try_from_u64(10), Ok(PythonLogLevel::Debug));
    assert_eq!(PythonLogLevel::try_from_u64(20), Ok(PythonLogLevel::Info));
    assert_eq!(PythonLogLevel::try_from_u64(30), Ok(PythonLogLevel::Warn));
    assert_eq!(PythonLogLevel::try_from_u64(40), Ok(PythonLogLevel::Error));
    assert_eq!(PythonLogLevel::try_from_u64(50), Ok(PythonLogLevel::Critical));
}

#[test]
fn unknown_level_numbers_are_rejected() {
    assert_eq!(PythonLogLevel::try_from_u64(3), Err(3));
    assert_eq!(PythonLogLevel::try_from_u64(51), Err(51));
}

#[test]
fn level_numbers_round_trip() {
    let levels = [
        PythonLogLevel::NotSet,
        PythonLogLevel::Trace,
        PythonLogLevel::Debug,
        PythonLogLevel::Info,
        PythonLogLevel::Warn,
        PythonLogLevel::Error,
        PythonLogLevel::Critical,
    ];
    for level in levels {
        assert_eq!(PythonLogLevel::try_from_u64(level.as_u64()), Ok(level));
    }
}

#[test]
fn host_levels_map_to_python_levels() {
    assert_eq!(PythonLogLevel::from(LogLevel::Error), PythonLogLevel::Error);
    assert_eq!(PythonLogLevel::from(LogLevel::Warn), PythonLogLevel::Warn);
    assert_eq!(PythonLogLevel::from(LogLevel::Info), PythonLogLevel::Info);
    assert_eq!(PythonLogLevel::from(LogLevel::Debug), PythonLogLevel::Debug);
    assert_eq!(PythonLogLevel::from(LogLevel::Trace), PythonLogLevel::Trace);
}

#[test]
fn python_levels_map_to_host_filters() {
    assert_eq!(LogLevelFilter::from(PythonLogLevel::NotSet), LogLevelFilter::Off);
    assert_eq!(LogLevelFilter::from(PythonLogLevel::Trace), LogLevelFilter::Trace);
    assert_eq!(LogLevelFilter::from(PythonLogLevel::Debug), LogLevelFilter::Debug);
    assert_eq!(LogLevelFilter::from(PythonLogLevel::Info), LogLevelFilter::Info);
    assert_eq!(LogLevelFilter::from(PythonLogLevel::Warn), LogLevelFilter::Warn);
    assert_eq!(LogLevelFilter::from(PythonLogLevel::Error), LogLevelFilter::Error);
    // There is no Critical on the host side: it filters like Error.
    assert_eq!(LogLevelFilter::from(PythonLogLevel::Critical), LogLevelFilter::Error);
}
