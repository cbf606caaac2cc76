use body_image::logger::{setup_logger, Level, LogSetup, TestLog};

#[test]
fn logger_log_setup() {
    let mut log = TestLog::new();
    assert!(log.test_logger(0));
    assert!(log.setup.is_none());
}

#[test]
fn lib_log_setup() {
    let mut log = TestLog::new();
    assert!(log.test_logger(3));
    assert_eq!(log.setup, Some(LogSetup { max_level: Level::Debug, filter: false }));
    // Only once
    assert!(log.test_logger(1));
    assert_eq!(log.setup, Some(LogSetup { max_level: Level::Debug, filter: false }));
}

#[test]
fn levels_of_detail() {
    assert_eq!(setup_logger(0), LogSetup { max_level: Level::Info, filter: true });
    assert_eq!(setup_logger(1), LogSetup { max_level: Level::Debug, filter: true });
    assert_eq!(setup_logger(2), LogSetup { max_level: Level::Debug, filter: false });
    assert_eq!(setup_logger(3), LogSetup { max_level: Level::Trace, filter: false });
    assert_eq!(setup_logger(9), LogSetup { max_level: Level::Trace, filter: false });
}

#[test]
fn own_targets_pass_the_filter() {
    let log = setup_logger(1);
    assert!(log.lets_through("body_image::body", Level::Debug));
    assert!(log.lets_through("barc", Level::Trace));
    assert!(log.lets_through("blocking_permit::x", Level::Debug));
    assert!(!log.lets_through("hyper::proto", Level::Debug));
    assert!(!log.lets_through("my_barc", Level::Trace));
    assert!(log.lets_through("hyper::proto", Level::Info));
    assert!(log.lets_through("hyper::proto", Level::Error));
    assert!(setup_logger(2).lets_through("hyper::proto", Level::Trace));
}
