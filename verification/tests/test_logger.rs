use ly::log::prelude::{error_f, log_f, set_level, set_logger, warn_f, Level, LogState, Logger, ANSI};

#[test]
fn lib_test_ansi_log() -> std::io::Result<()> {
    let mut out = LogState::new();
    let log = ANSI::new();
    set_logger(&mut out, log);
    log_f(&mut out, format!("test log  {}", 10))?;
    warn_f(&mut out, format!("test warn {}", 10))?;
    error_f(&mut out, format!("test err  {}", 10))?;
    Ok(())
}

#[test]
fn test_logger_test_ansi_log() -> std::io::Result<()> {
    let mut out = LogState::new();
    let log = ANSI::new();
    set_logger(&mut out, log);
    log_f(&mut out, format!("test log  {}", 10))?;
    warn_f(&mut out, format!("test warn {}", 10))?;
    error_f(&mut out, format!("test err  {}", 10))?;
    Ok(())
}

fn captured(out: &LogState<Vec<u8>>) -> String {
    String::from_utf8(out.logger().unwrap().clone()).unwrap()
}

#[test]
fn records_without_logger_are_dropped() {
    let mut out: LogState<Vec<u8>> = LogState::new();
    assert!(log_f(&mut out, String::from("nobody hears")).is_ok());
    assert!(error_f(&mut out, String::from("nobody hears")).is_ok());
    assert!(out.logger().is_none());
    assert_eq!(out.level(), Level::Log);
}

#[test]
fn default_threshold_forwards_everything() {
    let mut out = LogState::new();
    set_logger(&mut out, Vec::new());
    log_f(&mut out, String::from("a")).unwrap();
    warn_f(&mut out, String::from("b")).unwrap();
    error_f(&mut out, String::from("c")).unwrap();
    assert_eq!(captured(&out), "abc");
}

#[test]
fn records_below_threshold_are_dropped() {
    let mut out = LogState::new();
    set_logger(&mut out, Vec::new());
    set_level(&mut out, Level::Warning);
    log_f(&mut out, String::from("log;")).unwrap();
    warn_f(&mut out, String::from("warn;")).unwrap();
    error_f(&mut out, String::from("err;")).unwrap();
    set_level(&mut out, Level::Error);
    log_f(&mut out, String::from("log2;")).unwrap();
    warn_f(&mut out, String::from("warn2;")).unwrap();
    error_f(&mut out, String::from("err2;")).unwrap();
    assert_eq!(captured(&out), "warn;err;err2;");
    assert_eq!(out.level(), Level::Error);
}

#[test]
fn write_uses_the_given_level() {
    let mut out = LogState::new();
    set_level(&mut out, Level::Warning);
    set_logger(&mut out, Vec::new());
    ly::log::logger::write(&mut out, String::from("x"), Level::Log).unwrap();
    ly::log::logger::write(&mut out, String::from("y"), Level::Warning).unwrap();
    assert_eq!(captured(&out), "y");
}

#[test]
fn a_new_logger_replaces_the_old_one() {
    let mut out = LogState::new();
    set_logger(&mut out, Vec::new());
    log_f(&mut out, String::from("first")).unwrap();
    set_logger(&mut out, Vec::new());
    log_f(&mut out, String::from("second")).unwrap();
    assert_eq!(captured(&out), "second");
}

#[test]
fn byte_buffer_logger_appends_message_bytes() {
    let mut buf: Vec<u8> = b"pre:".to_vec();
    buf.write(String::from("héllo"), Level::Error).unwrap();
    buf.log(String::from("!")).unwrap();
    buf.warn(String::from("?")).unwrap();
    buf.error(String::from(".")).unwrap();
    assert!(Logger::clear(&mut buf).is_ok());
    assert_eq!(String::from_utf8(buf).unwrap(), "pre:héllo!?.");
}

#[test]
fn level_order() {
    assert!(Level::Log < Level::Warning);
    assert!(Level::Warning < Level::Error);
    assert_eq!(Level::Log.compare(&Level::Error), std::cmp::Ordering::Less);
    assert_eq!(Level::Error.compare(&Level::Warning), std::cmp::Ordering::Greater);
    assert_eq!(Level::Warning.compare(&Level::Warning), std::cmp::Ordering::Equal);
    assert_eq!(Level::Warning.compare(&Level::Log), std::cmp::Ordering::Greater);
    assert_eq!(Level::Warning.compare(&Level::Error), std::cmp::Ordering::Less);
    assert_eq!(Level::default(), Level::Log);
    for a in [Level::Log, Level::Warning, Level::Error] {
        for b in [Level::Log, Level::Warning, Level::Error] {
            assert_eq!(a.compare(&b), a.cmp(&b));
            assert_eq!(a.compare(&b), b.compare(&a).reverse());
        }
    }
}

#[test]
fn ansi_new_colors() {
    let a = ANSI::new();
    assert!(a.labels);
    assert!(!a.force_color);
    assert_eq!(a.colors, [(0x83, 0x83, 0x83), (0xab, 0x87, 0x04), (0xff, 0x21, 0x00)]);
}

#[test]
fn ansi_line_without_labels() {
    let mut a = ANSI::new();
    a.labels = false;
    assert_eq!(a.format_line("plain", Level::Error, true), "plain\n");
    assert_eq!(a.format_line("plain", Level::Log, false), "plain\n");
}

#[test]
fn ansi_line_with_plain_labels() {
    let a = ANSI::new();
    assert_eq!(a.format_line("m", Level::Log, false), "[Log ]:m\n");
    assert_eq!(a.format_line("m", Level::Warning, false), "[Warn]:m\n");
    assert_eq!(a.format_line("m", Level::Error, false), "[Err ]:m\n");
}

#[test]
fn ansi_line_with_colored_labels() {
    let a = ANSI::new();
    assert_eq!(
        a.format_line("m", Level::Log, true),
        "[\x1b[38;2;131;131;131mLog \x1b[m]:m\n"
    );
    assert_eq!(
        a.format_line("m", Level::Warning, true),
        "[\x1b[38;2;171;135;4mWarn\x1b[m]:m\n"
    );
    let mut forced = ANSI::new();
    forced.force_color = true;
    assert_eq!(
        forced.format_line("m", Level::Error, false),
        "[\x1b[38;2;255;33;0mErr \x1b[m]:m\n"
    );
}

#[test]
fn ansi_line_decimal_colors() {
    let mut a = ANSI::new();
    a.colors = [(0, 9, 10), (99, 100, 200), (1, 250, 255)];
    assert_eq!(a.format_line("", Level::Log, true), "[\x1b[38;2;0;9;10mLog \x1b[m]:\n");
    assert_eq!(a.format_line("", Level::Warning, true), "[\x1b[38;2;99;100;200mWarn\x1b[m]:\n");
    assert_eq!(a.format_line("", Level::Error, true), "[\x1b[38;2;1;250;255mErr \x1b[m]:\n");
}

#[test]
fn ansi_logger_writes() -> std::io::Result<()> {
    let mut a = ANSI::new();
    a.write(String::from("to stdout"), Level::Warning)?;
    a.labels = false;
    a.write(String::from("bare"), Level::Log)
}
