use mirror_caddy::logger::Logger;

#[test]
fn info_line_is_green_and_tagged() {
    let log = Logger::new(0);
    assert_eq!(log.info("hello"), "\x1b[0;32m[INFO]\x1b[0m hello\n");
}

#[test]
fn error_line_is_red_and_tagged() {
    let log = Logger::new(0);
    assert_eq!(log.error("boom"), "\x1b[0;31m[ERROR]\x1b[0m boom\n");
}

#[test]
fn debug_needs_verbosity_one() {
    assert_eq!(Logger::new(0).debug("x"), None);
    assert_eq!(
        Logger::new(1).debug("x"),
        Some("\x1b[0;35m[DEBUG]\x1b[0m x\n".to_string())
    );
}

#[test]
fn trace_needs_verbosity_two() {
    assert_eq!(Logger::new(1).trace("x"), None);
    assert_eq!(
        Logger::new(2).trace("x"),
        Some("\x1b[0;96m[TRACE]\x1b[0m x\n".to_string())
    );
}

#[test]
fn spinner_line_is_erased_first() {
    let mut log = Logger::new(0);
    log.set_spinner_active(true);
    assert!(log.spinner_active());
    assert_eq!(log.emit("msg"), "\r\x1b[Kmsg\n");
    log.set_spinner_active(false);
    assert_eq!(log.emit("msg"), "msg\n");
}
