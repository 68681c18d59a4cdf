use tui_logger::TuiLoggerError;

fn set_logger_error() -> log::SetLoggerError {
    let _ = log::set_logger(log::logger());
    log::set_logger(log::logger()).unwrap_err()
}

#[test]
fn error_of_a_second_logger() {
    let err = TuiLoggerError::SetLoggerError(set_logger_error());
    assert_eq!(err.description(), "SetLoggerError");
    assert!(err.cause().is_none());
    assert_eq!(
        err.message(),
        "SetLoggerError(attempted to set a logger after the logging system was already \
         initialized)"
    );
    assert_eq!(err.message(), format!("SetLoggerError({})", set_logger_error()));
}

#[test]
fn error_of_a_thread() {
    let io = std::io::Error::new(std::io::ErrorKind::Other, "no more threads");
    let err = TuiLoggerError::ThreadError(io);
    assert_eq!(err.description(), "ThreadError");
    assert_eq!(err.cause().map(|e| e.to_string()), Some("no more threads".to_string()));
    assert_eq!(err.message(), "ThreadError(no more threads)");
}

#[test]
fn message_is_put_in_parentheses() {
    let err = TuiLoggerError::SetLoggerError(set_logger_error());
    assert_eq!(err.message_with("why"), "SetLoggerError(why)");
}
