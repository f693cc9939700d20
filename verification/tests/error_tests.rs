use shoruichecker::error::{from_io, io_failure, AppError};

#[test]
fn error_messages() {
    assert_eq!(AppError::Io("x".to_string()).message(), "IO error: x");
    assert_eq!(AppError::Process("x".to_string()).message(), "Process error: x");
    assert_eq!(AppError::Json("x".to_string()).message(), "JSON error: x");
    assert_eq!(AppError::Pdf("x".to_string()).message(), "PDF error: x");
    assert_eq!(AppError::InvalidInput("x".to_string()).message(), "Invalid input: x");
    assert_eq!(AppError::NotFound("x".to_string()).message(), "Not found: x");
}

#[test]
fn a_string_becomes_a_process_error() {
    match AppError::from("boom".to_string()) {
        AppError::Process(m) => assert_eq!(m, "boom"),
        _ => panic!("a bare string stands for a process failure"),
    }
}

#[test]
fn an_io_failure_becomes_an_io_error() {
    let e = std::io::Error::new(std::io::ErrorKind::NotFound, "no such file");
    match from_io(e) {
        AppError::Io(m) => assert_eq!(m, "no such file"),
        _ => panic!("a file-system failure is an IO error"),
    }
}

#[test]
fn an_io_failure_carries_the_given_text() {
    match io_failure("disk full".to_string()) {
        AppError::Io(m) => assert_eq!(m, "disk full"),
        _ => panic!("an IO failure is an IO error"),
    }
    assert_eq!(io_failure(String::new()).message(), "IO error: ");
}
