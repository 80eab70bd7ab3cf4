use std::sync::{Arc, Mutex};

use request_logging_proxy::writer::{LockableWriter, LockableWriterGuard};

#[test]
fn locked_buffer_receives_writes() {
    let buffer = Arc::new(Mutex::new(Vec::new()));
    let mut writer = LockableWriter::BufWriter(buffer.clone());
    {
        let mut guard = writer.lock().unwrap();
        assert!(matches!(guard, LockableWriterGuard::BufWriter(_)));
        guard.write_all(b"abc").unwrap();
        let n = guard.write(b"de").unwrap();
        assert_eq!(n, 2);
        guard.flush().unwrap();
    }
    assert_eq!(buffer.lock().unwrap().as_slice(), b"abcde");
}

#[test]
fn stdout_locks_as_stdout() {
    let mut writer = LockableWriter::Stdout(std::io::stdout());
    let guard = writer.lock().unwrap();
    assert!(matches!(guard, LockableWriterGuard::Stdout(_)));
}
