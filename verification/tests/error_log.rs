use flirone::usb::{ErrorAction, UsbErrorLog, ERROR_PAUSE_MS};

#[test]
fn repeated_error_is_reported_once() {
    let mut log = UsbErrorLog::new();
    assert_eq!(log.on_error(4), ErrorAction { report: true, pause_ms: ERROR_PAUSE_MS });
    assert_eq!(log.on_error(4), ErrorAction { report: false, pause_ms: 1000 });
    assert_eq!(log.on_error(5), ErrorAction { report: true, pause_ms: 1000 });
    assert_eq!(log.on_error(4), ErrorAction { report: true, pause_ms: 1000 });
}
