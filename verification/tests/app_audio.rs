use bisc::app_audio::{AppAudioError, PipeWireAppAudioCapture, StubAppAudioCapture};
use bisc::media::AppAudioSource;

#[test]
fn stub_list_returns_empty() {
    let stub = StubAppAudioCapture;
    let apps = stub.list_capturable_apps();
    assert!(apps.is_empty());
}

#[test]
fn stub_capture_returns_error() {
    let stub = StubAppAudioCapture;
    let source = AppAudioSource { name: "test_app".to_string(), id: 42 };
    let result = stub.start_capture(&source);
    assert!(result.is_err());
    let err_msg = result.unwrap_err().message();
    assert!(err_msg.contains("not available"));
}

#[test]
fn stub_stop_no_panic() {
    let stub = StubAppAudioCapture;
    stub.stop_capture(); // should not panic
}

#[test]
fn pipewire_allows_one_capture_at_a_time() {
    assert_eq!(PipeWireAppAudioCapture::new(false).err(), Some(AppAudioError::NotAvailable));
    let mut c = PipeWireAppAudioCapture::new(true).ok().unwrap();
    let source = AppAudioSource { name: "player".to_string(), id: 7 };
    assert!(c.list_capturable_apps().is_empty());
    assert_eq!(c.start_capture(&source), Ok(()));
    assert_eq!(c.start_capture(&source), Err(AppAudioError::AlreadyCapturing));
    assert!(c.stop_capture());
    assert!(!c.stop_capture());
    assert_eq!(c.start_capture(&source), Ok(()));
}
