use librepods_core::manager::DeviceManager;
use librepods_core::parser::parse_battery_status;
use librepods_core::security::{constant_time_eq, ReplayWindow, SecureBuffer};
use librepods_core::{Device, DeviceModel, Engine};

#[test]
fn lib_test_engine_creation() {
    let engine = Engine::new();
    assert_eq!(engine.devices().len(), 0);
}

#[test]
fn test_manager_creation() {
    let manager = DeviceManager::new();
    assert_eq!(manager.list_devices().len(), 0);
}

#[test]
fn test_add_device() {
    let mut manager = DeviceManager::new();
    let device = Device::new(
        "test_001".to_string(),
        "Test AirPods".to_string(),
        DeviceModel::AirPods3,
    );
    manager.add_device(device).unwrap();
    assert_eq!(manager.list_devices().len(), 1);
}

#[test]
fn test_parse_battery_status() {
    let payload = vec![50, 60, 70];
    let (left, right, case) = parse_battery_status(&payload).unwrap();
    assert_eq!(left, 50);
    assert_eq!(right, 60);
    assert_eq!(case, 70);
}

#[test]
fn replay_window_detects_duplicates() {
    let mut rw = ReplayWindow::new();
    assert!(rw.check(10));
    assert!(!rw.check(10));
    assert!(rw.check(11));
}

#[test]
fn constant_time_eq_works() {
    assert!(constant_time_eq(b"hello", b"hello"));
    assert!(!constant_time_eq(b"hello", b"world"));
}

#[test]
fn secure_buffer_zeroizes() {
    let buf = SecureBuffer::new(vec![1, 2, 3, 4, 5]);
    assert_eq!(buf.as_slice(), &[1, 2, 3, 4, 5]);
}
