use rail::error::RailError;
use rail::events::{DeviceStatus, ReplayPosition};
use rail::hardware::{first_rtlsdr, friendly_name, is_rtlsdr, reader_exit, ReaderExit, UsbDeviceDesc};

#[test]
fn known_dongles_are_recognised() {
    assert!(is_rtlsdr(0x0bda, 0x2838));
    assert!(is_rtlsdr(0x1554, 0x5020));
    assert!(!is_rtlsdr(0x0bda, 0x0000));
    assert!(!is_rtlsdr(0x1d6b, 0x0002));
}

#[test]
fn friendly_names() {
    assert_eq!(friendly_name(0x0bda, 0x2838, Some("NESDR SMArt v5")), "NESDR SMArt v5");
    assert_eq!(friendly_name(0x0bda, 0x2838, Some("")), "Generic RTL2832U / NESDR");
    assert_eq!(friendly_name(0x0bda, 0x2832, None), "Generic RTL2832U");
    assert_eq!(friendly_name(0x0ccd, 0x00a9, None), "RTL-SDR compatible (0ccd:00a9)");
}

#[test]
fn first_known_device_is_chosen() {
    let devices = vec![
        UsbDeviceDesc { vendor_id: 0x1d6b, product_id: 0x0002, product: Some("hub".into()) },
        UsbDeviceDesc { vendor_id: 0x0bda, product_id: 0x2832, product: None },
        UsbDeviceDesc { vendor_id: 0x0bda, product_id: 0x2838, product: Some("X".into()) },
    ];
    let info = first_rtlsdr(&devices).unwrap();
    assert_eq!(info.index, 1);
    assert_eq!(info.name, "Generic RTL2832U");
    let hub_only = vec![UsbDeviceDesc { vendor_id: 0x1d6b, product_id: 0x0002, product: None }];
    assert_eq!(first_rtlsdr(&hub_only).unwrap_err(), RailError::DeviceNotFound);
    assert_eq!(first_rtlsdr(&vec![]).unwrap_err(), RailError::DeviceNotFound);
}

#[test]
fn reader_exit_decisions() {
    assert!(matches!(reader_exit(true, None), ReaderExit::CloseDevice));
    assert!(matches!(reader_exit(true, Some("x".into())), ReaderExit::CloseDevice));
    match reader_exit(false, None) {
        ReaderExit::Disconnected(m) => assert_eq!(m, "device stream stopped unexpectedly"),
        ReaderExit::CloseDevice => panic!("expected a disconnect"),
    }
    match reader_exit(false, Some("stream error: rtlsdr_read_async -> -5".into())) {
        ReaderExit::Disconnected(m) => assert_eq!(m, "stream error: rtlsdr_read_async -> -5"),
        ReaderExit::CloseDevice => panic!("expected a disconnect"),
    }
}

#[test]
fn device_status_payloads() {
    let c = DeviceStatus::connected();
    assert!(c.connected);
    assert!(c.error.is_none());
    let d = DeviceStatus::disconnected_with("gone".to_string());
    assert!(!d.connected);
    assert_eq!(d.error.as_deref(), Some("gone"));
    let p = ReplayPosition::new(1, 2, 3, true);
    assert_eq!((p.sample_idx, p.position_ms, p.total_ms, p.playing), (1, 2, 3, true));
}
