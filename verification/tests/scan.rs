use bluetooth_battery::scan::{DeviceSearch, RadioSearch, SearchAction};

fn name(text: &str) -> Vec<u16> {
    text.encode_utf16().collect()
}

#[test]
fn device_search_stops_when_a_next_device_is_found() {
    let mut s = DeviceSearch::new();
    assert!(s.first_device(false) == SearchAction::Record);
    assert!(s.record(&name("a"), [1, 2, 3, 4, 5, 6]) == SearchAction::FindNext);
    assert!(s.next_device(true) == SearchAction::Close);
    assert!(s.closed(false) == SearchAction::Finish);
    let devices = s.into_devices();
    assert_eq!(devices.len(), 1);
    assert_eq!(devices[0].name(), "a");
    assert_eq!(devices[0].mac(), "01:02:03:04:05:06");
}

#[test]
fn device_search_records_again_while_no_next_device() {
    let mut s = DeviceSearch::new();
    assert!(s.first_device(false) == SearchAction::Record);
    assert!(s.record(&name("a"), [0; 6]) == SearchAction::FindNext);
    assert!(s.next_device(false) == SearchAction::Record);
    assert!(s.record(&name("a"), [0; 6]) == SearchAction::FindNext);
    assert!(s.next_device(true) == SearchAction::Close);
    assert!(s.closed(false) == SearchAction::Finish);
    assert_eq!(s.into_devices().len(), 2);
}

#[test]
fn device_search_invalid_handle_finds_nothing() {
    let mut s = DeviceSearch::new();
    assert!(s.first_device(true) == SearchAction::Finish);
    assert!(s.into_devices().is_empty());
}

#[test]
fn device_search_aborts_when_close_succeeds() {
    let mut s = DeviceSearch::new();
    s.first_device(false);
    s.record(&name("a"), [0; 6]);
    s.next_device(true);
    assert!(s.closed(true) == SearchAction::Abort);
}

#[test]
fn radio_search_gathers_devices_in_order() {
    let mut r = RadioSearch::new();
    assert!(r.first_radio(false, 0) == Ok(SearchAction::Record));
    let mut d = DeviceSearch::new();
    d.first_device(false);
    d.record(&name("x"), [0xaa; 6]);
    d.next_device(false);
    d.record(&name("y"), [0xbb; 6]);
    d.next_device(true);
    d.closed(false);
    assert!(r.record_radio(d.into_devices()) == SearchAction::FindNext);
    assert!(r.next_radio(true) == SearchAction::Close);
    assert!(r.closed(false) == SearchAction::Finish);
    let devices = r.into_devices();
    assert_eq!(devices.len(), 2);
    assert_eq!(devices[0].name(), "x");
    assert_eq!(devices[1].mac(), "BB:BB:BB:BB:BB:BB");
}

#[test]
fn radio_search_invalid_handle_reports_error() {
    let mut r = RadioSearch::new();
    match r.first_radio(true, 259) {
        Err(m) => assert_eq!(m, "No bluetooth devices error: 259"),
        Ok(_) => panic!("search went on"),
    }
}
