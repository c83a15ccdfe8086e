use bluetooth_battery::device::BluetoothDevice;

fn utf16_field(name: &str) -> Vec<u16> {
    let mut field: Vec<u16> = name.encode_utf16().collect();
    field.resize(8, 0);
    field
}

#[test]
fn device_from_raw_keeps_name_and_formats_address() {
    let field = utf16_field("WH-1000");
    let device = BluetoothDevice::from_raw(&field, [0xab, 0x0d, 0xef, 0x12, 0x34, 0x56]);
    assert_eq!(device.mac(), "AB:0D:EF:12:34:56");
    assert_eq!(device.name(), "WH-1000\0");
}

#[test]
fn device_name_replaces_unpaired_surrogates() {
    let field = vec![0x0041u16, 0xD800, 0x0042];
    let device = BluetoothDevice::from_raw(&field, [0; 6]);
    assert_eq!(device.name(), "A\u{FFFD}B");
    assert_eq!(device.mac(), "00:00:00:00:00:00");
}
