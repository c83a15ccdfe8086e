use bluetooth_battery::text::{append_int, message_with_code};

#[test]
fn message_with_code_writes_decimal() {
    assert_eq!(message_with_code("Couldn't connect: ", 10061), "Couldn't connect: 10061");
    assert_eq!(message_with_code("e: ", 0), "e: 0");
    assert_eq!(message_with_code("e: ", -42), "e: -42");
}

#[test]
fn append_int_extremes() {
    let mut s = String::from("x");
    append_int(&mut s, i64::MIN);
    assert_eq!(s, format!("x{}", i64::MIN));
    let mut t = String::new();
    append_int(&mut t, i64::MAX);
    assert_eq!(t, i64::MAX.to_string());
}
