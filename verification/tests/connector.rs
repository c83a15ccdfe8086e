use bluetooth_battery::connector::{
    recv_result, send_result, socket_setup_step, startup_result, wsa_version, BluetoothConnector,
    BthSocketAddress, SetupAction, SetupEvent, SocketOption, AF_BTH, INVALID_SOCKET,
};

#[test]
fn wsa_version_is_two_two() {
    assert_eq!(wsa_version(), 0x0202);
}

#[test]
fn startup_outcomes() {
    assert!(startup_result(0, 0).is_ok());
    assert_eq!(startup_result(10091, 10091), Err("WSAStartup failed: 10091".to_string()));
}

#[test]
fn new_connector_holds_socket_zero() {
    let c = BluetoothConnector::new();
    assert_eq!(c.socket(), 0);
    assert!(!c.is_connected());
    assert!(!c.needs_socket_init());
    assert_eq!(c.socket_to_release(), Some(0));
}

#[test]
fn connect_success_then_disconnect() {
    let mut c = BluetoothConnector::new();
    assert_eq!(c.finish_connect(0, 0), Ok(()));
    assert!(c.is_connected());
    assert_eq!(c.disconnect(), Some(0));
    assert!(!c.is_connected());
    assert_eq!(c.socket(), INVALID_SOCKET);
    assert!(c.needs_socket_init());
    assert_eq!(c.disconnect(), None);
    assert_eq!(c.socket_to_release(), None);
}

#[test]
fn failed_connect_keeps_state() {
    let mut c = BluetoothConnector::new();
    assert_eq!(c.finish_connect(-1, 10061), Err("Couldn't connect: 10061".to_string()));
    assert!(!c.is_connected());
    assert_eq!(c.socket(), 0);
}

#[test]
fn socket_address_for_device() {
    let a = BthSocketAddress::for_device(1122334455);
    assert_eq!(a.address_family, AF_BTH);
    assert_eq!(a.address_family, 32);
    assert_eq!(a.bt_addr, 1122334455);
    assert_eq!(a.port, 0);
    assert_eq!(a.service_class_id, 0);
}

#[test]
fn transfer_outcomes() {
    assert_eq!(send_result(12, 0), Ok(12));
    assert_eq!(send_result(-1, 10054), Err("Couldn't send (10054)".to_string()));
    assert_eq!(recv_result(0, 0), Ok(0));
    assert_eq!(recv_result(-1, 10060), Err("Couldn't recv (10060)".to_string()));
}

#[test]
fn socket_setup_sequence() {
    match socket_setup_step(SetupEvent::Created { socket: 7 }, 0) {
        SetupAction::SetOption { option, value } => {
            assert!(option == SocketOption::Authenticate);
            assert_eq!(value, 1);
            assert_eq!(option.level(), 3);
            assert_eq!(option.name(), 0x8000_0001u32 as i32);
        }
        SetupAction::Finish(_) => panic!("set-up ended early"),
    }
    match socket_setup_step(SetupEvent::Authenticated { result: 0 }, 0) {
        SetupAction::SetOption { option, value } => {
            assert!(option == SocketOption::Encrypt);
            assert_eq!(value, 1);
            assert_eq!(option.name(), 2);
        }
        SetupAction::Finish(_) => panic!("set-up ended early"),
    }
    match socket_setup_step(SetupEvent::Encrypted { result: 0 }, 0) {
        SetupAction::Finish(r) => assert_eq!(r, Ok(())),
        SetupAction::SetOption { .. } => panic!("set-up went on"),
    }
}

#[test]
fn socket_setup_failures() {
    let expect = |event: SetupEvent, message: &str| match socket_setup_step(event, 10047) {
        SetupAction::Finish(r) => assert_eq!(r, Err(message.to_string())),
        SetupAction::SetOption { .. } => panic!("set-up went on"),
    };
    expect(SetupEvent::Created { socket: INVALID_SOCKET }, "Create socket failed: 10047");
    expect(SetupEvent::Authenticated { result: -1 }, "Couldn't set SO_BTH_AUTHENTICATE: 10047");
    expect(SetupEvent::Encrypted { result: -1 }, "Couldn't set SO_BTH_ENCRYPT: 10047");
}
