use socket_relay::address::{IpSocketAddress, Ipv4SocketAddress};
use socket_relay::socket::{bind_address_to_socket_tcp_ipv4, handle_error, SocketOp};

#[test]
fn handle_error_reports_success() {
    let report = handle_error::<()>(Ok(()), "start_bind");
    assert_eq!(report.line, "start_bind OK");
    assert!(!report.exit);
}

#[test]
fn handle_error_reports_failure_and_stops() {
    let report = handle_error::<()>(Err("AddressInUse".to_string()), "finish_bind");
    assert_eq!(report.line, "finish_bind AddressInUse");
    assert!(report.exit);
}

#[test]
fn bind_plan_creates_then_binds() {
    let plan = bind_address_to_socket_tcp_ipv4((127, 0, 0, 1), 8090);
    assert_eq!(
        plan,
        vec![
            SocketOp::CreateTcpSocket,
            SocketOp::StartBind(IpSocketAddress::Ipv4(Ipv4SocketAddress {
                address: (127, 0, 0, 1),
                port: 8090
            })),
            SocketOp::FinishBind,
        ]
    );
}
