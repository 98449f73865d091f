use socket_relay::address::{IpSocketAddress, Ipv4SocketAddress};
use socket_relay::relay::{
    next_call, relay_step, response, Outcome, RelayCall, RelayConfig, RelayPhase, RelayState,
    READ_LIMIT,
};
use socket_relay::socket::SocketOp;

fn config() -> RelayConfig {
    RelayConfig::new(((127, 0, 0, 1), 8090), ((127, 0, 0, 1), 8100))
}

/// Runs the relay through `outcomes`, giving each call and whether it went on.
fn run(state: &mut RelayState, outcomes: Vec<Outcome>) -> (Vec<RelayCall>, bool) {
    let cfg = config();
    let mut calls = Vec::new();
    for outcome in outcomes {
        calls.push(next_call(&cfg, state));
        if !relay_step(state, outcome) {
            return (calls, false);
        }
    }
    (calls, true)
}

fn successful_cycle(read: Outcome) -> Vec<Outcome> {
    let mut outcomes: Vec<Outcome> = (0..3).map(|_| Outcome::Done).collect();
    outcomes.push(read);
    outcomes.extend((0..10).map(|_| Outcome::Done));
    outcomes
}

#[test]
fn relay_forwards_what_it_read() {
    let mut state = RelayState::new();
    let (calls, went_on) = run(&mut state, successful_cycle(Outcome::Received(b"hello".to_vec())));
    assert!(went_on);
    assert_eq!(calls[3], RelayCall::Read { max_len: READ_LIMIT });
    assert_eq!(calls[4], RelayCall::Respond(b"Message received!".to_vec()));
    assert_eq!(calls[12], RelayCall::Forward(b"hello".to_vec()));
    assert_eq!(state.phase, RelayPhase::Accept);
    assert!(state.buffer.is_empty());
}

#[test]
fn relay_calls_in_order() {
    let mut state = RelayState::new();
    let (calls, _) = run(&mut state, successful_cycle(Outcome::Received(vec![1, 2, 3])));
    let dest = IpSocketAddress::Ipv4(Ipv4SocketAddress { address: (127, 0, 0, 1), port: 8100 });
    let connect = IpSocketAddress::Ipv4(Ipv4SocketAddress { address: (127, 0, 0, 1), port: 8090 });
    assert_eq!(
        calls,
        vec![
            RelayCall::Accept,
            RelayCall::LocalAddress,
            RelayCall::RemoteAddress,
            RelayCall::Read { max_len: 1024 },
            RelayCall::Respond(response()),
            RelayCall::FlushResponse,
            RelayCall::ShutdownInbound,
            RelayCall::Socket(SocketOp::CreateTcpSocket),
            RelayCall::Socket(SocketOp::StartBind(connect)),
            RelayCall::Socket(SocketOp::FinishBind),
            RelayCall::Socket(SocketOp::StartConnect(dest)),
            RelayCall::FinishConnect,
            RelayCall::Forward(vec![1, 2, 3]),
            RelayCall::ShutdownOutbound,
        ]
    );
}

#[test]
fn failed_read_forwards_nothing_and_goes_on() {
    let mut state = RelayState::new();
    let (calls, went_on) =
        run(&mut state, successful_cycle(Outcome::Failed("closed".to_string())));
    assert!(went_on);
    assert_eq!(calls[12], RelayCall::Forward(vec![]));
}

#[test]
fn empty_read_forwards_nothing() {
    let mut state = RelayState::new();
    let (calls, _) = run(&mut state, successful_cycle(Outcome::Received(vec![])));
    assert_eq!(calls[12], RelayCall::Forward(vec![]));
}

#[test]
fn failed_reply_and_forward_do_not_stop() {
    let mut outcomes = successful_cycle(Outcome::Received(vec![9]));
    outcomes[4] = Outcome::Failed("broken pipe".to_string());
    outcomes[12] = Outcome::Failed("broken pipe".to_string());
    let mut state = RelayState::new();
    let (_, went_on) = run(&mut state, outcomes);
    assert!(went_on);
    assert_eq!(state.phase, RelayPhase::Accept);
}

#[test]
fn failed_accept_stops() {
    let mut state = RelayState::new();
    assert!(!relay_step(&mut state, Outcome::Failed("would-block".to_string())));
    assert_eq!(state.phase, RelayPhase::Accept);
}

#[test]
fn failed_connect_stops_before_forwarding() {
    let mut outcomes = successful_cycle(Outcome::Received(vec![5]));
    outcomes[11] = Outcome::Failed("connection-refused".to_string());
    let mut state = RelayState::new();
    let (calls, went_on) = run(&mut state, outcomes);
    assert!(!went_on);
    assert_eq!(calls.len(), 12);
    assert_eq!(state.phase, RelayPhase::FinishConnect);
    assert_eq!(state.buffer, vec![5]);
}

#[test]
fn second_connection_does_not_see_first_data() {
    let mut state = RelayState::new();
    run(&mut state, successful_cycle(Outcome::Received(b"first".to_vec())));
    let (calls, _) = run(&mut state, successful_cycle(Outcome::Received(b"second".to_vec())));
    assert_eq!(calls[12], RelayCall::Forward(b"second".to_vec()));
}
