use vstd::prelude::*;

use crate::address::{get_socket_address, IpSocketAddress, Ipv4SocketAddress};
use crate::socket::{bind_address_to_socket_tcp_ipv4, spec_bind_plan, SocketOp};

verus! {

/// How many bytes the relay reads from an accepted connection.
pub const READ_LIMIT: u64 = 1024;

/// The reply sent to every client: `"Message received!"`.
pub open spec fn response_bytes() -> Seq<u8> {
    seq![77u8, 101, 115, 115, 97, 103, 101, 32, 114, 101, 99, 101, 105, 118, 101, 100, 33]
}

/// The reply sent to every client once its message was read.
pub fn response() -> (bytes: Vec<u8>)
    ensures
        bytes@ == response_bytes(),
{
    let bytes = vec![77u8, 101, 115, 115, 97, 103, 101, 32, 114, 101, 99, 101, 105, 118, 101, 100, 33];
    assert(bytes@ =~= response_bytes());
    bytes
}

/// Where the relay forwards what it receives: the local address that the
/// outgoing socket is bound to, and the destination it connects to.
#[derive(Debug, Clone, Copy, PartialEq, Eq)]
pub struct RelayConfig {
    pub connect_address: (u8, u8, u8, u8),
    pub connect_port: u16,
    pub destination: IpSocketAddress,
}

impl RelayConfig {
    /// The configuration that binds outgoing sockets to `connect` and
    /// connects them to `destination`, each an address and a port.
    pub fn new(connect: ((u8, u8, u8, u8), u16), destination: ((u8, u8, u8, u8), u16)) -> (config:
        Self)
        ensures
            config.connect_address == connect.0,
            config.connect_port == connect.1,
            config.destination == IpSocketAddress::Ipv4(
                Ipv4SocketAddress { address: destination.0, port: destination.1 },
            ),
    {
        RelayConfig {
            connect_address: connect.0,
            connect_port: connect.1,
            destination: get_socket_address(destination.0, destination.1),
        }
    }
}

/// The step of one relayed connection that comes next.
#[derive(Debug, Clone, Copy, PartialEq, Eq, Structural)]
pub enum RelayPhase {
    Accept,
    LocalAddress,
    RemoteAddress,
    Read,
    Respond,
    FlushResponse,
    ShutdownInbound,
    CreateOutbound,
    StartBind,
    FinishBind,
    StartConnect,
    FinishConnect,
    Forward,
    ShutdownOutbound,
}

/// The phase after `phase`; after the outgoing connection is shut down the
/// relay accepts the next connection.
pub open spec fn successor(phase: RelayPhase) -> RelayPhase {
    match phase {
        RelayPhase::Accept => RelayPhase::LocalAddress,
        RelayPhase::LocalAddress => RelayPhase::RemoteAddress,
        RelayPhase::RemoteAddress => RelayPhase::Read,
        RelayPhase::Read => RelayPhase::Respond,
        RelayPhase::Respond => RelayPhase::FlushResponse,
        RelayPhase::FlushResponse => RelayPhase::ShutdownInbound,
        RelayPhase::ShutdownInbound => RelayPhase::CreateOutbound,
        RelayPhase::CreateOutbound => RelayPhase::StartBind,
        RelayPhase::StartBind => RelayPhase::FinishBind,
        RelayPhase::FinishBind => RelayPhase::StartConnect,
        RelayPhase::StartConnect => RelayPhase::FinishConnect,
        RelayPhase::FinishConnect => RelayPhase::Forward,
        RelayPhase::Forward => RelayPhase::ShutdownOutbound,
        RelayPhase::ShutdownOutbound => RelayPhase::Accept,
    }
}

/// Whether a failure in `phase` stops the relay. Only a failed read, a
/// failed reply and a failed forward are reported and passed over.
pub open spec fn is_fatal(phase: RelayPhase) -> bool {
    !(phase == RelayPhase::Read || phase == RelayPhase::Respond || phase == RelayPhase::Forward)
}

/// The state of the relay: the next phase, and the bytes received on the
/// current connection.
pub struct RelayState {
    pub phase: RelayPhase,
    pub buffer: Vec<u8>,
}

impl RelayState {
    /// The relay before its first connection.
    pub fn new() -> (state: Self)
        ensures
            state.phase == RelayPhase::Accept,
            state.buffer@ == Seq::<u8>::empty(),
    {
        RelayState { phase: RelayPhase::Accept, buffer: Vec::new() }
    }
}

/// What came of the call that the relay made last.
pub enum Outcome {
    /// The call succeeded.
    Done,
    /// A read succeeded with these bytes.
    Received(Vec<u8>),
    /// The call failed; the text describes the error.
    Failed(String),
}

/// The call to make on the sockets.
#[derive(Debug, PartialEq, Eq)]
pub enum RelayCall {
    /// Wait for a connection and accept it.
    Accept,
    /// Query the local address of the accepted connection.
    LocalAddress,
    /// Query the remote address of the accepted connection.
    RemoteAddress,
    /// Read once from the accepted connection, at most `max_len` bytes.
    Read { max_len: u64 },
    /// Write these bytes to the accepted connection and flush.
    Respond(Vec<u8>),
    /// Flush the output of the accepted connection.
    FlushResponse,
    /// Shut the accepted connection down in both directions.
    ShutdownInbound,
    /// A call on the outgoing socket.
    Socket(SocketOp),
    /// Wait for the outgoing connection and finish it.
    FinishConnect,
    /// Write these bytes to the outgoing connection and flush.
    Forward(Vec<u8>),
    /// Shut the outgoing connection down in both directions.
    ShutdownOutbound,
}

/// The bytes a read outcome adds to the buffer.
pub open spec fn read_bytes(outcome: Outcome) -> Seq<u8> {
    match outcome {
        Outcome::Received(bytes) => bytes@,
        _ => Seq::empty(),
    }
}

/// The relay after `outcome` of the call in `phase` with `buffer`, or `None`
/// when the relay stops.
pub open spec fn spec_relay_step(phase: RelayPhase, buffer: Seq<u8>, outcome: Outcome) -> Option<
    (RelayPhase, Seq<u8>),
> {
    if outcome is Failed && is_fatal(phase) {
        None
    } else if phase == RelayPhase::Read {
        Some((successor(phase), buffer + read_bytes(outcome)))
    } else if phase == RelayPhase::ShutdownOutbound {
        Some((successor(phase), Seq::empty()))
    } else {
        Some((successor(phase), buffer))
    }
}

/// The relay after the outcomes `outcomes[i..]`, starting in `phase` with
/// `buffer`, or `None` when one of them stops it.
pub open spec fn relay_run(phase: RelayPhase, buffer: Seq<u8>, outcomes: Seq<Outcome>, i: int) -> Option<
    (RelayPhase, Seq<u8>),
>
    decreases outcomes.len() - i,
{
    if i < 0 || i >= outcomes.len() {
        Some((phase, buffer))
    } else {
        match spec_relay_step(phase, buffer, outcomes[i]) {
            None => None,
            Some((p, b)) => relay_run(p, b, outcomes, i + 1),
        }
    }
}

/// The call that the relay makes in `state`.
pub fn next_call(config: &RelayConfig, state: &RelayState) -> (call: RelayCall)
    ensures
        match state.phase {
            RelayPhase::Accept => call == RelayCall::Accept,
            RelayPhase::LocalAddress => call == RelayCall::LocalAddress,
            RelayPhase::RemoteAddress => call == RelayCall::RemoteAddress,
            RelayPhase::Read => call == RelayCall::Read { max_len: READ_LIMIT },
            RelayPhase::Respond => call matches RelayCall::Respond(bytes) && bytes@
                == response_bytes(),
            RelayPhase::FlushResponse => call == RelayCall::FlushResponse,
            RelayPhase::ShutdownInbound => call == RelayCall::ShutdownInbound,
            RelayPhase::CreateOutbound => call == RelayCall::Socket(
                spec_bind_plan(config.connect_address, config.connect_port)[0],
            ),
            RelayPhase::StartBind => call == RelayCall::Socket(
                spec_bind_plan(config.connect_address, config.connect_port)[1],
            ),
            RelayPhase::FinishBind => call == RelayCall::Socket(
                spec_bind_plan(config.connect_address, config.connect_port)[2],
            ),
            RelayPhase::StartConnect => call == RelayCall::Socket(
                SocketOp::StartConnect(config.destination),
            ),
            RelayPhase::FinishConnect => call == RelayCall::FinishConnect,
            RelayPhase::Forward => call matches RelayCall::Forward(bytes) && bytes@
                == state.buffer@,
            RelayPhase::ShutdownOutbound => call == RelayCall::ShutdownOutbound,
        },
{
    match state.phase {
        RelayPhase::Accept => RelayCall::Accept,
        RelayPhase::LocalAddress => RelayCall::LocalAddress,
        RelayPhase::RemoteAddress => RelayCall::RemoteAddress,
        RelayPhase::Read => RelayCall::Read { max_len: READ_LIMIT },
        RelayPhase::Respond => RelayCall::Respond(response()),
        RelayPhase::FlushResponse => RelayCall::FlushResponse,
        RelayPhase::ShutdownInbound => RelayCall::ShutdownInbound,
        RelayPhase::CreateOutbound => {
            let plan = bind_address_to_socket_tcp_ipv4(config.connect_address, config.connect_port);
            RelayCall::Socket(plan[0])
        },
        RelayPhase::StartBind => {
            let plan = bind_address_to_socket_tcp_ipv4(config.connect_address, config.connect_port);
            RelayCall::Socket(plan[1])
        },
        RelayPhase::FinishBind => {
            let plan = bind_address_to_socket_tcp_ipv4(config.connect_address, config.connect_port);
            RelayCall::Socket(plan[2])
        },
        RelayPhase::StartConnect => RelayCall::Socket(SocketOp::StartConnect(config.destination)),
        RelayPhase::FinishConnect => RelayCall::FinishConnect,
        RelayPhase::Forward => RelayCall::Forward(state.buffer.clone()),
        RelayPhase::ShutdownOutbound => RelayCall::ShutdownOutbound,
    }
}

fn advance(phase: RelayPhase) -> (next: RelayPhase)
    ensures
        next == successor(phase),
{
    match phase {
        RelayPhase::Accept => RelayPhase::LocalAddress,
        RelayPhase::LocalAddress => RelayPhase::RemoteAddress,
        RelayPhase::RemoteAddress => RelayPhase::Read,
        RelayPhase::Read => RelayPhase::Respond,
        RelayPhase::Respond => RelayPhase::FlushResponse,
        RelayPhase::FlushResponse => RelayPhase::ShutdownInbound,
        RelayPhase::ShutdownInbound => RelayPhase::CreateOutbound,
        RelayPhase::CreateOutbound => RelayPhase::StartBind,
        RelayPhase::StartBind => RelayPhase::FinishBind,
        RelayPhase::FinishBind => RelayPhase::StartConnect,
        RelayPhase::StartConnect => RelayPhase::FinishConnect,
        RelayPhase::FinishConnect => RelayPhase::Forward,
        RelayPhase::Forward => RelayPhase::ShutdownOutbound,
        RelayPhase::ShutdownOutbound => RelayPhase::Accept,
    }
}

/// Moves the relay on after the outcome of its last call. Returns `false`
/// when the relay stops: a fatal step failed. Then `state` is left as it was.
pub fn relay_step(state: &mut RelayState, outcome: Outcome) -> (go_on: bool)
    ensures
        match spec_relay_step(old(state).phase, old(state).buffer@, outcome) {
            None => !go_on && final(state).phase == old(state).phase && final(state).buffer@ == old(
                state,
            ).buffer@,
            Some((p, b)) => go_on && final(state).phase == p && final(state).buffer@ == b,
        },
{
    let phase = state.phase;
    let fatal = match phase {
        RelayPhase::Read | RelayPhase::Respond | RelayPhase::Forward => false,
        _ => true,
    };
    match outcome {
        Outcome::Failed(_) => {
            if fatal {
                return false;
            }
        },
        Outcome::Received(bytes) => {
            if phase == RelayPhase::Read {
                let mut bytes = bytes;
                state.buffer.append(&mut bytes);
            }
        },
        Outcome::Done => {},
    }
    if phase == RelayPhase::ShutdownOutbound {
        state.buffer = Vec::new();
    }
    state.phase = advance(phase);
    true
}

/// On every connection the relay forwards exactly the bytes it read: run
/// from the start through the twelve steps before the forward without
/// stopping, it is about to forward the bytes of its read and nothing else,
/// whatever the other steps gave.
pub proof fn lemma_relay_forwards_what_it_read(outcomes: Seq<Outcome>)
    requires
        outcomes.len() == 12,
        relay_run(RelayPhase::Accept, Seq::empty(), outcomes, 0) is Some,
    ensures
        relay_run(RelayPhase::Accept, Seq::empty(), outcomes, 0) == Some(
            (RelayPhase::Forward, read_bytes(outcomes[3])),
        ),
{
    reveal_with_fuel(relay_run, 13);
    assert(Seq::<u8>::empty() + read_bytes(outcomes[3]) =~= read_bytes(outcomes[3]));
}

/// Connections do not share data: a full cycle of fourteen steps that does
/// not stop brings the relay back to accepting, with an empty buffer.
pub proof fn lemma_relay_cycle_starts_afresh(outcomes: Seq<Outcome>)
    requires
        outcomes.len() == 14,
        relay_run(RelayPhase::Accept, Seq::empty(), outcomes, 0) is Some,
    ensures
        relay_run(RelayPhase::Accept, Seq::empty(), outcomes, 0) == Some(
            (RelayPhase::Accept, Seq::<u8>::empty()),
        ),
{
    reveal_with_fuel(relay_run, 15);
}

/// The phase the relay is in after `n` steps from accepting.
pub open spec fn nth_phase(n: nat) -> RelayPhase
    decreases n,
{
    if n == 0 {
        RelayPhase::Accept
    } else {
        successor(nth_phase((n - 1) as nat))
    }
}

/// Only a fatal step stops the relay: if every failure among the outcomes
/// falls on a read, a reply or a forward, the relay never stops.
pub proof fn lemma_relay_stops_only_on_fatal_failure(
    buffer: Seq<u8>,
    outcomes: Seq<Outcome>,
    i: int,
)
    requires
        0 <= i <= outcomes.len(),
        forall|k: int|
            i <= k < outcomes.len() && (#[trigger] outcomes[k] is Failed) ==> !is_fatal(
                nth_phase(k as nat),
            ),
    ensures
        relay_run(nth_phase(i as nat), buffer, outcomes, i) is Some,
    decreases outcomes.len() - i,
{
    if i < outcomes.len() {
        let next = spec_relay_step(nth_phase(i as nat), buffer, outcomes[i]);
        assert(next is Some);
        let (p, b) = next.unwrap();
        assert(p == nth_phase((i + 1) as nat));
        lemma_relay_stops_only_on_fatal_failure(b, outcomes, i + 1);
    }
}

/// A failure stops the relay in every phase but the read, the reply and the
/// forward: accepting, querying the addresses, flushing and shutting down
/// the accepted connection, creating, binding and connecting the outgoing
/// socket, and shutting it down. A failed read, reply or forward moves on
/// with the buffer as it was.
pub proof fn lemma_relay_failure_per_phase(buffer: Seq<u8>, error: String)
    ensures
        spec_relay_step(RelayPhase::Accept, buffer, Outcome::Failed(error)) is None,
        spec_relay_step(RelayPhase::LocalAddress, buffer, Outcome::Failed(error)) is None,
        spec_relay_step(RelayPhase::RemoteAddress, buffer, Outcome::Failed(error)) is None,
        spec_relay_step(RelayPhase::FlushResponse, buffer, Outcome::Failed(error)) is None,
        spec_relay_step(RelayPhase::ShutdownInbound, buffer, Outcome::Failed(error)) is None,
        spec_relay_step(RelayPhase::CreateOutbound, buffer, Outcome::Failed(error)) is None,
        spec_relay_step(RelayPhase::StartBind, buffer, Outcome::Failed(error)) is None,
        spec_relay_step(RelayPhase::FinishBind, buffer, Outcome::Failed(error)) is None,
        spec_relay_step(RelayPhase::StartConnect, buffer, Outcome::Failed(error)) is None,
        spec_relay_step(RelayPhase::FinishConnect, buffer, Outcome::Failed(error)) is None,
        spec_relay_step(RelayPhase::ShutdownOutbound, buffer, Outcome::Failed(error)) is None,
        spec_relay_step(RelayPhase::Read, buffer, Outcome::Failed(error)) == Some((RelayPhase::Respond, buffer)),
        spec_relay_step(RelayPhase::Respond, buffer, Outcome::Failed(error)) == Some((RelayPhase::FlushResponse, buffer)),
        spec_relay_step(RelayPhase::Forward, buffer, Outcome::Failed(error)) == Some((RelayPhase::ShutdownOutbound, buffer)),
{
}

/// The phases of a connection in order, each moving on to the next when
/// its call succeeds: accept, local address, remote address, read, reply,
/// flush, shut down the accepted connection, create, start and finish
/// binding the outgoing socket, start and finish connecting, forward, shut
/// the outgoing connection down, then accept again with an empty buffer.
/// Only a read changes the buffer: it appends the bytes read.
pub proof fn lemma_relay_phase_order(buffer: Seq<u8>, bytes: Vec<u8>)
    ensures
        spec_relay_step(RelayPhase::Accept, buffer, Outcome::Done) == Some((RelayPhase::LocalAddress, buffer)),
        spec_relay_step(RelayPhase::LocalAddress, buffer, Outcome::Done) == Some((RelayPhase::RemoteAddress, buffer)),
        spec_relay_step(RelayPhase::RemoteAddress, buffer, Outcome::Done) == Some((RelayPhase::Read, buffer)),
        spec_relay_step(RelayPhase::Read, buffer, Outcome::Done) == Some((RelayPhase::Respond, buffer)),
        spec_relay_step(RelayPhase::Respond, buffer, Outcome::Done) == Some((RelayPhase::FlushResponse, buffer)),
        spec_relay_step(RelayPhase::FlushResponse, buffer, Outcome::Done) == Some((RelayPhase::ShutdownInbound, buffer)),
        spec_relay_step(RelayPhase::ShutdownInbound, buffer, Outcome::Done) == Some((RelayPhase::CreateOutbound, buffer)),
        spec_relay_step(RelayPhase::CreateOutbound, buffer, Outcome::Done) == Some((RelayPhase::StartBind, buffer)),
        spec_relay_step(RelayPhase::StartBind, buffer, Outcome::Done) == Some((RelayPhase::FinishBind, buffer)),
        spec_relay_step(RelayPhase::FinishBind, buffer, Outcome::Done) == Some((RelayPhase::StartConnect, buffer)),
        spec_relay_step(RelayPhase::StartConnect, buffer, Outcome::Done) == Some((RelayPhase::FinishConnect, buffer)),
        spec_relay_step(RelayPhase::FinishConnect, buffer, Outcome::Done) == Some((RelayPhase::Forward, buffer)),
        spec_relay_step(RelayPhase::Forward, buffer, Outcome::Done) == Some((RelayPhase::ShutdownOutbound, buffer)),
        spec_relay_step(RelayPhase::ShutdownOutbound, buffer, Outcome::Done) == Some((RelayPhase::Accept, Seq::<u8>::empty())),
        spec_relay_step(RelayPhase::Read, buffer, Outcome::Received(bytes)) == Some(
            (RelayPhase::Respond, buffer + bytes@),
        ),
{
}

/// The reply is the text `Message received!`, one byte per character.
pub proof fn lemma_response_is_message_received()
    ensures
        response_bytes().len() == "Message received!"@.len(),
        forall|i: int|
            0 <= i < response_bytes().len() ==> response_bytes()[i] as char
                == "Message received!"@[i],
{
    reveal_strlit("Message received!");
}

} // verus!
