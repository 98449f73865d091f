use vstd::prelude::*;

use crate::address::{get_socket_address, IpSocketAddress, Ipv4SocketAddress};

verus! {

/// The line to report after a checked socket step, and whether the program
/// stops there.
pub struct StepReport {
    pub line: String,
    pub exit: bool,
}

/// Decides what to report on the outcome of a socket step labelled `msg`:
/// `"<msg> OK"` on success; on failure `"<msg> <error>"`, and the program
/// stops.
pub fn handle_error<T>(result: Result<T, String>, msg: &str) -> (report: StepReport)
    ensures
        match result {
            Ok(_) => report.line@ == msg@ + seq![' ', 'O', 'K'] && !report.exit,
            Err(e) => report.line@ == msg@ + seq![' '] + e@ && report.exit,
        },
{
    let mut line = String::from_str(msg);
    match result {
        Ok(_) => {
            line.append(" OK");
            proof {
                reveal_strlit(" OK");
            }
            StepReport { line, exit: false }
        },
        Err(e) => {
            line.append(" ");
            line.append(e.as_str());
            proof {
                reveal_strlit(" ");
            }
            StepReport { line, exit: true }
        },
    }
}

/// One call on a TCP socket of the WASI socket interface.
#[derive(Debug, Clone, Copy, PartialEq, Eq)]
pub enum SocketOp {
    /// Create an IPv4 TCP socket and subscribe to its readiness.
    CreateTcpSocket,
    StartBind(IpSocketAddress),
    FinishBind,
    StartListen,
    FinishListen,
    StartConnect(IpSocketAddress),
}

/// The calls that bind a fresh IPv4 TCP socket to `address` and `port`.
pub open spec fn spec_bind_plan(address: (u8, u8, u8, u8), port: u16) -> Seq<SocketOp> {
    seq![
        SocketOp::CreateTcpSocket,
        SocketOp::StartBind(IpSocketAddress::Ipv4(Ipv4SocketAddress { address, port })),
        SocketOp::FinishBind,
    ]
}

/// The calls, in order, that create an IPv4 TCP socket and bind it to
/// `address` and `port`. A failure of any of them stops the program.
pub fn bind_address_to_socket_tcp_ipv4(address: (u8, u8, u8, u8), port: u16) -> (plan: Vec<
    SocketOp,
>)
    ensures
        plan@ == spec_bind_plan(address, port),
        plan@.len() == 3,
        plan@[0] == SocketOp::CreateTcpSocket,
        plan@[1] == SocketOp::StartBind(IpSocketAddress::Ipv4(Ipv4SocketAddress { address, port })),
        plan@[2] == SocketOp::FinishBind,
{
    let socket_address = get_socket_address(address, port);
    let mut plan = Vec::new();
    plan.push(SocketOp::CreateTcpSocket);
    plan.push(SocketOp::StartBind(socket_address));
    plan.push(SocketOp::FinishBind);
    plan
}

/// A bind plan creates one socket, binds it to exactly the given address
/// and port, whatever they are, and finishes the bind; two plans bind the
/// same address only when they were asked for the same one.
pub proof fn lemma_bind_plan_binds_given_address(
    address: (u8, u8, u8, u8),
    port: u16,
    other_address: (u8, u8, u8, u8),
    other_port: u16,
)
    ensures
        spec_bind_plan(address, port).len() == 3,
        spec_bind_plan(address, port)[0] == SocketOp::CreateTcpSocket,
        spec_bind_plan(address, port)[1] == SocketOp::StartBind(
            IpSocketAddress::Ipv4(Ipv4SocketAddress { address, port }),
        ),
        spec_bind_plan(address, port)[2] == SocketOp::FinishBind,
        spec_bind_plan(address, port) == spec_bind_plan(other_address, other_port) ==> address
            == other_address && port == other_port,
{
    if spec_bind_plan(address, port) == spec_bind_plan(other_address, other_port) {
        assert(spec_bind_plan(address, port)[1] == spec_bind_plan(other_address, other_port)[1]);
    }
}

} // verus!
