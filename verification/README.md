# socket_relay

A WASI socket relay and its helpers. The relay host accepts a TCP
connection, reads the client's message, replies `Message received!`, and
forwards the message over a fresh outgoing connection to a destination.

`src/` is the library, verified with Verus:

- `address`: reading IPv4 addresses and ports from decimal arguments, and
  the socket addresses built from them;
- `payload`: the payload kinds and queries that messages carry;
- `socket`: the report on a checked socket step, and the calls that bind a
  socket;
- `relay`: the relay's decisions, one step at a time, from the outcome of
  each socket call to the next call;
- `receive`: assembling a message from the chunks a server reads;
- `stream`: stream sources and the decisions of stream sinks.

`app/` holds the programs around it: the relay host on the WASI socket
interface, a test server and a component-sending client on tokio, the
wasmtime runtime host, the guest socket operations and the Nexmark query.

`tests/` runs the library on concrete values.
