# network_host

The host of a peer-to-peer network: it keeps connections to peers in a slab, runs the timers and
handlers of protocols, knows nodes and decides which of them to connect to.

`src/` is the library, verified with Verus. `host::Host` takes one event of the event loop after the
other and answers with the actions that have to follow; `laws` states what holds of it as a whole.
`app/` owns the sockets and the protocol handlers and performs the actions on a `mio` event loop.
