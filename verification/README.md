# tokenunion

The verified core of TokenUnion, a desktop app that lets a small circle of peers share idle
API credits: a local proxy serves a request with the local key when it can, and otherwise asks
the circle for a grant and relays the request to the peer that grants it.

`src/` is the library, verified with Verus:

- `proxy` routing, request identity, content filter, header handling, stream usage, replies
- `lending` what a lender admits, the upstream call it makes with its own key, and what it records
- `grants` the grant protocol's bookkeeping (who waits, what is pending, who wins)
- `inbound`, `messages`, `wire` the control messages, their signatures and answers
- `security` replay window, rate limiting, Lamport clock, ledger merge
- `ledger`, `identity`, `node` sealed and signed ledger entries, node identity, invites
- `vault` sealing secrets with a password and device salt
- `sharing`, `settings`, `tracker`, `records` lending limits, schedule, settings, usage

`app/` is the desktop shell around it: Tauri commands, the SQLite store, the axum proxy
server and the libp2p swarm.
