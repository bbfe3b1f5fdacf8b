# tcp_echo

A line-oriented TCP echo server and a load-test client, built around a
verified core.

- `src/` is the library, verified with Verus:
  - `addr` builds the `ip:port` text that both programs parse into a socket address;
  - `server::connection_service` chooses the worker for each accepted
    connection (`LoadBalancer`, `choose_worker`) and keeps the load reported by
    each worker;
  - `server::echo_service` keeps the set of peers a worker serves
    (`PeerTable`, on `ahash::AHashMap`) and answers each received line
    (`respond`);
  - `client::client_service` is one client's session as a state machine
    (`ClientSession::step`), with proofs about complete and failed sessions;
  - `client::reporting_service` tallies confirmed echoes (`ReportTally`);
  - `client` judges a finished run.
- `app/` holds the programs: tokio tasks, sockets, framing with
  `tokio_util::codec::LinesCodec`, the command line (clap) and logging.
- `tests/` exercises the library on concrete values.
