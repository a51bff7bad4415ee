# turbogithub

A GitHub access accelerator for Windows: a daemon scans the addresses of GitHub's
domains, answers DNS queries for accelerated names with the fastest address that
answers HTTPS, runs a local HTTP proxy with a PAC script, counts traffic, and serves
a JSON-RPC control protocol to a desktop front end.

The decisions are a library verified with Verus; the daemon around it does the I/O.

## Layout

- `src/` — the verified library, one module per concern:
  - `text` — suffix/substring tests, trimming, words and lines, decimal numbers
  - `domains` — which names are GitHub, Archive of Our Own or Pixiv names
  - `scanner` — the pool of scanned addresses, the stable ordering by round-trip
    time, and the choice of the address handed out
  - `dns_server` — what to do with a DNS query and the answer built for it
    (wire format through trust-dns), and the GitHub addresses learnt from
    upstream answers
  - `http_proxy` — request-line parsing, target choice and connection fallback
  - `pac` — the PAC script and its URL
  - `config` — the configuration and its partial updates
  - `history`, `clock` — bounded histories, sums, and the wall clock
  - `traffic_stats`, `github_traffic_monitor`, `process_filter`,
    `process_traffic_filter`, `simple_network_monitor` — traffic accounting
  - `ipc` — control-protocol methods, service start/stop, status and log replies
  - `client`, `gui` — the front end's connection retries, reply matching, charted
    samples, log, window, tray and launch decisions
  - `system_proxy` — the system commands for DNS and PAC settings and the order
    alternatives are tried in
- `app/` — the daemon: sockets, WebSocket server, scanning, system counters,
  configuration file, commands.
- `tests/` — tests of the library on concrete values.

## Checking

Run Verus on `src/lib.rs` with the crates of `Cargo.toml`; the tests are ordinary
Rust integration tests.
