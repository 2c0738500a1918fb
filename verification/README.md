# Yarisugi

A native Linux proxy toolchain: it reads subscriptions, keeps a catalog of nodes,
tries them, runs the tunnel through one of them and watches it.

The library under `src/` holds what is decided and computed, with contracts that
Verus proves:

- `ir`: canonical nodes, their functional identity and its hash, the bytes in which
  they are persisted
- `parser`: links, Clash documents and bundles as reports of nodes and failures
- `storage`: the catalog in columns, queries, measurements, replacement
- `adapter`: configurations of the core, trials through it, replacing its
  configuration
- `probe`: probes of sockets, and what the kernel tells of connections
- `netd`: the routing daemon, its rules and its messages
- `controller`: ranking, the watchdog, switches and the daemon's client
- `gui`: the list of nodes, the stream of results, the texts shown

`text`, `ip`, `time`, `json` and `sort` are what these build on. Properties that
span several functions are public proof functions whose names begin with `law_`.

The program under `app/` does the input and output: sockets, processes, the
database and the command line.

```
yarisugi probe <subscription> [--concurrency N] [--timeout-ms T]
yarisugi health <address:port>
yarisugi netd
yarisugi gui [--demo-nodes N] [--data-dir PATH] [--sing-box PATH] [--no-egress-watchdog]
```
