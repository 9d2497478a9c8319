# tcp-monitor

A real-time TCP connection-quality monitor for Linux. It asks the kernel for
every TCP socket through netlink `INET_DIAG`, grades each connection's
`tcp_info` metrics, and shows them in a sortable, filterable terminal table.

The logic is a Verus-verified library (`src/`):

- `health.rs` — the three-level grade and its display symbols.
- `conn.rs` — connection states, the per-connection record, one grading rule
  per metric, the overall grade, and merging a fresh measurement into the
  sample history.
- `wire.rs` — the byte layout of the dump request and of the kernel's
  replies: netlink headers, `inet_diag_msg`, attribute walking and `tcp_info`
  decoding (little-endian host).
- `addr.rs`, `text.rs` — address text (IPv4 dotted decimal, IPv6 with the
  longest zero run shortened to `::`), decimal and hexadecimal digits, and
  byte-level substring search.
- `order.rs` — sort columns, the order of each column and a stable sort.
- `state.rs` — the application state: merging snapshots, filtering, sorting,
  selection and key handling.
- `view.rs` — what the table and detail panel show and in which colour.
- `laws.rs` — properties that span several functions.

`app/` is the program around it: command-line options, the netlink socket
calls, the terminal UI, and the floating-point percentages and byte counts.
