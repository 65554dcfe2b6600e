# zond_daemon

The verified core of `zondd`, a daemon that drives Zond Engine scans over a
wire protocol: one JSON object per line, over standard input and output or a
unix socket.

`src/` is the library, written in Verus and proved against its contracts:

| module | what it holds |
|---|---|
| `addresses` | sets of IPv4 and IPv6 addresses as sorted, merged ranges |
| `address_text` | addresses written the way Rust's own `Ipv4Addr` and `Ipv6Addr` write them |
| `scope` | the policy: where scans may reach, and the refusal of a request that reaches outside it |
| `policy` | the addresses a plan reaches, the order a start request goes through (judged, then refused and written down, or named, written down and launched), and what a refusal is answered with |
| `events` | the numbered log a client follows from a cursor |
| `scans` | what is said about a scan, running or recorded, and the order records are listed in |
| `protocol` | which lines are requests, which method a request names, how far a follower has read |
| `request` | what a start request may say that the engine cannot take |
| `export` | which of the engine's writers a format goes through, and what it wrote as text |
| `convert`, `engine`, `schema` | the engine's vocabulary, the schema's, and the mapping between them |
| `id` | scan names: thirteen characters, unique, sorting in the order scans started |
| `error`, `text`, `daemon` | errors, small pieces of text, and how the daemon is reached |

`app/` is the program around it: command-line arguments, the transports, the
audit file, and every call into Zond Engine, whose results (and whose address grammar)
it hands the library.

`tests/` runs the library on concrete values.
