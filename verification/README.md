# sqlite_tools

Verified core of a handful of small data tools that end in SQLite:

- **udp2sqlite** (`src/udp2sqlite_sync.rs`, `src/udp2sqlite_async.rs`,
  `src/wire.rs`): the binary datagram format — a message-id byte, then a
  little-endian id and the 64 bits of a double — with proofs that what a
  client writes a server reads back, and exact errors for short or unknown
  datagrams.
- **pg2sqlite** (`src/pg2sqlite.rs`): turning query rows into columns, and a
  table (also one without rows) into `CREATE TABLE` and `INSERT` statements, with SQL string quoting
  proved to read back.
- **solar_sim** (`src/solar_sim/`): reading the solar CSV file (through
  the `csv` crate) into rows, the 24 hourly timestamps of a power, solar or
  weather record (through chrono), Shift_JIS decoding of the
  weather file and skipping its preamble, batch counting, the parameter
  grid, and the status messages of the window.
- **yuna** (`src/yuna.rs`): the greeter as a state machine from events to
  the next state and an effect.

`src/text.rs`, `src/decimal.rs` and `src/calendar.rs` hold the shared text,
decimal and calendar specifications. `app/` holds the programs around the
library: database and network I/O, CSV reading, the terminal loop.
