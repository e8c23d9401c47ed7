# suppaftp

The control-connection logic of an FTP client, written and proved in Verus.

- `src/` is the verified library. It does no input or output: whoever owns the socket hands in
  what the connection delivered (`Event`) and is told how many bytes were used and what came of
  them.
  - `reply` states the grammar of replies and how each event moves the read of one on;
    `control` holds the state of the control connection and the operations on it.
  - `types`, `status`, `peer`, `text` and `number` hold the values, the reply codes, the check of
    active-mode peers, and the texts.
  - `laws` proves what holds of reading replies as a whole: how the connection cuts a reply makes
    no difference, no byte is lost, no reply outgrows its limit, a cancelled read goes on.
- `tests/` runs the library on concrete replies.
- `app/` is the tokio side: sockets, locks, logging, and the error types with their `Display` and
  `std::error::Error` impls.
