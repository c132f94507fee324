# bronotdsaurs

A TDS (Tabular Data Stream) client core whose logic is verified with Verus.

## Layout

- `src/` — the verified library:
  - `utils` — little-endian and big-endian field readers;
  - `token`, `env_change`, `sspi`, `session_status`, `alt_metadata`,
    `data_classification`, `fed_auth_info` — token spans and their framing;
  - `colmetadata` — COLMETADATA tokens read into their columns (types of
    unbounded length, such as `nvarchar(max)`, TEXT, IMAGE, XML and UDT, are
    not read);
  - `rows` — framing ROW and NBCROW tokens and reading their values;
  - `decode`, `stream` — what a login response and a request's token stream
    amount to, the column metadata and rows handed out in stream order, and
    the buffer of received packets;
  - `prelogin` — the PRELOGIN option table and the encryption negotiation;
  - `session` — the session states and the decisions between them;
  - `sql_batch`, `bulk_load`, `fed_auth` — encoding of requests, bulk load
    rows and packets, and the federated authentication plugin's request;
  - `text`, `vector` — UTF-16 text and the binary vector format.
- `tests/` — tests of the library.
- `app/` — the asynchronous transport, the I/O of each session step, the
  plugin process, display and builders.
