# yapi

A command-line HTTP client: requests, collections, environments and their
variables live in a local SQLite database, and a request's URL, body, header
values and query values may hold `{{ name }}` placeholders that are filled
from the collection's and the environment's variables when it runs.

The crate is written in Verus.

- `src/` is the verified library:
  - `vars` — the placeholder grammar (the class `\w` of the `regex` crate,
    Unicode white space), `fill`, variable maps, request resolution and the
    JSON of resolved headers, with the laws of filling;
  - `http` — turning a resolved request into a `reqwest` request;
  - `conf` — configuration types, where the configuration and database
    files live, and reading and writing settings by key;
  - `commands` — the decisions of the command handlers (which workspace,
    collection and environment a command means, argument splitting,
    the checks and defaults of the create commands, updates);
  - `dtypes`, `db`, `cli`, `text` — data types, the not-found error, the
    command line's arguments as plain data, and string helpers.
- `app/` is the program around it: clap parsing, the SQLite database,
  reading and writing the TOML configuration, sending requests with tokio,
  prompts and printing.
- `tests/` runs the library on concrete values.
