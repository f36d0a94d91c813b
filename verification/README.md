# wassel

Host-side logic of the Wassel WebAssembly plugin runtime, verified with Verus.

## Layout

- `src/` — the verified library.
  - `sse` — server-sent event framing of dashboard messages.
  - `stack` — a stack's configuration (variables merged into each plugin and
    substituted from the environment), the routing of request paths to
    plugins, and the stack's answer to a request.
  - `admin` — the dashboard's routes, plugin statistics sorted by name, and
    the resolution of web asset paths.
  - `redis` — conversion of Redis replies into the values handed to plugin
    components, and the lazy-value resources kept in the component's table.
  - `postgres` — decoding of column values and encoding of parameters in
    PostgreSQL's binary format.
  - `http_client` — HTTP method tokens and client errors as components see
    them.
  - `cli` — what building and installing a plugin or a stack does: the build
    command, the component's location and the install steps.
  - `router`, `substitute`, `text`, `pairs` — the URL router and variable
    substitution behind trusted wrappers, and string and pair-list helpers.
  - `report` — the report of the PostgreSQL test component.
- `tests/` — tests run against the compiled library.
- `app/` — the `wassel` command: argument parsing, manifests on disk, running
  build commands, copying files, and the dashboard's HTTP server.
