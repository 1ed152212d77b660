# hyperhost

HyperHost maps local virtual domains (`myapp.test`, `api.local`) to
`localhost` upstreams through nginx, with HTTPS certificates from a local
certificate authority, entries in the system hosts file, and optional
Cloudflare tunnels.

## Layout

- `src/` — the library, verified with Verus. Each public function states its
  result in `ensures` over spec functions; the laws that relate several
  functions are public proof functions named `law_*`.
  - `domains`, `db`: domain records, the checks on new domains, export and import.
  - `nginx/config`, `nginx/import`, `nginx/manager`: the generated nginx
    configuration, importing a production config and exporting one, and the
    decisions around the nginx process.
  - `dns/hosts`: the managed block of the hosts file.
  - `cert`, `expiry`: the authority's certificate parameters, leaf
    certificates (signed with rcgen), the fingerprint, and certificate expiry.
  - `cloudflare`, `docker`, `detect`, `mcp`, `elevation`, `paths`, `skill`,
    `text`: tunnels, Docker Compose, port and project detection, the tool
    server, elevated writes on Windows, data paths, project instructions,
    and the string model the rest is stated in.
- `tests/` — tests run against the compiled library.
- `app/` — the `hyh` command line and the services around the library: file,
  process and network I/O, the SQLite database, and writing JSON replies.

Calls into outside crates (`chrono`, `base64`, `sha2`, `rcgen`, `serde_json`) and a few
std functions sit behind small trusted wrappers whose doc comments say what
their contracts assume.
