# jean_core

The backend logic of Jean's headless server and desktop integrations, written
in Verus. Every executable function in `src/` carries a contract; Verus
proves each one, except those of the small wrappers around outside crates and
std (marked `#[verifier::external_body]`), whose contracts are trusted.

## Layout

- `src/process.rs` — the command protocol. Operations that need `git`, `gh`,
  a shell or the file system are step functions: given the outcomes of the
  commands asked so far, they ask for the next one or finish. The host runs
  each command and calls again.
- `src/git.rs`, `src/git_ops.rs`, `src/merge.rs`, `src/push.rs`,
  `src/git_status.rs`, `src/repo_setup.rs` — repositories, branches, pull
  requests, rebases and merges, branch status.
- `src/events.rs` — the WebSocket broadcaster: numbering, framing and the
  replay buffers of chat sessions and terminals.
- `src/terminal.rs` — what a terminal runs, its event payloads, and the
  decoding of its output stream.
- `src/linear.rs`, `src/linear_issues.rs`, `src/image_refs.rs`,
  `src/image_cache.rs` — Linear requests and responses, issue context files,
  references, the image references of markdown, and cached images.
- `src/provision.rs` — installing the backend on a remote server, as a
  sequence of actions answered by the host.
- `src/commandcode.rs`, `src/config.rs`, `src/server_args.rs`,
  `src/paths.rs`, `src/auth.rs`, `src/registry.rs` — CLI detection, scripts,
  the server's command line, directories, tokens, registries.
- `src/laws.rs` — properties that span several operations.
- `app/` — the host: the server binary, process and file I/O, pseudo-terminals,
  HTTP and SSH work, and JSON (de)serialization.
- `tests/` — tests of the library, run with the outside crates linked.
