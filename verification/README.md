# OpenShell

The decisions behind the OpenShell gateway, its sandbox supervisor and its terminal interface,
written in Verus and proved against their contracts.

- `src/` is the library. Everything in it is verified, but for a few calls into other crates
  whose contracts are stated beside them.
  - `gateway/` holds the request handlers. A handler is a value that says which outside work
    comes next, is handed what came of it, and goes on from there until it holds its answer.
    The files named `*_laws.rs` state what holds across requests.
  - `ownership.rs` decides who may work with a sandbox.
  - `exec_command.rs` writes the command line that a sandbox runs.
  - `seccomp/` holds the network filter, the pinned allowlist and the kernel's socket addresses.
  - `driver.rs` decides how often a driver is tried.
  - `tui/` decides what the terminal shows.
- `tests/` runs the library on concrete values.
- `app/` is ordinary Rust around the library: it does the work that the handlers ask for, makes
  the system calls and paints the terminal.
