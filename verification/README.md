# WasmOS core

WasmOS runs WebAssembly programs on a virtual operating system: a shell, a
task scheduler, a Wasmtime-based runtime, and a virtual filesystem,
networking and windowing that guests reach only through policy-checked
syscalls. This crate holds the decision logic of all of it, with its
behaviour stated in contracts and proved by Verus.

## Layout

- `src/` — the verified library.
  - `vfs`, `network`, `gui`, `host`, `os_error` — the subsystems and the
    shared error model.
  - `scheduler`, `runtime` — ready and wait queues, quanta, fuel budgets,
    ABI checks and the meaning of a finished guest call.
  - `program_api` — the `wasmos::*` syscalls: argument checks, reply
    framing, status numbers and what each call does to the subsystems.
  - `shell` — what a line typed at the runtime shell asks for.
  - `guest_abi`, `guest_support` — the guest side of the ABI.
  - `classic` — the first single-program runtime (flat filesystem,
    round-robin queue, URL gate, window table, command interpreter).
  - `service` — the web desktop host (app folders, allowlists, sessions,
    task table, command line, API values).
  - `ordered`, `text` — sorted maps and character-level text operations.
- `tests/` — tests run against the compiled library.
- `app/` — the program around the library: the Wasmtime engine and the
  syscall linker, network I/O, the task loop, the interactive shells, the
  web server and JSON encodings.
