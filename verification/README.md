# dls

The decision logic of a language server for DML, the device modeling language,
written in Rust and verified with Verus.

- `src/` is the library. It holds what the server knows and decides, and performs
  no input or output. What has to happen outside is handed to the caller as a list
  of effects, in order; what comes back from outside enters as an argument.
  - `lint/`: lint annotations in the source, and what becomes of lint findings.
  - `actions/`: device contexts, waits for analyses, configuration changes, compile
    information, error reports, versions of changes, notifications.
  - `server/`: methods and messages, starting up and shutting down, and the handling
    of every event.
  - `laws.rs` in each of these directories states what holds of all of it.
- `tests/` runs the library on concrete values.
- `app/` is the ordinary Rust around it: reading and writing messages and files, and
  carrying out effects.
