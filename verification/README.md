# raeen_hle

Guest system libraries of a console emulator, answered on the host: graphics
command buffers and submissions, asynchronous file reads, audio input and output,
fibers, dialogs, HTTP and a few smaller ones. The library is written in Verus:
every call has a contract that says what it returns and what it changes.

- `src/` is the verified library.
  - `context.rs`, `mem.rs`, `events.rs`, `table.rs`, `rows.rs`, `text.rs` and
    `pace.rs` hold the state of a guest process. Its mathematical view is
    `context::Machine`; guest memory is a map from addresses to bytes.
  - `agc/` is the graphics library. `packet.rs` allocates and writes packets,
    `builders.rs`, `data.rs`, `registers.rs` and `patch.rs` make them, `sizes.rs`
    measures them, `shader.rs` relocates shaders, `defaults.rs` lays register
    defaults out, `segment.rs` and `submit.rs` run submissions, `driver.rs` keeps
    the driver's objects, `trace.rs` walks the caller's stack, and `laws.rs` and
    `runs.rs` relate them.
  - each `libsce_*.rs` is one library, and ends with the table of its exports.
    Beside the two largest, `names.rs` shows that every name is answered by the
    export of its row, and `laws.rs` what holds of calls by name.
  - `registry.rs` maps imported names to exports, and `libraries.rs` states what
    holds with every library registered.
- `app/` runs the library against a host: clock, files, sleeping, GPU and audio.
- `tests/` are ordinary tests on concrete values.

Every export is a function from the machine and the arguments to the machine and
a value, stated as a spec function of that shape, and the executable function is
proved equal to it. Where an answer needs the host (a decoded command stream, a
block of guest memory, file data, a clock reading), the call is split into steps:
a state says what is needed, and the next step takes the answer.
