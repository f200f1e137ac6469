# egl_screencast

Screen casting for the picom compositor through PipeWire. Two programs share one
library:

- the portal backend, a D-Bus service that answers screen cast requests
  (`app/main.rs`);
- the compositor plugin, a shared library that picom loads (`app/plugin/lib.rs`).

The library in `src/` holds what the two decide and compute, verified with Verus. It
does no input or output: where a decision depends on the outside, it takes an event
and returns the action to carry out.

| module | what it holds |
| --- | --- |
| `protocol`, `frame` | messages between backend and plugin, and their framing |
| `connect` | how the backend finds the plugin |
| `portal`, `error` | sessions, starts and answers of the portal |
| `init` | how the plugin comes up |
| `server` | how the plugin's server comes up and serves a client |
| `format`, `param` | pixel formats, modifiers and their negotiation with PipeWire |
| `stream`, `message` | the PipeWire thread and its messages |
| `capture`, `gl`, `import` | buffers that frames are copied into, and the commands that copy them |
| `cursor` | the cursor monitor |
| `ffi`, `text` | small helpers |

The plugin is a crate root of its own. Building it needs PipeWire, libgbm and EGL, and
three files in the build's output directory: `gl_bindings.rs` and `egl_bindings.rs`
from `gl_generator`, and `bindings.rs` from `bindgen` over picom's plugin header.

The library calls `smallvec`, `slotmap`, `drm-fourcc` and `random-string` through small
functions whose contracts are trusted; each says what it claims of the call.
