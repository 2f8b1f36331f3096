# rustify_ui

The rules behind a UI toolkit that puts DOM views and GPU-drawn regions in one
page: the order actions reach the application in, what a form may submit, how
a router undoes a refused move, where Tab goes inside a dialog, how a shortcut
is read and printed, what a drag delivers, and how the record of failures is
bounded and written. Each is a function with a contract, proved with Verus.

Layout:

- `src/` - the library. Every function in it is verified but for the few
  in `src/strings.rs` and `src/unicode.rs` marked `external_body`, each a
  single call into std whose contract is trusted (appending a character,
  decoding UTF-8, Unicode's white space, letters and case mappings). The laws
  that span several functions are public proof functions named `law_*`.
- `tests/` - ordinary tests that run the compiled library on concrete values.
- `app/` - what the library leaves to its host: shared handles that outlive
  one call (an action sink, a field's requests), the runtime's own record of
  failures, and everything measured in floating point (times, sizes,
  positions, theme metrics).

The browser itself (DOM nodes, events, timers, the clipboard, the GPU) is not
here: what a component decides about an event is a function in `src/`, and
the event is the host's to deliver.
