# bevy_gpui

Retained-mode GPUI overlays for ordinary Bevy applications, with the decisions of
the integration verified by Verus.

- `src/` is the verified library. It decides who owns input, where roots are shown,
  what a window asks of its host, when the embedded application is started anew, and
  how scenes are drawn. It holds plain values: entities, windows and contexts are
  numbers, single-precision values are their bits, and time is counted in
  nanoseconds. Callbacks stay opaque: a `begin_` function takes one out of its slot,
  the caller runs it, and the matching `finish_` function puts it back.
- `app/` performs those decisions on Bevy and GPUI: it reads messages, computes with
  floating-point values, runs callbacks, and records render passes.
- `tests/` runs the library on concrete values.

Public proof functions whose names begin with `law_` state what holds of the library
as a whole.
