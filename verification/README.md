# quickbar

A small shell for wlroots-family compositors: a configurable border around the
screen, a script-driven status bar that slides out of the top edge, and
notifications that grow out of the bottom edge.

## Layout

- `src/` is the library, written in Verus. Its functions carry contracts that are
  proved, but for the few that call an outside crate (see below). What holds across
  functions stands there as public proof functions, named after what they state.
- `app/` is the program: fonts and pixels, the config file, module processes, and
  the Wayland connection. It does what the library decides.
- `tests/` runs the library on concrete values.

| module           | what it decides                                             |
|------------------|-------------------------------------------------------------|
| `app`            | the bar's slide, events, what has to be repainted            |
| `bar`            | where the modules of the status bar go, what the bar shows   |
| `notify`         | where notification cards go, and which one a click hits      |
| `notify::stack`  | the queue: ids, replacement, expiry, eviction                |
| `edge`           | anchors, sizes and input areas of the four edges             |
| `shell`          | surfaces, outputs, the pointer, when to wake up              |
| `script`         | what a module's output reports and what its worker does next |
| `config`         | colours, defaults, validation, warnings, where the file is   |
| `names`          | sets of names, kept in order                                 |
| `ipc`            | the words of the command line                                |
| `render`         | measuring, shortening and drawing text, outlines of shapes   |
| `pixmap`         | blending glyph pixels                                        |
| `preview`        | sample scenes                                                |

## Lengths and time

Lengths are whole numbers, `PIXEL` of them to a pixel, fine enough for every
single-precision coordinate that matters on a screen. Time is passed in, in
nanoseconds, rather than read. How far out the bar is goes from 0 to `FULL`.

## What is taken on trust

`pixmap` blends into a `tiny_skia::Pixmap`, and `script` reads lines with
`serde_json`. The contracts of the six functions that make these calls are believed,
not proved; what they claim is written above them. The shaping of text is handed to `Renderer` as a function,
which has to give the same answer for the same text.
