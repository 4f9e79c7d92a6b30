# scanner_core

An offline document scanner: photographed or scanned raster pages are
corrected for perspective, enhanced and exported as JPEG, PNG, BMP or TIFF.

The crate is written in Verus. `src/` is the verified library; Verus proves
every executable function in it against its `requires`/`ensures` contract.
The few whose result depends only on the environment or on chance
(detecting the system language, a fresh random image identity) state
nothing of that result; the functions that take such a result as an
argument state exactly what is made of it:

- `model`, `pipeline`, `geometry`: formats, labels, display names, the
  input/preview/output dimension limits.
- `export`: safe stems, the numbered file names of export attempts and the
  collision rule that picks the next one, the checks around encoding.
- `effects`: the integer kernels of the enhancement presets (integral image
  window sums, clamped 3×3 neighbourhood totals, the block-size rule).
- `catalog`, `i18n`, `text`: the YAML message catalogs flattened into dotted
  keys, language resolution, lookups and `{name}` interpolation.
- `history`, `navigation`, `queue`, `tasks`: undo/redo with revisions, the
  selection, message log and export counters of the interface, how a page
  follows the worker's reports, and what the worker runs and reports under
  cancellation.
- `paths`, `error`, `session`, `preferences`, `backend`: path text, errors,
  the session schema rule, preferences and the backend boundary.

Calls into `serde_yaml`, `sys-locale`, `uuid` and `std::path` stand behind
small trusted items whose contracts are stated in their doc comments.

`app/` is the program around the library: the `eframe` desktop interface,
the `clap` command line, file and image I/O with `image`, the background
worker thread, serde forms of the session and preferences, and everything
computed in floating point (quadrilateral validation, the perspective warp,
the colour effects). `tests/` exercises the library from outside.
