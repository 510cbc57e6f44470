# thinflux

A verified library for optimising image and PDF assets, and a small command-line
program around it.

- `src/` — the library, verified with Verus:
  - `text`, `path`: decimal rendering, substring search, file names and extensions
    read the way `std::path::Path` reads them on Unix;
  - `format`, `router`: formats by extension, the engine a file goes to, and the
    filter of a directory scan;
  - `jpeg`, `engines`: quality scales, the PNG and JPEG engines;
  - `pdf_model`, `pdf_image`, `pdf`: lopdf's documents as the logic reads them, the
    re-encoding of embedded images, and the PDF engine;
  - `laws`: properties that hold across these functions.
- `app/` — the `thinflux` program: argument parsing, the directory walk, file
  reading and writing, the WebP encoder (which takes a float quality), progress bar.
- `tests/` — tests run against the compiled library.
