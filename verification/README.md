# epub_io

Turns ebooks into clean, narration-ready EPUB files: it reads an EPUB
container into chapters, tags each chapter as front matter, body or back
matter, cleans chapter markup for text-to-speech, fills missing book metadata
from Open Library answers, and writes the result with epub-builder.

The library in `src/` is written in Verus and verified: the public
functions state their results in `requires`/`ensures` contracts, and the
laws of the library are proof functions. Calls into outside crates
(quick-xml, zip, epub-builder, html-escape) go through small trusted
wrappers whose contracts say what those crates' sources show.

Layout:

- `src/text.rs`, `src/paths.rs`, `src/title.rs`, `src/xml.rs`: strings,
  container paths, `<title>` extraction, XML events as plain values.
- `src/package.rs`: `container.xml`, OPF and NCX readers over XML events.
- `src/pipeline/`: chapter classification, narration cleanup, the EPUB
  spine reader, the book model built from format readers, EPUB planning and
  writing, and the Open Library enrichment state machine.
- `src/models.rs`, `src/cli.rs`, `src/server.rs`: the book model, the
  command line's choices, and the HTTP API's decisions.
- `app/`: the executable around the library (argument parsing, file and
  network I/O, the axum server, the `ebook` crate's format readers).
- `tests/`: tests run against the compiled library.
