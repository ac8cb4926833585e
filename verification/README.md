# recast

The verified core of an offline file converter: the catalogue of image,
audio, video and document formats and their codecs, which conversions are
offered, the FFmpeg and LibreOffice command lines, request validation,
conversion planning, output naming and collision handling, LibreOffice
version detection, the job queue, and the Windows context-menu edits.

Every executable function in `src/` carries a contract that Verus proves.
Work that needs the outside world (reading file metadata, probing paths,
running engines, the registry) is asked for by the library as plain
questions and answered by the program in `app/`, which also holds the
command-line interface and the JSON forms of the data types.

Layout:

- `src/catalog.rs`, `src/formats.rs`: formats, codecs, capabilities, FFmpeg mappings.
- `src/libreoffice.rs`, `src/document.rs`: LibreOffice filters, command lines, versions, results.
- `src/requests.rs`, `src/inspection.rs`, `src/execution.rs`, `src/paths.rs`: validation and planning.
- `src/engines.rs`, `src/desktop.rs`, `src/cli.rs`, `src/shell.rs`, `src/queue.rs`, `src/progress.rs`: engine discovery, front-end decisions, queue, progress reports.
- `src/laws.rs`: properties of the library as a whole, proved.
- `tests/`: tests run against the compiled library.
- `app/`: the `recast` command line and the I/O around the library.
