# fwmap

A library for reading the memory map of a firmware image: which sections,
symbols, object files and source files take up ROM and RAM, how that changes
between builds, why things are linked, and whether a build stays within its
budgets. The functions of the library are verified with Verus against
contracts stated over mathematical models (sequences, maps, integers).

A few small wrappers around outside code are trusted, not verified: their
contracts are taken as given.  They are `text::push_char` (`String::push`),
`desktop::rfc3339_of_unix` (chrono's `timestamp_opt` and `to_rfc3339`),
`record::metadata_json` and `record::string_list_json` (serde_json's
`to_string`), and `stored::metadata_pairs_from_json` and
`stored::string_list_from_json` (serde_json's `from_str`).

## Layout

- `src/` — the verified library.
  - `text`, `sorting`: character-level helpers and a verified sort used by
    every text-producing and ranking part.
  - `model`: the data model of an analysis (sizes and addresses as integers).
  - `demangle`, `cpp`, `rust_view`: symbol demangling (Itanium and Rust) and
    the C++ and Rust views that group symbols by class, template, crate, ...
  - `analyze`, `grouping`, `diff`, `linkage`: memory summaries, aggregation
    of contributions, the difference of two analyses, and why an object or
    symbol is linked.
  - `rules`: the byte-count checks of an analysis and the checks of a rule file.
  - `policy`: size budgets per profile, owners and waivers.
  - `history`, `timeline`, `trend`, `metadata`, `git`: the build history —
    variants, commit timelines, range totals, regression searches, trends.
  - `rust_ingest`: choosing the Rust artifact to analyse from Cargo output.
  - `record`: the rows stored for a recorded build (metadata with the debug
    artifact's facts, counts, object totals, function keys, why-linked
    records, and the JSON texts of the metadata and git tags).
  - `stored`: a recorded build read back from the values of its stored rows
    (decoding the stored JSON texts).
  - `regression`: the commits a regression search walks, where each watched
    value is read, and the summary and origin of a search.
  - `detail`: the text shown for one recorded build.
  - `run`: what an analysis run decides around its analysis: the warnings
    kept after a comparison, the metadata recorded with a build, and the
    exit status.
  - `desktop`, `dto`: the job table, settings and project updates, and the
    data shown by the desktop front end.
  - `calendar`: dates of day numbers.
  - `args`: reading command-line values.
- `tests/` — tests of the library on concrete values.
- `app/` — the command-line front end: reads files, runs `git` and `cargo`,
  reads and writes the history database (SQLite), draws job ids, and holds
  the checks that compare floating-point percentages.
