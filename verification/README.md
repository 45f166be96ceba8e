# qobuz_downloader_rust

The logic of a Qobuz downloader, verified with Verus: recognising Qobuz URLs
and IDs, the `.env` settings and remembered logins, the download queue, the
bookkeeping of download tasks and the step-by-step decisions of batch
downloads (the API calls themselves are made outside the library), search
scopes and the text shown for search results.

Layout:

- `src/` — the verified library. Each module states its behaviour in
  `requires`/`ensures` over spec functions and views; the public proof
  functions named `lemma_*` state properties across calls (a setting reads
  back as saved when no line that the save leaves alone sets it first, a
  login reads back as saved when its lines are not indented, queue item IDs
  drawn from one counter stay unique until it wraps, cancelling everything
  leaves nothing pending, index round trips).
- `src/text.rs` — the character-level operations (`trim`, `lines`,
  `split_once`, `replace`, `join`, decimal rendering) with their
  specifications, used by the rest.
- `tests/` — tests on concrete values, run against the compiled library.
- `app/` — a small command-line front that does the file I/O around the
  library (the `.env` file, the settings JSON file) and the floating-point
  progress text.

Regular-expression matching is done by the `regex` crate and cancellation of
running downloads by `tokio_util::sync::CancellationToken`; the few calls into
them stand behind trusted wrappers whose contracts are stated in their doc
comments.
