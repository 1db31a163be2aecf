# stui plugins

The plugins of stui: what each asks of its site, and what it makes of the
answer. Searches, stream links, subtitles and music, together with the kit that
plugins are written with.

The library under `src/` is verified with Verus. It does no input or output: a
verb comes in two halves, one that says what to fetch and one that is handed
what came back. `app/` holds what stands between the library and the host.

- `src/text/`: trimming, searching, splitting, replacing, numbers, percent
  encoding and sorting, on sequences of characters.
- `src/json.rs`, `src/crypto.rs`: what is had from outside crates, with what
  the rest of the library relies on.
- `src/release.rs`, `src/magnet.rs`, `src/size.rs`, `src/markup.rs`,
  `src/pkce.rs`, `src/env.rs`: release titles, magnet links, sizes, pieces of
  HTML, proof keys for a sign-in, settings.
- `src/sdk/`: the requests and answers of the verbs, the traits of plugins, the
  requests to the host, and the tools for logs, descriptions and tests.
- `src/providers/`: one module for each provider.

Each module begins with spec functions that say what a result is; the contracts
of the functions refer to them, and so do the public proof functions, which
state what holds of several functions together.

`tests/` runs the library on concrete values.
