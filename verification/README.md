# hexplorer

A terminal browser for the BEAM package ecosystem on HEX.pm (Gleam, Elixir,
Erlang), with GitHub statistics, favourites, HexDocs search-index discovery,
JSON / Markdown output modes and local snapshot retention.

The crate is written in Verus. Everything that decides or computes is in `src/`
and carries a contract that Verus proves:

- `args` — the command line;
- `types`, `fmt`, `text` — enums, labels, number and date formatting, string scanning;
- `api` — turning HEX.pm records into packages, sorting, de-duplication, the fetch plan,
  how the fetched pages (and, for an empty search, an exact-name lookup) become a listing;
- `docs`, `index_url`, `docs_fetch` — HTML clean-up, the search payload, locating a
  package's search index and the order in which it is looked for;
- `strmap`, `cache`, `favorites`, `listing` — the in-memory maps the browser keeps;
- `storage`, `storage_cmd` — snapshot naming, retention and pruning, which GitHub
  token is in effect, reading and applying a `storage config` setting, the `storage`
  subcommand's reports;
- `export_types`, `output` — the JSON snapshot shape and the Markdown outputs;
- `app` — the browser as a state machine: keys and fetch results in, new state
  and requested work out;
- `screen` — the text and colours of every view.

`app/` is the program around it: terminal drawing with ratatui, HTTP with
reqwest, files under the user's cache and config directories, logging.

Outside calls that the library makes (the url crate's parsing, chrono's date
arithmetic, the clock) sit behind small trusted wrappers whose contracts name
what they return.
