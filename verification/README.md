# fs_watch_rs

A directory watcher. The library (`src/`, verified with Verus) holds the
rules: how command-line arguments and the TOML configuration merge, how raw
notifications become events, which events pass the extension and pattern
filter, how events are debounced per path, and what text the reporters emit.
`app/` is the program around it: argument parsing, reading the configuration
file, the operating system's notifications, the terminal, the log file and
the webhook.

Modules of the library:

- `text`: trimming, splitting on a separator, stripping a leading character.
- `paths`: the final component and the extension of a path held as text.
- `globbing`, `clock`: the calls into `glob` and `chrono`.
- `event`: event kinds, events, and the filter.
- `watcher`: the debouncer and the decisions of the watch loop.
- `cli`, `config`, `setup`: settings, their merging, and the start-up choices.
- `reporter`: the console line, the log-file line and the webhook payload.
