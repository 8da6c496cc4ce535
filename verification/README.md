# nova

A zsh prompt renderer whose core is written in Verus: each decision the renderer
and its background worker take is a function with a contract, proved by Verus.

## Layout

- `src/`: the verified library.
  - `text.rs`: characters, strings, splitting and decimal numbers.
  - `state.rs`: what the shell sends for one prompt.
  - `config/`: the configuration model, its warnings and validation, where the
    file is found and when it changed.
  - `render/`: rendering segments, fitting a line to the terminal, cutting text to
    a width (`width.rs`, over `unicode-width`), and lowering to zsh prompt escapes.
  - `segments/`: the segments, the git porcelain parser, the AWS context, runtime
    detection and version collection, and the async segments' cache keys.
  - `cache.rs`: the async segment cache (least recently used goes first when full).
  - `worker/`: the wire protocol, and the worker's decisions between prompts:
    lookups, refresh plans, job results, configuration reloads and updates.
  - `cli.rs`, `zsh_init.rs`: command-line options, output formats, the init script.
- `app/`: the `nova` command around the library: argument dispatch, reading files
  and the environment, the TOML parse, running `git` and the runtime commands,
  and the worker's loop with its FIFOs and threads.
- `tests/`: tests of the library on concrete values.

Laws the library states are public proof functions named `law_*`, next to the
functions they speak of.
