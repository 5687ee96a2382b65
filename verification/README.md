# clap_config_fallback

Configuration-file fallback for [clap](https://crates.io/crates/clap) command lines, with its
decisions proved by Verus. One struct describes both the command line and the configuration
file; configuration values fill in what the command line left out, the merged values are turned
back into command-line arguments, and clap parses them one final time.

## Layout

- `src/` — the verified library.
  - `input.rs`, `types.rs`, `clap_attr.rs`: the derive input as the derives read it, with its
    checks (path field types, variant shapes, aliases on flattened fields) and the reading of
    `#[arg(..)]` (flags, aliases, value parsers, sanitizing for the optional struct).
  - `generator.rs`: what each derive generates, as plans whose contracts tie the generated
    fields, variants, conversions and configuration keys to the input.
  - `arg.rs`, `opts.rs`, `command.rs`: the run-time options, the merge in which the command
    line always wins, the reading of a subcommand's configuration section (a bare name, a
    table of entries, or an internally tagged table), subcommand resolution, and the arguments
    rebuilt for the final parse.
  - `parse.rs`, `source.rs`, `format.rs`: the steps of a parse with fallback (help and version,
    loading the configuration, error reporting) and configuration formats.
  - `laws.rs`: properties that span several functions, proved over their contracts.
  - `text.rs`: text helpers; case conversion is done by `heck`.
- `tests/` — tests of the library on concrete values.
- `app/` — what Verus does not see: reading the derive input with darling and syn, writing the
  generated code with quote, and the run-time parse with clap and figment.
