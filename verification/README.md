# dfm

A standalone dotfiles manager. Profiles (`profiles/<name>.conf.yaml`) list
`defaults`, `link`, `shell`, `clean` and `create` directives that are applied
in declaration order.

## Layout

- `src/` — the library, verified with Verus:
  - `config/` — the profile model and the YAML profile parser (the YAML
    document itself is loaded by `marked-yaml`);
  - `engine/` — option merging, path expansion and cleaning, and the
    decision each directive entry takes from what the filesystem reports;
  - `iostreams/` — color policy, styling (`anstyle`), and the output streams:
    which stream (stdout or stderr) each helper writes to and the exact text
    it hands that stream's writer;
  - `state/` — where the state file lives;
  - `cli/` — what each subcommand computes (diff listing, profile paths,
    completion scripts, profile list, status and doctor reports);
  - `logging.rs`, `version.rs`, `text.rs` — level selection, the revision,
    and character-level helpers.
- `app/` — the command-line program: argument parsing (`clap`), the
  filesystem and process work the engine asks for, the JSON state file
  (`serde`, `chrono`), and the stderr logger.
- `tests/` — tests of the library.
