# gitpkg

A minimal Git-based package manager: it clones a repository, detects its
build system, builds it, installs the result under
`~/.local/share/gitpkg/(supplier_)user/repo/<commit>/` and links the program
into `~/.local/bin` (or `/usr/bin` with `--system`).

## Layout

- `src/` — the library, written in Verus and verified. It holds gitpkg's
  decisions and text formats: parsing package arguments and keys, the
  package list file format and its lookups, clone URLs and supplier names,
  the superuser setting and the system package manager commands, reading
  `package.json` (through `serde_json`) and the build files (Makefile,
  `meson.build`, `CMakeLists.txt`, `Cargo.toml`, cargo configuration),
  build system detection from a snapshot of a project directory, which
  built program is linked, the Python install plan, reading git's output,
  the steps of `upgrade` and `change-branch`, the order of `versions`, the settings that win over the config file, and
  the text of paths, launcher scripts and desktop entries. Each public
  function states its result in its `ensures`; the `law_*` proof functions
  state what holds across functions (keys parse back to what made them, the
  list file reads back as written, the `versions` order, the first
  executable found, the superuser fixed once per run, an upgrade that clones
  only when behind).
- `tests/` — tests of the library on concrete values.
- `app/` — the `gitpkg` program: argument parsing (`clap`), reading and
  writing the TOML records and config (`serde`, `toml`), timestamps
  (`chrono`), the file system, running git, the build tools and the
  superuser provider, and the terminal prompts. It gathers what the library
  needs (file contents, directory listings, which programs are on PATH,
  exit statuses), calls it, and carries out what it answers; the loops that
  walk directories and the order of the steps of the other commands stay
  there.
