# aikup

A tool that installs, switches between, lists and removes versions of the
`aiken` compiler.

- `src/` is the library, verified with Verus: choosing the release to install,
  telling releases apart by semantic version (through the `semver` crate),
  naming the release asset for a platform, planning where an installation
  lands, and the decisions of the `clean`, `current` and `install` commands.
- `app/` is the command-line program around it: argument parsing, GitHub
  requests, downloads, unpacking, the file system and colored output.
- `tests/` runs the library on concrete values.
