# dcr

A Cargo-style build tool for C/C++ projects: `dcr new`, `init`, `build`,
`run`, `clean`, `gen`, `lint`, `fmt`, `setup` and `--update`, driven by a
`dcr.toml` manifest.

## Layout

- `src/` — the library, written in Verus. Every function carries a contract
  and is proved against it, except a few marked `#[verifier::external_body]`
  that call outside code (`sha2`'s SHA-256, `toml_edit`'s parse, lookup,
  insert and print, std's `char::is_alphanumeric`, `String::push` and the
  system clock); their contracts are trusted and say what they rely on:
  - `value`, `build_config`, `validation`, `resolve`, `manifest`: the manifest
    as a TOML value, its typed sections, the rules it must follow, per-profile
    and per-target settings, the text of a new manifest, and (`manifest_edit`)
    edits of the manifest text that keep its comments and layout;
  - `deps`: path, git and registry dependencies, their header and library
    directories, and the lock file;
  - `build/*`: languages and builders, compiler, assembler, archiver and
    linker command lines, artifact locations, the build fingerprint, Qt code
    generation, FAT image layout, build decisions, and (`build::driver`) the
    order of a project's build and of a whole workspace build, each as a step
    function from state and event to next state and action;
  - `steps`: custom build steps;
  - `cli/*`: argument parsing and the decisions of each command, what
    `dcr gen` records of a project, and the files it writes for editors;
  - `paths`, `text`, `platform`: path, string and host models the rest is
    stated over.
- `app/` — the command-line program: reading files and the environment,
  running compilers and other tools, serde/TOML parsing, the HTTP update and
  the FAT image writer. It hands plain values to the library and acts on what
  comes back.
- `tests/` — tests of the library on concrete values.
