# captain

captain keeps a Rust workspace in order. Before a commit it generates readmes
from templates, formats the staged files, stages `Cargo.lock`, sets up arborium
for the documentation, and sees to it that every crate declares the same Rust
version and edition 2024. Before a push it checks the workspace.

```
captain                       generate, format and stage files
captain --template-dir DIR    the same, with readme templates from DIR
captain pre-push              check what is about to be pushed
captain init                  set up hooks and templates
captain debug-packages        list the packages of the workspace
```

All options are on unless they are turned off in `.config/captain/config.kdl`:

```kdl
pre-commit generate-readmes=#false rustfmt=#false cargo-lock=#false
pre-push clippy=#false nextest=#false {
    clippy-features "feature1" "feature2"
}
```

What that file does not set, `[package.metadata.captain]` of the root package
may, or else `[workspace.metadata.captain]`.

`HAVE_MERCY` leaves checks out: from 1 on the slow ones, from 2 on clippy, from
3 on all of them.

Before a push, clippy is run on all crates of the workspace and the other
commands on those that the changes affect. Crates that declare different Rust
versions are not pushed.

## Layout

- `src/` decides: what is written, what is checked, in which order, and what is
  said about it. It does no I/O, and Verus verifies all of it.
  - `text`, `paths`, `size`: text, paths and sizes
  - `toml`, `json`, `ansi`: what is trusted of the crates that read TOML and
    JSON and that write and strip colours
  - `kdl`: the words of a configuration file
  - `manifest`, `config`, `names`, `workspace`: manifests and packages
  - `job`, `readme`, `staged`, `pre_commit`, `icons`: what runs before a commit
  - `mercy`, `command`, `pre_push`, `stream`, `progress`: what runs before a push
  - `cli`, `init`: how captain is called and set up
- `app/` acts: it reads and writes files, runs commands, and prints.
- `tests/` holds examples of all of it.

Paths are UTF-8 text with `/` between their components.
