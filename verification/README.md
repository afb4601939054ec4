# plugnplay

The core of `pnp`, a plugin manager for Neovim, with proved contracts.

- `src/` is the library: reading plugin locations (`gh:`, `git:`, `loc:`),
  deciding what installing or updating a plugin does, the git and link
  commands it runs, the lock file (one item per plugin, in name order), the
  Neovim directories, and the `search` and `info` queries over the plugin
  database.
- `app/` is the `pnp` program around it: command-line arguments, files,
  network, processes and printing.
- `tests/` runs the library on concrete values.
