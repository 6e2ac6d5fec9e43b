# clove

The decisions of the `clove` command-line tool — a git-native, dependency-aware work-item
tracker — as a library whose behaviour is stated in contracts and proved with Verus.

- `src/` is the library. Every function of it states what it returns; the laws that span
  functions are the public proof functions whose names begin with `law_`.
  - `text`, `lines`, `json`, `json_text`, `order`, `path`, `version`: the ground.
  - `error`, `exit`, `output`: errors, exit codes and the envelopes that are printed.
  - `cli`, `config`, `context`, `clove_home`, `dispatch`, `mux_help`: from the command line to a command.
  - `view`, `ranking`, `item_json`: items, filters, orders and pages.
  - `plugin`, `registry`: finding plugins, and installing them from a registry or from git.
  - `cmd`: one module per command, among them the MCP tools under `cmd/mcp`.
- `tests/` runs the library on concrete values.
- `app/` is the program around it: the command line, files, processes and the network. The
  crates that keep the items stand behind the trait of `app/items.rs`.
