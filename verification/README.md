# hippocampus

`tatu` keeps the dot-directories of a project (`.plan`, `notes`, ...) in a
separate git repository and links their files back into the project.

The crate is in two parts:

- `src/` is the library, verified with Verus. It decides everything the tool
  does: how paths are joined and normalized, how a dotdir's configuration is
  chosen and written, which files are linked, absorbed, pruned or restored,
  which git commands run and in what order, and what is printed. Each command
  that talks to the file system or to git is a state machine (`session`,
  `init`, `listing`, `unlink`): a step takes what the last action gave and
  says what to do next.
- `app/` is the program around it: argument parsing, reading and writing
  files and TOML, running git, and the loop that performs each action the
  library asks for.

Modules of the library:

| module     | what it holds                                                        |
|------------|----------------------------------------------------------------------|
| `path`     | Unix path components, `join`, `parent`, `file_name`, `normalize_path` |
| `text`     | string helpers (joining, concatenation, comparison)                  |
| `sort`     | sorting strings in the order of `str`                                |
| `config`   | the configuration file, TOML escaping, loading a dotdir's config     |
| `discover` | finding managed dotdirs, and the dotdirs of a repo                   |
| `linker`   | what to link, absorb, prune and restore; relative link targets       |
| `vcs`      | git commands, and finding the repository above a path                |
| `cli`      | the commands, their messages and the values they compute             |
| `session`  | `push`, `pull`, `sync`, `status`, `diff`                             |
| `init`, `listing`, `unlink` | the other commands                                  |
