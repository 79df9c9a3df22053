# gdlk

GDLK is a small assembly-like programming language and a puzzle game built
on it. This crate holds its logic, each function with a proved contract:

- `lang`: the language. Source text is parsed (`parse`) into a nested syntax
  tree (`ast`), checked against the hardware of an environment (`validate`),
  flattened into relative jumps (`desugar`) and run by a steppable machine
  (`machine`). `semantics` gives structured programs their meaning and
  proves that flattening keeps it and keeps halting; `size` bounds the
  flattened program by the source; `case` shows that parsing ignores ASCII
  case. `diet` is a second instruction set, for a machine with a single
  workspace, whose symbolic labels are resolved into indexes (`delabel`).
- `pagination`, `validation`: cursors and page metadata of connections, and
  validated input values.
- `vfs`: path normalization, segment matching, path variables and the walk
  down the virtual file system tree.
- `vfs_node`: the layout of the virtual tree, the permissions and spec-file
  texts of its nodes, the step-by-step lookup of the node at a path (the
  caller answers each "does this node exist" question from the database),
  and the listing of a directory's children.
- `context`, `auth`, `error`, `models`, `session`, `views`: who is logged in
  and what they may do, the login state, error mapping, data models and
  their validation rules, the decisions of an interactive program session,
  and the outcome of executing a user's program.

`app/` is a command line front end that compiles and runs a program in an
environment read from a JSON file, and loads the configuration.
