# treeboot_core

The core of `treeboot`, a tool that bootstraps Git worktrees: it reads a
`.treeboot.toml` config, copies, symlinks or syncs files from the root
checkout into the current worktree, and runs setup commands.

## Layout

- `src/` is the verified library. Apart from the small trusted wrappers
  named below, its functions carry contracts that Verus proves: config parsing and normalization, runtime option precedence,
  path arithmetic, glob source splitting and expansion, ignore and include
  rules, file-operation planning (copy, symlink, sync with its deletes and
  metadata repair), the steps and events of applying a plan, command
  execution decisions, the checks made on disk just before a step writes
  (target inside the worktree, no symlinked parent, source unchanged and
  inside the root), and the reports of `bootstrap`, `check`, `doctor`,
  `status`, `init` and `teardown`.
- Planning reads the filesystem through `FsSnapshot`, a record of what was
  looked up on disk; applying a plan hands each action's steps to a
  `StepRunner`, and commands go to a `CommandRunner`. Calls into `toml`,
  `globset` and `ignore` stand behind small trusted wrappers whose contracts
  say what those crates do. What a `StepRunner`, `CommandRunner`,
  `Reporter` or `ByteSource` does is up to its implementation: the library
  records what it hands each of them and what came back, and its contracts
  speak of those records.
- `app/` is the part that touches the machine: it captures snapshots from
  disk, looks at paths and hands what it saw to the library's checks,
  performs file steps, spawns processes and Git, reads the environment,
  drives `doctor`, the start of a bootstrap and teardown, and holds the
  serializable copies of the library's reports.
- `tests/` exercises the library on concrete values.
