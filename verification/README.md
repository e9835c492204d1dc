# git_conflict

Resolving the conflicts of a git merge, with the decisions verified by Verus.

- `src/` is the verified library: the branch pair and the checkout side
  (`branches`), the removal of conflict markers from a file's text
  (`markers`), the selection of conflicted paths from a status list
  (`status`), the parents of a resolving commit (`commit`), the index
  entries of a tree-level resolution (`entries`), filling a `git2::Index`
  with them (`index_fill`), the menu's state machine (`menu`), and the
  `git2` types the library carries (`outside`).
- `app/` is the terminal program: it opens the repository with `git2`,
  reads and writes files, draws the menu with `ratatui` and hands the
  library plain values.
- `tests/` runs the library on concrete values.
