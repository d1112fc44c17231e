# open_yasa

The machine layer of a terminal file manager, verified with Verus.

- `src/` is the verified library: the names and URLs of machine entries
  (`machine`, `url`, `files`), the sorted listing and the cache it fills
  (`order`, `cache`), reading `machines topology` and `machines route`
  results (`topology`, `route`), reading SSH targets and `ssh -G` output
  (`ssh`, `ssh_config`), the decisions of the start-up, enter and link
  commands (`actors`), and the laws that tie them together (`laws`).
- `app/` runs the `machines` and `ssh` commands, reads their JSON output,
  and keeps the listing and the resolved SFTP settings between calls.
- `tests/` runs the library on concrete values.
