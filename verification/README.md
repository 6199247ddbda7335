# codex_tui_kit

The decision logic of the Codex terminal client, written in Verus and proved
against its contracts: managed Git worktrees (paths, slugs, reuse, creation
plans, removal, listing order), slash-command parsing, markdown table layout
and streaming partition, update prompts and the cached release record,
usage-limit nudges, the subagent panel, queued sends, the hooks review, voice
sample conversion and transcription retries, remote-session setup, and the
Windows sandbox path planning.

- `src/` is the verified library. Each module states its results over
  mathematical models (`Seq`, `Map`, spec functions); public `proof fn`s state
  the properties that span several calls.
- `tests/` runs the library on concrete values.
- `app/` holds the I/O around it: running `git`, reading and writing the JSON
  records, resolving paths on disk, and carrying out the plans the library
  makes.
