# zagent

The verified core of a terminal coding agent that runs background subagents,
groups them into named teams with shared task boards, restricts the tools each
agent may use, and lets the user switch between views of their output.

## Layout

- `src/` — the library, written in Verus and verified.
  - `agent/` — tool names (`tools.rs`), the permission steps of a tool call,
    the reports of the `bash` and `write` tools, tool sets (`toolset.rs`) and
    the agent preamble and API-key choice (`builder.rs`).
  - `extras/subagent/` — the subagent registry (ids, names, inboxes, status)
    and the subagent tools.
  - `extras/teams/` — task boards with dependencies, teams, the team
    registry and the team tools.
  - `extras/mcp.rs` — which tool-server connections and tools are kept.
  - `ui/view.rs` — the view manager.
  - `named_list.rs`, `text.rs` — an insertion-ordered map keyed by name, and
    decimal text.
- `tests/` — tests of the library.
- `app/` — the code around it: serde and error-trait copies of the library's
  types, locked shared registries, the LLM-callable tools built on `rig`, the
  event bus and its relays, the permission plumbing, client construction and
  renderer glue.

Each public function states its result in its `ensures`; the properties that
span several calls (tasks unblocked by `mark_done`, a stopped subagent's id
being freed while its name stays taken, a round trip through a named view
restoring the lead buffer, and others) are public proof functions named
`law_*`.
