# openhuman

The decision logic of OpenHuman's RPC envelopes and parallel-agent spawning,
written in Verus and proved against its contracts.

- `src/json.rs`: JSON values, the log envelope and the `result`/`data`
  unwrapping, with the laws that relate them.
- `src/rpc.rs`: `RpcOutcome`.
- `src/agents.rs`: agent definitions, the parent's tool catalog, tasks, and
  the definition snapshot.
- `src/tools.rs`: which tools an agent sees and which can write.
- `src/staging.rs`: ownership boundaries, write claims, lineage, prompts.
- `src/preflight.rs`: the policy pass and the arbitration pass.
- `src/workers.rs`: results, worktree steps, spawn announcements, workers.
- `src/ids.rs`: worker task ids (from `uuid`).
- `src/observability.rs`: error-reporting events and their fixtures.
- `src/text.rs`: string helpers over character sequences.
- `app/`: conversions to `serde_json` and Sentry values, the calls into
  `tinyagents_graph`, and the async staging loop.
