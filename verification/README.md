# agent_runtime

A capability-based runtime for role-scoped agents, verified with Verus.

An agent manifest names the tools, path prefixes, executables and limits an
agent may use; its role text is descriptive and grants nothing. The manifest is
compiled into a policy, and every tool request goes through a gateway that
decides it against that policy before any file is read or process started.
Runs are recorded as audit events and a summary.

## Layout

- `src/` — the verified library:
  - `text`, `json`, `paths`: characters, JSON values (their compact text comes
    from serde_json), lexical path handling (`..` normalization, prefixes,
    joins);
  - `manifest`, `policy`: the manifest model and the compiled policy, whose
    path and command checks take a snapshot of filesystem facts and of the
    working directory;
  - `tools`: the gateway's decision for each built-in tool, as the one action
    it allows;
  - `tool_output`: the JSON results of the actions, and the policy-filtered
    directory walk;
  - `audit`, `sandbox`, `runner`, `model`, `session`: audit records, run
    folders, the scripted-run and agent-loop state machines, and a mock model;
  - `report`: the readable account of a run;
  - `app_state`: the state behind a desktop front end (policy preview, run
    status as a worker reports back).
- `app/` — the `agent-runner` command line: reading manifests and tasks
  (serde), gathering filesystem facts, performing the allowed actions, writing
  the audit log and summary, and driving the loops with a clock.
- `tests/` — tests of the library on concrete values.
