# enki

A verified library for the Enki multi-agent framework and its `enki` command
line program.

`src/` is the library, checked by Verus. Its modules:

- `registry`: agent cards and the registry agents discover each other through.
- `runtime`: request ids, session sequencing, channels, peer selection, and the
  assembly of single- and multi-agent runtimes.
- `agent`: agent definitions, the system prompt, tool-call extraction and the
  agent loop as a state machine (each step takes the model's reply and says
  what to do next).
- `workflow`: workflow definitions, validation (graphs must be acyclic),
  scheduling of ready and skipped nodes, run state, interventions, the run
  context and templating.
- `manifest`, `manifest_doc`: the `enki.toml` manifest, its checks, and edits
  of its TOML document (adding tools and workflow files).
- `commands`, `cli`, `interactive_cli`, `project_runtime`: what the `enki`
  commands decide, and the arguments handed to a project's Python runtime.
- `bindings`: the decisions of the JavaScript and Python bindings.
- `json`, `message`, `llm`, `tooling`, `event`, `text`: supporting values and
  text handling.

`app/` is the `enki` program: argument parsing, reading and writing files,
starting processes and the interactive terminal session. It hands the library
plain values and prints what comes back.

`tests/` exercises the library on concrete values.
