# pera

The decisions of an agent platform that runs skills as WebAssembly
components, written in Verus and proved against their contracts.

- `src/canonical`: the canonical interface description of a skill, its import
  from resolved WIT documents, the registry of actions, the conversions
  between model values, canonical values and component values, and the
  Python stubs and bindings of a world.
- `src/orchestrator`: the run state of an orchestrated conversation and its
  transitions: delivery, routing, scheduling, limits and termination.
- `src/agents`: how an agent turns a model's output into decisions and its
  history into a prompt.
- `src/evals`: evaluation specs, their checks, the criteria of a run and the
  trajectory an evaluation records.
- `src/llm`: model requests and the streamed response events.
- `src/repl`: what the console shows and which events a typed line becomes.
- `src/cli`: the command-line tool's errors, configuration, spec overrides and
  run artifact names.
- `src/domain`: identifiers, values, actions, events and runs shared by all.
- `app/`: the `pera` command: argument handling, file I/O, and the reading of
  WIT documents with wit-parser.
