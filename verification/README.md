# cleverhans

A backend for a propose-only, human-in-the-loop agent protocol, written in
Verus. The agent never acts on the host application: it proposes actions
from a closed, app-owned registry, and the application executes them through
its own authorized path after the user confirms.

## Layout

- `src/` is the verified library. Each module states its behaviour in
  `requires`/`ensures` contracts over mathematical models (`Seq`, `Map`,
  `int`) and Verus proves the code against them.
  - `registry`, `schema`, `validation`, `proposal`, `agent`: the action
    registry, its declarative document, candidate validation, the proposal
    lifecycle and the agent's session steps.
  - `envelope`, `wire`, `pb`, `grpc`: the client/server envelope and its
    encodings.
  - `config`, `serve`, `client`, `webhook`, `sign`, `host`, `runner`,
    `conformance`: the standalone service, its webhook seams, request
    signing, and the conformance host and checks.
  - `llm`, `declarative`, `matcher`, `evals`, `palette`, `codegen`,
    `telemetry`, `demo`, `binding`: provider wire formats, scripted slots,
    evaluation matchers and the smaller tools.
  - `json`, `strmap`, `text`: the value, map and string building blocks.
- Laws that span several functions are public proof functions named
  `law_*`, next to the functions they speak of.
- Calls into outside crates (hashing, hex, URL parsing, HTTP status text,
  JSON text) go through a few trusted wrappers, each documented with what
  its contract claims of the outside function.
- `tests/` exercises the library on concrete values.
- `app/` is the unverified shell: argument handling, file and network I/O,
  the async runtime and the serde copies of library types.
