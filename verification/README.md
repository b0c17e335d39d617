# cluaiz_engines

The decision logic of the cluaiz inference engines, written in Verus: each
public function carries a `requires` / `ensures` contract, and Verus proves
the code against it.

## Layout

- `src/` — the verified library.
  - `tools/` — the tools subsystem: the registry of skills, plugins and MCP
    servers and its synchronisation with the tool folders; the execution
    policy of sandboxed commands, their environment and results; script
    runners; installation of components and their runtimes; skill parsing
    and routing; MCP manifests and messages; the compilation of tool schemas
    into prompts; context-window telemetry.
  - `models/` — GGUF header probing, the model vault and fetcher paths, and
    the hardware audit of a model.
  - `llama/`, `onnx/` — engine configuration, chat templating, the
    fallback ladder of a model load and the context settings it picks, the
    decisions of a streamed generation (request envelope, thinking budget,
    prompt budget, cache reuse, think-block tracking), and the
    mixture-of-experts offloading decisions (expert residency, DMA chunking,
    session pools), the pronunciation lexicon format.
  - `neural_foundry/` — the permission schema and its model slots, skill
    activation.
  - `text.rs`, `json.rs`, `keyed.rs`, `paths.rs`, `bytes.rs` — the string,
    document, keyed-list, path and byte-reading building blocks that the
    contracts are stated over.
  - `documents.rs` — JSON and YAML text read into documents, and schemas
    written as pretty JSON, by serde_json and serde_yaml behind trusted
    wrappers whose results are named.
- `tests/` — tests of the library on concrete values.
- `app/` — the parts that touch the outside world (files, processes, the
  network, serialised records, floating-point figures); they gather plain
  values and texts, call the library, and act on what it returns.

## Checking

Verus verifies `src/`; the public proof functions (`lemma_*`) state the laws
that hold across calls, such as that a registry synchronisation registers
every tool folder it finds and purges the tools whose folders are gone, or
that a compiled lexicon reads back as the entries it was compiled from.
