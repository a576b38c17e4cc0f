# zed-litellm

Syncs the models that a LiteLLM proxy reports at `/model/info` into the
`language_models.openai_compatible.<provider>` block of Zed's `settings.json`.

- `src/` is the verified library (Verus):
  - `url` — the proxy root from the URL a user gives (`/`, `/v1` suffixes);
  - `order` — the order of model names, and its laws;
  - `models` — `/model/info` entries, the Zed model entries made from them
    (filtering, de-duplication, ordering, field mapping) and their JSON;
  - `json` — the JSON documents the library reads and writes;
  - `merge` — merging discovered models into the existing entries;
  - `tree` — the settings text held as `jsonc_parser`'s syntax tree, and the
    document it reads as;
  - `reading` — how `serde_json` keeps a document that `jsonc_parser` read;
  - `settings` — reading and rewriting the settings text through `jsonc_parser`;
  - `probe` — which models to probe for `interleaved_reasoning` and what a
    probe's answer means.
- `app/` is the command-line tool: arguments, HTTP calls (`ureq`), JSON
  decoding of the proxy's answers (`serde`), and file I/O.
- `tests/` runs the library on concrete inputs.
