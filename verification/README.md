# kcpilot

A Kafka cluster health diagnostics tool whose logic is verified with Verus. It collects
cluster data over SSH (through a bastion host or locally), stores it in a scan directory,
checks it against configuration rules and LLM-defined analysis tasks, and reports the
findings in the terminal, as JSON, as Markdown or as an HTML page.

## Layout

- `src/` — the verified library. Every executable function carries a `requires` /
  `ensures` contract that Verus proves.
  - Text, numbers, JSON values, a string map: `text`, `numbers`, `json`, `strmap`.
  - The snapshot model and its byte encoding: `snapshot`, `loading` (a scan directory
    turned into a snapshot).
  - Discovery and collection as state machines that say which command to run next and
    what to record from its output: `broker_search`, `bastion_collection`,
    `broker_collection`, `config_search`, `log_chain`, plus the parsers they use
    (`discovery`, `cluster_detection`, `process_info`, `log_discovery`, `log_sources`,
    `collector`, `collectors`, `scan`).
  - Analysis: `rules`, `config_validator`, `analysis`, `llm`, `llm_findings`.
  - Reports: `report`, `report_assets`, `html_page`.
  - Properties of the library as a whole: `laws`.
- `tests/` — tests of the library, run against the compiled crate.
- `app/` — the command line program: argument parsing, SSH and file I/O, the LLM
  client, the Kafka admin client, and the loops that run the library's state machines.
