# ds_code

The verified core of a desktop window for a coding agent, and the program around it.

- `src/`: the library. Every function is checked by Verus against its contract.
- `tests/`: the library on concrete values, with the outside crates linked.
- `app/`: files, processes, network, terminals and the window itself.

| Modules | What they hold |
|---|---|
| `text`, `search`, `split`, `number`, `bytes`, `slug` | characters, patterns, lines and words, decimal numbers, lengths in UTF-8, identifiers |
| `json`, `json_text` | JSON trees, reading and printing them |
| `paths`, `clock`, `data_url` | where files lie, what time it is, pictures as text |
| `settings`, `secrets`, `memory`, `runtime` | settings, keys, notes for the agent, programs and editors |
| `skills`, `new_skill` | skills of the agent, and making or copying them |
| `mcp_config`, `mcp_test` | servers with tools: their configuration, and whether they can start |
| `git_status`, `git_task` | the state of a repository, and the commands that change it |
| `automation`, `schedule` | scheduled tasks: saving, running, stopping, recovering them |
| `request`, `target`, `plan`, `browser`, `script`, `redact` | pictures and videos of web pages: what is asked for, the plan, the run |
| `chat`, `stream`, `events`, `delivery`, `emit` | answers of a language model, read as they arrive |
| `terminal`, `start` | how a request is handed to the agent |

Proof functions whose names begin with `law_` state what holds across several functions.
What is taken on trust is marked `external_body`, `external_type_specification` or
`assume_specification`, with the outside function named above it. Six results of outside
functions have a name in contracts and no definition, marked `uninterp`: `lowered` (text),
`path_chars` (paths), and `value_tree`, `parsed_json`, `pretty_text` and `compact_text`
(json_text).
