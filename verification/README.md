# argmax

The verified core of an editor-style completion layer for interactive shells.

A session sits between a terminal and a shell. Keys go to the shell byte for
byte; what the shell reports back is the only source of what is believed about
its editing buffer; suggestions are computed beside it. One enters the buffer
only when the user accepts it, and Enter runs one only after the user has moved
the selection to it.
The library holds the decisions of such a session as executable Rust with
contracts that Verus proves. It performs no I/O.

| Module | What it decides |
| --- | --- |
| `input` | keys in raw terminal input |
| `shell_events` | events that a shell writes, and what they say about its buffer |
| `shell_control` | controls that are sent to a shell |
| `completion`, `coordinator`, `selection` | queries, replies and the menu |
| `session`, `session_core`, `session_model`, `session_laws` | the session itself, its model and its laws |
| `runtime_completion` | queues and rules of local completion |
| `runtime_ai`, `ai_context` | authority and context of AI completion |
| `runtime_update`, `update_policy`, `updater`, `version` | automatic update checks |
| `state`, `timestamps`, `paths` | small persistent state and its migration |
| `setup` | installation of the shell integration |
| `text`, `words`, `sorted` | texts and lists |

Laws that relate several operations are public proof functions whose names begin
with `law_`.

`app/` is ordinary Rust around the library: files, threads, processes and the
interfaces to providers. `tests/` runs the library on concrete values.
