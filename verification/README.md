# me

The core of an agent that works through an append-only log of events. The log is all that an agent
knows: what it was asked, what the model answered, which tools ran, and how the context was summed
up. The rules of the log are stated and checked here, and what an agent writes is proved to keep
them.

- `src/` is the verified library. `event`, `notes` and `later` hold the log and what it means to
  add to it; `api_calls`, `tool_calls`, `compacts`, `sessions`, `turns` and `validate` hold its
  rules; `support` and `agent` say when an agent can go on from a log. `request`, `tools`,
  `compact_run`, `agent_loop`, `inputs` and `runtime` are the decisions of a running agent.
  `context`, `edit_scopes` and `file_scope` make the context of a model out of the log; `model`,
  `model_api`, `stream` and `buffers` are the requests to a model and its answers. `transfer` and
  `archive` move model settings from one machine to another.
- `upkeep`, `tries`, `batches`, `summaries`, `startup` and `first_log` prove that whatever an agent
  writes leaves a log that it can go on from. `system_word` proves that the word of the system
  comes first in every context and stays the same.
- `tests/` runs the library on concrete values.
- `app/` is the thin layer around it: threads, files, the network and the process.
