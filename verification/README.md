# mutex_agent

The agent side of the Mutex editor: talking to a language model over the Responses API,
keeping threads and sessions in step between a host and the editors connected to it, and
holding the credentials that this needs.

`src/` is a library verified with Verus. Each function states in its `ensures` clause what
it returns or changes, and the public proof functions state what holds across calls: that a
subscriber who reconnects is given every event that the host still keeps, that the first
answer to an approval request wins, that new tokens which come after a sign-out are
discarded.

- `responses`, `response_stream`, `response_log`: requests, streamed events, and the log
  lines about them, which hold no content of a conversation.
- `thread_id`, `timestamp`, `thread_metadata`, `thread_registry`: threads and where they
  are kept.
- `session_event`, `event_buffer`, `tool_authorization`, `agent_session_host`,
  `remote_agent_connection`: sessions on the host and their mirrors.
- `sign_in`, `agent_credentials`, `openai_subscribed`, `codex_model`: signing in and the
  models this gives access to.
- `thread_landing`, `quick_task`, `profile_selector`: what the panel shows and decides.
- `json`, `text`, `folder`, `table`, `limits`: shared pieces.

Calls into other crates stand behind items marked `external_body` or
`assume_specification`; the comment above each says what is taken on trust.

`app/` does the input and output around the library: HTTP, files, channels, and the types
as they are serialised.
