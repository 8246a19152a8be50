# zero_agent

An agent framework for language models, with its logic verified by Verus.

- `src/` is the verified library: JSON values and their model (`json`), text helpers
  (`text`), messages and stream events (`types`), the streaming parsers and request
  builders of the Anthropic and OpenAI APIs (`anthropic`, `openai`), the built-in tools
  (`todo`, `json_validate`, `spawn`), skills and sub-agents (`skill`, `subagent`), the
  assembly of an agent's context (`context`, `prompts`), tool batching (`tool`), events
  (`event`) and the decisions of the agent loop (`agent_loop`).
- `app/` is the asynchronous runtime around it: HTTP streaming, the agent loop that runs
  tools concurrently, hook and tool traits, and loading skills from disk.
- `tests/` exercise the library on concrete values.
