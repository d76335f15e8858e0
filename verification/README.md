# boomerang

An agent that chats with a language model, runs tools for it (web search,
a file-backed memory, scheduling) and keeps long conversations within their
limits by pruning, summarising and saving old turns to memory.

- `src/` is the verified library. Each step of the agent is a function from
  plain values to plain values with a contract: the conversation turns and
  their conversion to provider messages, tool-call chains and pruning plans,
  the memory index, the request bodies sent to model providers and how their
  answers are read, the tools' arguments and answers, the chat and task
  services' decisions, and the HTTP API's answers. Calls into other crates
  (clock, UUIDs, regular expressions, JWT signing, header checks, home
  directory) stand behind small trusted functions whose contracts say what
  those crates promise.
- `app/` is the program around it: configuration, the HTTP server, the HTTP
  calls to providers and Tavily, file I/O for the memory store, the
  floating-point turn scores, the cron scheduler and the loops that call the
  model between the library's steps.
- `tests/` exercises the library on concrete values.
