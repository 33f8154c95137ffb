# talbot

TALBot (Take A Look bot) is a Telegram notifier and question bridge for coding
agents, usable as a CLI (`talbot auth | send | status | hook permission-request`)
or as an MCP stdio server with the tools `notify` and `ask`.

## Layout

- `src/` is the library, written in Verus. Its functions carry contracts that Verus
  proves, except a few small trusted wrappers around `serde_json` (parsing and
  printing JSON text) and std (`String::push`, `Debug` quoting), whose contracts are
  believed and say only what those functions are documented to do:
  - `text` — character-level helpers (`trim`, `contains`, decimal and hex notation,
    `i64`/`usize` parsing) proved against their specifications;
  - `json` — a JSON value of the library's own with its model, member and pointer
    lookups, structural equality, and its reading from and writing to JSON text;
  - `conversation` — title checks and message layout;
  - `hook` — the Codex permission question (redaction, truncation, plain tool names,
    the pretty-printed arguments) and the allow/deny decision;
  - `question` — checks on a question, the Bot API bodies, how replies are read, the
    expiry and answer texts, and `Asker`, the step machine that decides each Bot API
    call of a question from the reply to the last one;
  - `mcp` — routing and answering JSON-RPC messages, the tool schemas, the registry
    of in-flight `ask` calls that cancellations reach (keyed by each id's JSON text),
    and what the server does with each message it reads and each `ask` that ends;
  - `telegram` — API URLs, how a reply is read, chat discovery, and what the user is told;
  - `config` — what the files under `~/.talbot` hold.
  Public proof functions state the library's laws, for example that a saved update
  offset reads back, that sanitizing leaves nothing that looks like a secret, that a
  cancellation marks the ticket of the request it names and leaves every other ticket
  as it was, that a cancelled request stays cancelled whatever follows, and that a
  question is sent at most once, and only to a private chat.
- `app/` is the program around it: the command line, files, HTTPS calls, the lock
  file, the clock, the MCP read loop with its threads, the loop that performs what
  `Asker` asks for.
- `tests/` exercise the library on concrete values.
