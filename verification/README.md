# codexclaw

A gateway between chat channels and persistent Codex threads. Each chat, and
each thread inside a chat, has a Codex thread of its own; messages become turns,
and each message that the agent completes is sent back to the chat.

The library under `src/` holds the rules of the gateway and is verified with
Verus. The program under `app/` does what touches the world: it serves webhooks,
calls the Telegram and WhatsApp APIs, talks to the Codex server, reads files and
runs programs. It asks the library what to do and does it.

## The library

| module | what it decides |
| --- | --- |
| `text`, `patterns`, `numbers`, `paths` | text and paths as sequences of characters |
| `collections` | small maps and sets with mathematical views |
| `json`, `ids`, `user_dirs` | what is taken from `serde_json`, `uuid` and `dirs` |
| `config` | defaults, validation, and the places of the program |
| `markdown` | Markdown to the HTML that Telegram accepts, and its splitting |
| `telegram` | updates to messages, and the calls of the Bot API |
| `channels` | session keys, WhatsApp webhooks, delivery of replies |
| `approval` | asking an operator, and what becomes of the answer |
| `codex` | input, notifications, turns, tools and sessions |
| `gateway` | what a webhook call leads to, and the steps of a message |
| `transcription` | the command that transcribes voice messages |
| `service` | the background service on Linux and macOS |

A function with side effects in the program is split here: the library computes
the calls, the steps or the next action, and the program carries them out. What
the rules promise as a whole is stated in proof functions whose names start with
`law_`.

## What is trusted

The contracts of the functions in `json`, `ids` and `user_dirs` that call outside
crates, and the one of `String::push` in `text`, are taken from the documentation
and the source of what they call. Everything else is proved.

## Configuration

The program runs on Linux and macOS. It holds paths as text in the notation of
these systems; a directory whose name is not Unicode counts as missing.

The configuration is a TOML file. On Linux it is looked for at
`~/.config/codexclaw/config.toml`, on macOS at
`~/Library/Application Support/codexclaw/config.toml`.

## Commands

```
codexclaw run
codexclaw print-paths
codexclaw set-webhook
codexclaw delete-webhook
codexclaw service install | uninstall | start | stop | restart | reload | status | print
```
