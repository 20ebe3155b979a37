# agent_chat

A command-line chat client for OpenAI-compatible chat completion servers, written in
Verus. The library under `src/` holds the logic. Each function has a contract. Verus proves
every function except a handful of trusted items: the declaration of `serde_json::Value`, the
four wrappers around `serde_json` and the two names they speak of, and the specification of
`String::push`. Verus believes these without proof.

- `text`: white space, trimming, decimal numerals and string building on characters.
- `json`: the JSON documents the server answers with, read through `serde_json`.
- `api`: conversation messages, what a server reply means for the conversation (retrying
  after the "context too long" error, error messages with the compacted body), and the
  answer in an accepted reply, the request for the next answer, and the lines of a streamed
  answer.
- `chat`: the start of a conversation, clearing it, typed commands, turns, server URLs.
- `config`: the command line, the YAML configuration file and the defaults, and how they
  combine and when the file is written.

`app/` is the program around the library: argument parsing, the HTTP requests, the line
editor, and reading and writing the configuration file.
