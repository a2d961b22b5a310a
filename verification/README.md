# tinybot

A multi-platform chat bot framework. Bots (platform adapters) deliver
messages; bindings decide which plugins may answer; a plugin that does not
finish keeps the conversation, and later messages from the same bot and target
go straight back to it.

The library in `src/` holds the framework's logic with its contracts, verified
by Verus:

- `bot/`: the bot application — bindings with glob patterns, plugin
  factories, conversations, and `BotApp::handle_event`, which decides who
  answers an event and how the conversations change.
- `adapt/`: the adapter-based application — channel bindings with exact,
  `type:*` and `*` lookups, the plugin registry, built-in `/commands`, and the
  arithmetic of the WebAssembly plugin ABI.
- `config.rs`: configuration records and `${NAME:-default}` expansion.
- `qq/`: the QQ bot protocol — requests, errors, the access token cache and
  the WebSocket session's decisions.
- `plugins/`: the `hello` and `dice` plugins.
- `text.rs`, `name_map.rs`, `registry.rs`, `glob.rs`, `sdk.rs`: strings,
  maps keyed by name, registries, glob matching and the shared event types.

`app/` is the program around it: command line, configuration files, the async
event loops, HTTP and WebSocket clients, and the WebAssembly runtime.
