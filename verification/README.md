# Corevisor CLI

Local credential management and an MCP server for AI assistants. Scripts run in a
sandbox; each of their outbound requests is checked against the approval rules of a
Hub, and a request that passes gets the credential of its domain injected. Credentials
stay on this machine.

- `src/` is the library, written in Verus: the rules for outbound requests, the
  credential store, the exchanges with the Hub, the tools' replies, the commands, and the
  plan by which a script's requests are made. Every function states its contract; the
  proof functions named `law_..` state what holds across functions.
- `app/` is the program around it: arguments, files, network, sandbox and server.
- `tests/` runs the library.

```sh
cv login                           # authenticate with a Hub
cv sync                            # sync all profiles and their services
cv credential set api.notion.com   # store a credential locally
cv serve                           # start the MCP server
```
