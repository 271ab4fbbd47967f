# cli-engine

A framework for command-line applications, with its rules verified in Verus:
command trees and their groups, argument rewriting, flags and their defaults,
authorization tiers and scopes, OAuth with PKCE, credential storage, layered
configuration, environments, feature flags, JSON envelopes, filters and pages,
and human-readable output.

- `src/` is the verified library. Each function states in its contract what it
  returns; the `law_*` proof functions state what holds across functions.
- `app/` connects the library to the world: argument parsing, files, the system
  keychain, the network, the clock of timeouts, and the asynchronous loop that
  runs a command.
- `tests/` runs the library on concrete values.

The calls into other crates stand behind small functions marked
`#[verifier::external_body]`. The doc comment of each names the call and says
what is taken on trust of it. They are in `auth/encoding.rs`,
`auth/credential.rs`, `guide.rs`, `json_bridge.rs`, `output/envelope.rs`,
`output/pipeline.rs`, `text.rs`, `toml_doc.rs` and `toml_value.rs`.

Three decisions shape the library:

- Handlers, providers and renderers are known by a number. The library decides
  which of them runs, when, and with what; `app/` holds the code behind the
  number.
- What runs over time is a state machine. A step takes what happened and says
  what to do next, so that a contract can cover every order of events.
- What depends on the machine (environment variables, files, the time, replies
  of a server) is handed in as a plain value.
