# codex_mp

A local router and control panel that let Codex use the models of several providers and
several official accounts side by side.

The library under `src/` holds the rules: which requests are let in and where they go,
what crosses the border between the official service and a custom provider, how
providers, models, credentials and accounts change, how the router process is
supervised, and who may use the panel. Every function there has a contract that Verus
proves. The calls into other crates (URLs, JSON, digests, compression, password hashing
and the like) stand behind small trusted functions, each with a comment that says what
is taken on trust.

| Modules | What they hold |
|---|---|
| `text`, `search`, `time`, `json`, `json_text`, `http`, `urls`, `digest`, `compression`, `tokens` | Values and how they are read and written |
| `router_error`, `gate`, `registry`, `routes`, `ledger`, `history`, `bridge`, `compatibility`, `forward`, `multipart`, `pipeline`, `service` | The router |
| `providers`, `discovery`, `changes` | Providers, their models and their credentials |
| `supervisor`, `processes` | The router and the app-servers as processes |
| `account`, `records`, `accounts`, `saving`, `refresh`, `usage` | Official accounts, their tokens and their usage |
| `passwords`, `limiter`, `sessions`, `panel`, `panel_api` | The control panel |

`app/` is the ordinary Rust around the library: HTTP servers and clients, files, child
processes and the traits for the stores that a host program brings along. Work that
alternates with decisions (starting the router, changing a provider, reading the usage
of an account) is a loop there over steps that the library decides.

Times are counted in nanoseconds of a monotonic clock for sessions and login attempts,
and in seconds since 1970 for records.
