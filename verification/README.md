# bugs

Bugs is an AI-agent runtime: an "Overmind" that splits a request into
sub-tasks, a priority scheduler that hands them to sub-agents, scenes that
group memories by working context, model providers reached over HTTP, a
browser module, a WeChat channel, and terminal, web and command-line front
ends talking to one daemon.

## Layout

- `src/` — the library, written in Verus. Every function carries a
  `requires`/`ensures` contract over mathematical models (`Seq`, `Map`,
  `Multiset`, spec functions) and is proved. Highlights:
  - `scheduler` — five priority buckets, FIFO within a bucket, aging that
    never loses or invents a task (the multiset of pending tasks is kept);
  - `models`, `daemon`, `wire` — the provider registry, the registration
    of providers from the environment, request preparation, the fields of
    each provider's request bodies and answers;
  - `stream` — server-sent event parsing; cutting a stream anywhere yields
    the same events;
  - `scene`, `memory`, `persistence` — scene switching, memory routing and
    visibility, storage file names (which read back to the scene id),
    record keys and counts (a count written reads back the same), and the
    compression of stored records;
  - `tui`, `cli`, `web`, `mcp`, `lsp`, `weixin`, `browser`, `chromium`,
    `skill`, `tools`, `search`, `security`, `html`, `text` — the decisions
    and text handling of the front ends, channels and tools.
- `app/` — ordinary Rust around the library: the `bugs` program, HTTP
  servers and clients, terminal drawing, process and file I/O, and the
  floating-point trust and meditation logic.
- `tests/` — tests of the library's public functions.

## Scope

- The provider registry fills itself from the environment for the
  providers that `models` lists. Google, Cohere, Baichuan, Tencent and
  BytePlus are not among them: their endpoints, request formats and model
  names are not described here.
- Aging promotes waiting tasks of every level, Background included: a
  Background task that waited too long moves up to the Low level.
