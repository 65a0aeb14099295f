# promptforge_workshop

The core of the PromptForge workshop server, verified with Verus: the vocabulary
that hosts share, the client side of the gateway, the model menu, the run event
log, and the driver of agent programs.

## Layout

- `src/` is the library. Every function states what it returns or changes, but
  for the methods that hosts implement; the public `law_*` proof functions state
  what holds across functions.
  - `untrusted`: the guard envelope around untrusted content, and the inventory
    of control markup that it defuses.
  - `models`, `tools`, `events`, `observe`, `cancel`, `wire`: identities,
    catalogs, runtime events, observations, cancellation.
  - `gateway`: requests, SSE decoding, and the bounded progress stream.
  - `binding`, `resolve`: the replaceable gateway endpoint, and how it is found.
  - `heartbeat`, `subscriber`, `status`: the background loops as state machines.
  - `menu`: the workbench snapshot and the per-profile model memory.
  - `log`: the append-only run event log and the framing of its file.
  - `agent`: tool and model scope, chat and infer rounds, and the driver.
  - `json`, `text`: values and texts that the rest is stated over.
- `tests/` exercises the library through its public interface.
- `app/` performs what the library decides: HTTP and WebSocket traffic, tasks,
  locks, files, and serialisation.

The calls into other crates stand behind a few small trusted functions, each
with a comment that says what is claimed of the call.
