# portal-server-agent

The game-server half of the portal's MatchZy integration, verified with
[Verus](https://github.com/verus-lang/verus). It runs on a CS2 host beside
MatchZy, keeps an outbound mTLS WebSocket to the portal, and executes
match-setup commands via RCON on localhost.

`src/` is the verified library; `app/` is the program around it, with the
sockets, files, processes, logs and metrics; `tests/` run the library.

| Module | What it holds |
|---|---|
| `refusal` | which raw console commands are refused, and why |
| `command` | command frames as scripts of console commands |
| `execution` | running a script and answering its frame |
| `rcon` | Source RCON packets and sessions |
| `heartbeat` | what a heartbeat carries, and its bounds |
| `run` | events of a connection, and the backoff between connections |
| `connect` | the WebSocket request and the credentials that go with it |
| `tls` | the TLS client configuration |
| `enroll` | keys and signing requests, the files they lead to, renewal |
| `protocol`, `text` | outgoing JSON fields; strings as sequences of characters |

The properties that hold across functions are stated as proof functions whose
names begin with `law_`.

## Protocol

Portal → agent: `{id, cmd: load_match|end_match|exec|status|load_backup|roster_edit, args}`.
Agent → portal: `{id, ok, output|error}` plus
`{type: "heartbeat", agent_version, rcon_ok, get5_status, status_output}`, where
`status_output` is the raw output of CS2's `status`, bounded to 8 KiB.

`exec` runs one console command per frame. Anything with `;` or a control
character in it is refused with `{ok: false, error: "refused: …"}`, and so is a
command whose verb is portal-owned, could hide another command, or would end
the server process.
