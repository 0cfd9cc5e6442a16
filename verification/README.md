# signal_serve

The verified core of a daemon that offers a Signal account over JSON-RPC, Server-Sent Events and
WebSockets. It decides what every request does and how every received message is shown. The shell
in `app/` talks to the network and to the store.

| Module | What it holds |
|--------|---------------|
| `json` | JSON values and their mathematical view |
| `codec`, `ident`, `clock`, `text` | Base64, UUIDs, timestamps and strings, with the trusted calls that they rest on |
| `contacts` | How an address finds a contact: by UUID first, by phone number second |
| `params`, `message`, `session` | Parameters, messages, and the stages of a request |
| `rpc` | The methods, and how a request goes on after each action of the shell |
| `state`, `byte_map` | Known phone numbers and attachments |
| `sse`, `ws` | The message listener, the event stream and WebSocket connections |
| `server`, `link` | The store URL, the health check, and the page for linking a device |
| `laws` | What holds of requests and messages as a whole |

A request is a state machine. `rpc::dispatch` gives a `Step`: either the answer, or a session and
the action for which it waits. The shell performs the action and calls `Session::step` with what
came of it. The listener works in the same way: `sse::run_message_listener` takes what came of the
last task, and says what to publish and what to do next.
