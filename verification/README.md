# sebeke

A relay between a Zenoh bus and serverless workers, with the nodes that use it.
The library under `src/` is verified with Verus.

| module | what it holds |
| --- | --- |
| `text`, `wildcard`, `pattern` | strings, topic patterns and the expressions they become |
| `resolver`, `resolver_laws` | the address that a topic has under a pattern |
| `config`, `registry`, `requests` | settings, the maps and the cache, requests to workers |
| `egress`, `ingress` | where samples are forwarded to, and what becomes of messages from workers |
| `http`, `worker`, `relay_laws` | the relay that workers call back, and the one that asks them |
| `joining`, `node`, `codec`, `tunnel` | how nodes join, find topics, encode, and open a tunnel |
| `camera` | frames of an image, a video or a camera |
| `chat`, `chat_view`, `tui` | two chat nodes and what they show |

`app/` holds the programs: input and output, the bus, the web and the terminal.
`app/main.rs` takes the name of a program: `camera`, `chat` or `board`.
