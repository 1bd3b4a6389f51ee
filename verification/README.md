# opus_api

The gateway in front of a fleet of agents: client keys and scopes, rate limits,
pairing, session requests, the WebSocket bridge, voice, and the hub of watched
services.

- `src/` is the library, verified with Verus. It decides: which key opens what,
  which request goes upstream and in what form, what an answer reads as, and
  which error a client is shown. Each public function says so in its contract;
  the laws that span functions stand at the end of each module.
- `app/` performs: the HTTP server and clients, the socket loop, the SQLite file,
  and the command line. It hands plain values to the library and acts on what it
  answers.
- `tests/` runs the library on concrete values.

What the library takes from `serde_json`, `sha2`, `subtle`, `getrandom`, `bytes`,
`time` and `http` goes through a few trusted items, each next to the code that
calls it, with a comment on what is believed of it.
