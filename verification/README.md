# solicit_mio

HTTP/2 on an event loop, at the end of the client.

`src/` is the library. It never touches a socket: a connection is told what became of its socket,
and answers with what is to be done next. What it does with the bytes is stated in the contracts
of its functions and proved by Verus.

* `evtloop`, `connection`, `dispatcher`: connections driven by readiness events, and the protocols
  that are spoken on them
* `frames`, `header_block`, `delegate`, `session`, `h2`: HTTP/2, with the session kept by
  `solicit`
* `stream`, `h2o`, `simple`: streams without framing, and the least that a protocol can do
* `request`, `response`, `client`, `reader`, `future`, `channel`: what other threads get to see
* `laws`: what holds of the library as a whole

`app/` runs the library on an event loop of `mio`. `tests/` holds its tests.
