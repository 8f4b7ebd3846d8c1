# tokyo_relay

A verified library with two programs around it.

- The relay keeps five WebSocket connections to the Binance futures book ticker of one symbol,
  lets each update id through once, and sends one 72-byte UDP packet per update.
- The race opens connections to four spot endpoints and finds out which one delivers each update
  first.

`src/` holds every decision, with contracts that Verus proves: parsing of payloads, the packet
layout, the filter on update ids, the latency statistics and the check for a slow connection, the
readers' and processors' state machines, and the scoring of the race. Public proof functions
named `law_..` state what holds of the library as a whole.

What the library takes from `serde_json`, `chrono` and `std` on trust stands in functions marked
`external_body`; the doc comment of each says what is claimed.

`app/` holds the sockets, tasks, files and clocks, and what is floating point: prices and sizes
that come as text, and the rates in the reports. The binary is the race where it is called
`tokyo_spot_race`, and the relay under any other name.

`tests/` runs the library on concrete values.
