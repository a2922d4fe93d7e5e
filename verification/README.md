# proxy_common

The building blocks of a chained proxy, verified with Verus: addresses and
flows, the framing of datagrams, relays, the choice of a route, and the
bookkeeping around sessions.

- `src/` is the library. Nothing in it does input or output, reads a clock or
  waits: whoever owns the socket, the cipher or the clock hands the outcome in,
  or passes a closure. A procedure that alternates between waiting and deciding
  is a value with one method per event.
- `tests/` runs the library on concrete values, with a toy cipher.
- `app/` drives the library: sockets, tasks, configuration files, and what needs
  floating point.

Contracts that involve a closure are relations: they say which results are
possible, given what the closure may return. Laws that span several functions
are public proof functions next to the functions they speak of.

Two functions are trusted, both in `src/random.rs`: they draw from `rand`.
