# mnestic

The logic of a long-term memory server, written in Verus: what each request asks of the engine,
what it is answered with, and the rules in between.

- `src/` is the library. Every function states in its contract what it does, and Verus proves it,
  but for the few small ones that call outside crates and say what they take for granted.
  The laws that tie functions together stand beside them as public proof functions: a container
  tag comes back from the scope it is parsed into, a filter and its form in the store select the
  same metadata, a rate limit is kept whatever the requests, an internal cause never reaches a
  client, an erasure never leaves a row that points nowhere.
- `tests/` runs the library on concrete values.
- `app/` is the server around it: the HTTP endpoints, the Postgres store, the worker and the
  operator commands. It performs what the library plans and hands back what came of it. The engine
  that extracts, embeds and recalls is supplied by the program that embeds the server.

Numbers with a fraction are not computed with in the library. A score is carried as its bits and
compared through them, and rate limits count whole parts of a token.
