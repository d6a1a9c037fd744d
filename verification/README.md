# Ferroma client

The core of the Ferroma desktop mail client, written in Verus: every function of the
library states what it does in `requires` and `ensures`, and Verus proves it. Of a random
number, which can be any, nothing is stated.

The library does no input or output. It decides and computes: it hands out the SQL
statements, the HTTP requests and the text to show, and takes back rows, answers and the
time. The shell around it runs the statements on SQLite, sends the requests, and talks to
the realtime socket.

- `src/` is the verified library; `src/lib.rs` lists its modules.
- `tests/` runs it on concrete values; `tests/cache.rs` runs its statements on a real
  in-memory SQLite database.
- `app/` is the command-line client: argument handling, the cache database, the HTTP
  transport, the socket, and the files of the attachment cache.

What the library takes from outside crates (JSON, dates, URLs, digests, Base64, random
numbers, UUIDs) stands behind small wrappers, each with a doc comment that says what is
claimed of the outside function.
