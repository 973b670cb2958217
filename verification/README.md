# hook-core

The decision-making core of matrixHook, a webhook bridge for Matrix: any user sends
the bot a direct message, creates a named hook, and receives its id; posting to the
hook's URL delivers the message into the room where the hook was created.

- `src/` is the library. It performs no input or output, and Verus verifies all of it
  but the fourteen items at its edges that are taken on trust (below). Operations that
  alternate with work on the homeserver or the database are state machines; the proof
  functions named `law_…` state what holds of every run.
- `tests/` exercises the library from outside.
- `app/` holds the three programs around it: `hookd`, the service; `hook-admin`, which
  bootstraps the bot account; and `fake-human`, an end-to-end self-test.

Taken on trust are nine functions. Six call outside crates: for random numbers
(`rand`), HMAC-SHA1 (`hmac`, `sha1`), hexadecimal (`hex`), JSON (`serde_json`) and, twice,
Matrix identifiers (`matrix-sdk`). Three are functions of the standard library:
`String::push`, `str::to_lowercase` and `String::from_utf8_lossy`. The doc comment of
each says what its contract claims. Five of them have a name beside them, a spec
function without a body, for a result that would take pages to state.
