# network_engine

A component for the 1C platform that sends HTTP requests in the background. The host
pushes batches of tasks, fetches the results as often as it likes, and confirms those
that it has stored; only then, or when they have grown too old, are they forgotten.

- `src/` is the library, verified with Verus: the queue and the store of results
  (`cache`, `queue`, `storage`), what the host calls (`addin`, `parser`, `json`), what is
  sent and kept for a task (`http_engine`), the setup of certificates (`https`, `pem`), saving
  and pinging (`utils`). `laws` states what holds across calls.
- `app/` is the component itself: the platform's interface, the engine's thread, files
  and the network.
- `tests/` runs the library with the outside crates linked.
