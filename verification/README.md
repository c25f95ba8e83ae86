# Mediary plugins

Two plugins for Mediary, as a verified library and a small program around it.

- **DC helper** (`dockercopilot-helper`): talks to Docker Copilot. It reports which
  containers have an update, updates the chosen ones, removes images that no
  container uses and that have no valid tag, and backs up container settings.
- **Coming series on Douban** (`douban-coming`): reads a feed of coming series,
  resolves those that enough people want to watch, subscribes to them shortly
  before they air, and reminds the user once.

## Layout

- `src/` is the library, verified with Verus. `src/dc/` and `src/douban/` hold the
  two plugins; beside them stand text, JSON, settings and the clock.
- `src/dc/auto_update.rs` and `src/douban/refresh.rs` are chains of steps: each step
  names one request to make and holds what goes on once the reply is there. The
  laws at their end hold whatever the replies are.
- `src/dc/run.rs` joins the parts of the DC helper to whole runs.
- `app/` makes the requests, keeps the files and runs the chains.
  `app/dockercopilot_helper.rs` and `app/douban_coming.rs` are the two programs;
  `app/main.rs` holds both and runs the one whose name it is installed under.
- `tests/` runs the library on given values.

What the library takes from `serde_json`, `chrono`, `regex`, `quick-xml`, `url`,
`base64` and `hmac` without proof is written down at each call.
