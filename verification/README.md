# famp

The local-bus FAMP command line, with its logic verified by Verus.

`src/` is the library; every function in it carries a contract that Verus
proves:

- `install/`: merging the FAMP entries into host configuration documents
  (JSON settings, Codex `config.toml`), pruning FAMP-owned Stop hooks, the
  Codex hook identity hash and trust entries, the Grok hook file, and the
  hook-script template token.
- `hook/`: the Stop hook's decisions: listen-mode replay over a transcript,
  the pid fallback, the singleton lock, the wake notification and block
  decision, locating a Codex rollout, and the Codex Stop hook's sequence as a
  step function from phase and event to next phase and action.
- `daemon/`: the launchd plist and systemd unit, and the status, install and
  restart decisions.
- `inspect/`: wake readiness and the inspector's tables.
- `executable.rs`, `identity.rs`, `init.rs`, `config.rs`, `await_cmd.rs`,
  `mailbox.rs`, `bus.rs`, `duration.rs`, `info.rs`: resolving the FAMP
  binary, the active identity, the FAMP home, the peers registry, await
  output, mailbox draining, framing, durations and the peer card.
- `json.rs`, `toml_tree.rs`, `members.rs`, `text.rs`: the document trees and
  text operations the rest is stated over.

The calls into `serde_json`, `toml`, `sha2`, `base64`, `time` and
`humantime`, and into the few `std` functions Verus has no specification
for (`String::push`, `str::to_lowercase`, `String::from_utf8_lossy`), are
the only trusted items; each states what the library relies on.

`app/` is the command-line program around the library: argument parsing,
reading and writing files, running the service manager, and running
the Codex Stop hook's sequence (`famp hook codex-stop`).
