# GlimaNexus core

The verified core of GlimaNexus, a desktop app that manages dedicated game
servers on Linux machines over SSH. The library, written in Verus, holds the
rules and formats of the app; `app/` holds the I/O around it.

- `src/varint.rs`: the Minecraft VarInt encoding and an incremental reader.
- `src/mc_ping.rs`: the Server List Ping packets and the player counts of the
  status answer.
- `src/games.rs`: game templates, placeholder substitution, shell quoting.
- `src/provisioning.rs`: passwordless-sudo setup (a state machine), base
  packages, systemd units.
- `src/commands.rs`: every shell command run on a managed server.
- `src/paths.rs`: the checks that keep destructive commands inside one
  instance's directory.
- `src/status.rs`, `src/listing.rs`, `src/discovery.rs`: reading what the
  server answers (unit status, server.properties, versions, directory and
  backup listings, rediscovery of instances).
- `src/rediscovery.rs`: the rediscovery run as a state machine: which
  command to run next and what its output means.
- `src/naming.rs`: fresh instance ids (uuid) and time-stamped backup names
  (chrono), with what holds of every id and every stamp.
- `src/session.rs`: connect retries, command output, log lines.
- `src/text.rs`: character-level matching, splitting and number parsing with
  their meaning over `Seq<char>`.
- `src/json.rs`: the few JSON fields read through serde_json.

`app/` runs SSH (russh), TCP (tokio), SQLite (rusqlite) and the local system
monitor (sysinfo), and drives the library's state machines.
