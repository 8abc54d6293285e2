# windows-toolbox

The verified core of a Windows desktop toolbox (file locks, ports, processes,
DNS, ping, TCP probe, MTR and TCP/UDP/serial debugging), written in Verus.

- `src/` is the library: domain models and their validation, payload codecs,
  the bounded communication log, start-up argument parsing, the hand-over of
  an invocation to a running instance, the choice among resolved addresses,
  the process tree, diagnostic redaction and log rotation, settings paths
  and load outcomes, and the decisions of the background workers and communication sessions.
  Verus proves every function against its contract, except the few
  wrappers of std calls (channels, clock, string decoding) whose contracts
  are trusted; they are marked `external_body` and say what they claim.
- `tests/` exercises the library on concrete values.
- `app/` is the program around the library: the diagnostic log files, the
  settings file, the session threads with their sockets and serial ports,
  and the worker pool.
