# joycast

Forwards gamepads, joysticks and other Linux input devices to another host. A client reads a
device and sends its events over Direct UDP or Iroh P2P; the server replays them on a matching
virtual `uinput` device. Clients are unknown until an administrator of the server approves them.

## Layout

- `src/` is the library, written in Verus. Everything that decides or computes stands here, with
  contracts that are proved:
  - `protocol`, `wire`, `frame`: the messages, their bytes and their frames on a stream;
  - `trust`: which clients are approved, and which wait for approval;
  - `history`: the servers that a client has connected to;
  - `device`, `codes`, `reconnect`: what a device is, which devices are offered, the virtual device
    that mirrors one, and how a device is found again;
  - `transport`, `keys`, `digits`: targets, Node IDs and keys;
  - `server`, `udp`, `stream`, `ack`: the server and its sessions;
  - `client`, `forward`: the client, its choices and its connection;
  - `exchange`: what a client and a server achieve together;
  - `service`: the systemd service;
  - `table`, `text`, `path`, `surroundings`, `clock`: what the others are built from.
- `app/` is the `joycast` program around the library: arguments, files, sockets and devices.
- `tests/` runs the library.

Functions marked `#[verifier::external_body]` call `postcard`, `hex`, `iroh`, `evdev`, `chrono` or
the standard library. Their contracts are what the proofs take for granted, and the comment above
each says what it claims.
