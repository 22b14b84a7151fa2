# flock

One web UI for a fleet of BirdDog PLAY decoders: a device registry with
tag-derived groups, per-device settings tabs read from and written to each
device's BirdUI pages, batch edits by group, LAN discovery, an optional
login, and a live SRT preview.

The library (`src/`) is written in Verus and proved against its contracts:

- `registry`, `device`, `vault` — the device list, its groups, password
  redaction, and passwords encrypted on disk and read back.
- `crypto`, `hex` — AES-256-GCM credential sealing and the stored format.
- `form`, `birdui` — turning BirdUI pages into settings and settings into the
  form a device accepts, leaving every field flock does not manage as it was.
- `api`, `auth`, `error`, `app_settings`, `config` — what each request does,
  the login guard and sessions, and start-up decisions.
- `discovery`, `preview`, `mock` — subnet sweep and result merging, the
  preview address, and a simulated device.
- `text`, `field_map` — strings and the field map the rest is stated over.

`app/` is the server around it: HTTP routes, files, the network, and the
outside crates' traits. `tests/` exercises the library from outside.
