# ped

PED turns a jailbroken Kindle into a dedicated web display: Servo renders a
page on the CPU, and each new frame is turned to grayscale, diffed against the
last one, rotated into the panel's orientation and refreshed onto the e-ink
panel with FBInk.

This crate is the verified core of PED, written in Verus:

- `display`: rectangles, orientations, grayscale frames and their changed
  regions, rotation onto the panel, the refresh scheduler, commit plans.
- `pipeline`: frames on their way to the panel, and the page's Kindle API
  (refresh requests, pacing, telemetry queries).
- `commands`, `control`: the control socket protocol and what each request
  does to the runtime.
- `config`: configuration defaults, validation, origin policies and live
  reloads.
- `static_server`: routing, path decoding and headers of the loopback file
  server.
- `kindle_lifecycle`, `entropy`, `device`: decisions around taking the
  framebuffer over, kernel entropy and telemetry.
- `memlog`, `cli`: the memory logger and the control client.
- `wrappers`: the calls into `std`, `url` and `serde_json`, with the
  contracts they are trusted to meet.

`app/` holds the programs around it (Servo, sockets, files, FBInk, the
Kindle's commands); `tests/` holds the tests.
