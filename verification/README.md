# wifi_billing_backend

Backend of a WiFi hotspot billing service: users sign up with a phone
number, buy time or bandwidth packages, and their devices are admitted by a
RADIUS server that answers MikroTik access points.

`src/` is the library, written in Verus and verified:

- `radius/packet.rs` reads and writes RADIUS packets, with the laws that
  reading written bytes gives the packet back and writing a read packet gives
  the bytes back;
- `radius/server.rs` classifies requests, walks the device, user, quota and
  package lookups of an Access-Request and builds the replies;
- `utils.rs` validates and normalizes usernames, passwords, phone numbers and
  MAC addresses, hashes passwords with Argon2id, makes one-time passwords and
  HMAC-SHA256 signed session tokens, with the law that a token reads back as
  its user until it expires a day later;
- `api.rs` holds the decisions of the HTTP handlers and the database layer:
  sign-up checks, the login steps, and one-time password checks with the law
  that three wrong codes lock a code;
- `config.rs`, `error.rs`, `models.rs` hold the configuration, the error kinds
  with their HTTP form, and the records;
- `text.rs`, `codec.rs`, `pattern.rs`, `crypto.rs` hold text helpers and the
  calls into the standard library, `regex`, `base64`, `serde_json`, `uuid`,
  `argon2`, `hmac`, `sha2`, `rand` and `chrono`.

`app/` is the program around it: the axum routes, the sqlx queries, the UDP
socket of the RADIUS server and process setup.
