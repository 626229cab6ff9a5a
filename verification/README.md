# xjtuportal

Unattended login for the XJTU campus network portal, with the protocol logic
verified by Verus.

- `src/` is the verified library: configuration resolution, MAC
  normalization, session-list cleaning, the automatic-logout policy, the
  login flow as a state machine, the framing and encryption of the v3
  requests, redirect-URL construction and the table formatting of session
  lists. Calls into `aes`/`cbc`, `hex`, `serde_json`, `url`, `toml_edit`,
  `reqwest` (header validation) and `get_if_addrs` go through small trusted
  wrappers whose contracts are documented next to them.
- `app/` is the command-line program: argument parsing, reading and writing
  `config.toml`, HTTP requests, sockets, sysfs/`ifconfig` reads and the
  concurrency around them. It asks the library what to do at every step.
- `tests/` exercises the library on concrete values.
