# prodtunnel

A desktop manager of SSH SOCKS tunnels: add a host, flip a switch, and get a local
`socks5://127.0.0.1:<port>` proxy tunneled through SSH, with optional static port
forwards and jump tunnels.

- `src/` is the library, verified with Verus: the tunnel model and its database rows,
  the known-hosts trust store (trust on first use, after an explicit confirmation; a
  known host is checked on every connect and a different key is rejected), the
  settings, the jump-chain walk and the other connection decisions, the state machine of
  a running tunnel, the tray menu, and the byte counting of streams.
- `app/` is the Tauri application around it: the commands, SQLite, the OS credential
  vault, the settings and known-hosts files, and the SSH sessions (russh, fast-socks5).
- `tests/` exercise the library on concrete values.
