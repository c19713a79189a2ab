# dsh_desktop

The decisions behind a desktop window around `dsh web`, verified with
[Verus](https://github.com/verus-lang/verus), and a Tauri program that carries them out.

- `src/` is the library. Every function in it has a contract, and Verus proves it, but
  for the small wrappers around what comes from other crates and from std (JSON from
  `serde_json`, URLs from `url`, text out of bytes, lower case): Verus believes their
  contracts, and each says in its comment what it claims of which function.
- `tests/` runs the library on concrete values, against the linked crates.
- `app/` is the program: windows, processes, files, sockets and the network. It asks the
  library what to do next, does it, and reports back.

| module | what it decides |
|---|---|
| `text`, `scan`, `decode`, `ansi` | cutting, searching and decoding text |
| `version`, `version_laws`, `check` | which version is newer, and what a channel offers |
| `channels`, `json` | which channel is followed, and how that is remembered |
| `address`, `log` | the address of the GUI, and what the backend's output says |
| `boot`, `process`, `home` | starting, watching and ending the backend |
| `upgrade`, `shell_update`, `dialog`, `tray_check` | moving dsh and the shell to another version, with the user's consent |
| `status`, `theme`, `tray` | what the page, the window and the tray show |

Decisions that alternate with outside work are small machines: `boot::BootStep`,
`upgrade::UpgradeStep`, `tray_check::DshTrayStep`, `tray_check::ShellTrayStep`,
`check::Inquiry` and `process::KillStep` each say what to do next, and take what came of
it. What holds of every run of one is a `law_` proof beside it.
