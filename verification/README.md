# spool_core

The decision-making core of the Spool game launcher, written in Verus: every
function in `src/` carries a contract that Verus proves.

- `src/` — the verified library. Cross-device save sync over an rclone remote
  (`rclone`, `definitions`, `sync`), the launch workflow's decisions (`runner`,
  `session`, `process`, `relay`), Proton and umu-launcher setup (`proton`), save-path
  redirects between Windows and Proton prefixes (`redirects`, `save_template`),
  Steam integration (`steam`, `steam_collections`, `steam_cdn`,
  `steam_process`, `art`, `steamgriddb`), streaming hosts, the LAN proxy guard
  and URL checks. Calls into `chrono`, `blake3`, `url`, `urlencoding`,
  `base64`, `image` and `steam_shortcuts_util` go through small trusted
  wrappers whose contracts are stated next to them.
- `tests/` — tests of the library on concrete values.
- `app/` — a thin command-line program around the library: it reads and writes
  files, runs `rclone`, and converts JSON and YAML into the library's types.
