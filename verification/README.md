# archeio

The broadcasting logic of Archeio — a hotkey that streams the desktop to a private
YouTube live broadcast — as a Verus-verified library, with the Tauri desktop shell
around it.

- `src/` — the verified library:
  - `library.rs`: the log of past broadcasts (newest-first listing, row updates, removal,
    recovery of unfinished rows);
  - `supervisor.rs`: the running/idle slot, titles, the ingest address, watching the
    encoder and tidying after it;
  - `oauth.rs`: account status, token expiry and refresh, the consent URL, the loopback
    redirect (request path, query parameters, HTML escaping, the reply);
  - `youtube.rs`: API request URLs, how answers are read, provisioning roll-back, title
    checks;
  - `ffmpeg.rs`: binary choice, encoder choice, the command line, the version line;
  - `http.rs`, `url.rs`, `time.rs`, `text.rs`, `error.rs`, `hotkey.rs`, `tray.rs`:
    status codes and the loopback reply, percent-encoding, UTC instants, string
    building blocks, errors, the hotkey and the tray menu.
- `app/` — the Tauri program: windows, tray, global shortcut, processes, HTTP, the
  credential store and the JSON files, calling the library for every decision.
- `tests/` — tests of the library on concrete values.
