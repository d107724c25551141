# grabbit

Clipboard and file sharing between devices on one local network.

- `src/` is the verified library (Verus): which clipboard text names a file
  and what kind of file it is (`clipboard`, `path`, `text`), base64 and hex
  (`codec`), compression, keys and chunked AES-256-GCM sealing and opening
  (`security`), history records (`storage`), the state of the user
  interface and how each action changes it (`gui`), and the HTTP responses
  of the local server (`network`).
- `app/` is the program around it: the clipboard watcher loop, the history
  file on disk, the TCP server and the iced window.
- `tests/` run the library on concrete values.
