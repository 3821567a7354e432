# RemCmd

The logic of an SSH and SFTP client: how connections are got ready and followed, how remote files are
browsed, edited and transferred, how profiles are kept, and what menus, dialogs and settings offer.
Its functions state what they return or change, and Verus proves it.

- `src/` is the verified library. `session_events`, `preparation` and `connection` follow a
  connection; `browser`, `session`, `sftp_flow`, `transfers` and `plans` deal with remote files;
  `profile_editor`, `profile_list` and `openssh_import` with profiles; `keyboard`, `menus`,
  `settings`, `window`, `accessibility` and `sftp_view` with what is shown. Laws that span functions
  are public proof functions beside them.
- `app/` is what surrounds the library: files on disk, sizes in pixels, localized texts, secrets, and
  the order in which the library's decisions are carried out.
- `tests/` runs the library on concrete values.

What the library takes from outside without proof stands in `local_path` and `text` (paths and texts
of the standard library), `text_format` (UTF-8) and `redaction` (the home directory).
