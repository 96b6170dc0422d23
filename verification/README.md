# hosttui

A terminal UI to manage SSH hosts: browse them, organise them in groups, connect,
and transfer files. What the program decides and draws is a library that Verus
verifies.

- `src/` is the verified library.
  - `model`, `listing`, `form`, `app`: hosts and groups, the rows of the lists, the
    forms, and the state of the application.
  - `keys`, `handlers`, `runtime`: what keys, pasted text and the mouse do, and what
    is then to be done outside.
  - `filebrowser`, `sftp`, `transfer`, `paths`: the dual-pane file browser,
    connecting, and transfers as step-by-step machines.
  - `pty`, `screen`, `probe`: sessions, terminal queries, selections of text, and
    reachability checks.
  - `scene`, `panes`, `file_panes`, `dialogs`, `sizes`, `terminal_widget`, `ui`: what
    is drawn, as a list of commands.
  - `storage`, `ssh`, `error`: where and how the configuration is kept, and what
    `ssh` gets to see of it.
  - `laws`: what holds across several of these.
  - `text`, `order`, `seqs`, `search`, `input`: the ground that the others stand on.
- `app/` is the program around the library: the terminal, the processes in the
  sessions, the connections, and the files. It performs what the library asks for
  and hands back what came of it.
- `tests/` runs the library on concrete values.

Calls into other crates stand behind a few trusted functions and specifications.
Each says in its comment what it claims of the function that it calls.
