# zmux

The client of a terminal multiplexer, as a library whose functions are proved with Verus to do what
their contracts say.

- `src/` is the library. It decides: how keys, the mouse, frames and answers change the client
  (`client/`), what is drawn (`panels`, `paint`, `draw`, `ansi`), where (`geometry`, `frame`,
  `visual`, `selection`), what is sent to servers (`wire`, `socket`, `ssh`, `keys`), and how copy
  mode works on a pane's text (`copy_mode/`).
- `tests/` runs it on concrete values.
- `app/` is the program around it: sockets, threads, the terminal, files and processes.

Contracts are stated over views. The view of a client is `ClientV`, and each of its methods is
equal to a function on it: `Client::on_key` to `keyboard::on_key`, `Client::on_mouse` to
`mouse::on_mouse`, and so on. What holds across several calls is stated by the proof functions
whose names begin with `law_`.

What comes from other crates stands behind functions marked `external_body`, whose contracts are
believed: `base64`, `ratatui`, `regex`, `serde_json`, `unicode-width` and `vt100`.
