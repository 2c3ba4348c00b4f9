# shlog

A graphical login greeter for greetd, with its logic verified by Verus.

- `src/` is the library. It takes and gives plain values, and does no input or output.
  - `login` is the login dialogue: a state machine with the text that it shows.
  - `keyboard` turns key codes into events of the dialogue.
  - `protocol` has the messages of greetd and their framing.
  - `greetd_client` is a login with the daemon as the graphical greeter does it, and `greet` the
    one on a console. `greetd` is a stand-in for the daemon.
  - `config` has the configuration and the colours in it.
  - `scene` draws the font atlas, lays texts out, and orders the rendering passes.
  - `display` finds the way to a screen (`setup`), chooses pixel formats (`formats`), and presents
    frames (`native`).
  - `devices` sorts device nodes, `web` is for the greeter in a web page, and `text` holds helpers.
- `app/` has the programs around the library: `fbdraw`, `greet` and `greetd`, and the web page.
- `tests/` runs the library.

What a module promises as a whole is stated in the proof functions whose names begin with `law_`.
