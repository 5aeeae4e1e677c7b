# tmc

Timmy's Mail Console is a mail client for the terminal. It talks to a server over
JMAP, keeps a cache that can be read offline, filters mail by rules, expires mail by
retention policies, learns to tell spam from other mail, and offers the same
operations as a session of JSON lines on standard input and output.

## Layout

- `src/` is the library. Everything in it is verified with Verus: each function
  states in its contract what it returns or changes, and the functions named
  `law_...` state and prove what holds of several of them together.
  - `config`, `rules`, `pattern`: the configuration file and the filter rules.
  - `jmap`: the types of the protocol, the requests, and how answers are read.
  - `cache`, `backend`: what is kept of an account, the queue of changes that the
    server has not taken yet, and the tasks that work on both.
  - `compose`, `markup`, `joining`, `spam`, `td_fetch`: drafts, what is done to HTML
    before it is rendered and within which bounds it is, the spam model, and the
    protocol of the fetch service.
  - `tui`: keys, layout, views and the console that holds them.
  - `cli`: the session of JSON lines.
  - `text`, `data`, `json`, `sorting`: what the others are built on.
- `app/` is the program around it: arguments, files, network, threads, the real
  terminal, and the score of a message, which is floating point.
- `tests/` runs the library from outside.

## How the program and the library meet

The library does no input or output. Where a task needs some, it hands the program a
request and takes up again with the reply: `backend::tasks::Backend` for the work on
an account, which has a change stored before it is sent, `jmap::client::Fetch` for
redirections, `cli::CliState` for the session and `tui::console::Console` for the
terminal.

What the library takes from other crates without proof (regular expressions, JSON, the
rendering of HTML, base64, and a few functions of the standard library) stands behind
small functions marked `external_body` and declarations `assume_specification`, each
with a comment that says what is claimed of it.
