# xlauchez

The verified core of a Minecraft launcher, written in Verus.

- `src/` is the library. Its functions are verified, except seven small
  wrappers marked `#[verifier::external_body]` around calls into `std` and
  `dirs`, whose contracts are trusted (their doc comments say what each
  claims):
  - `config`: settings, accounts and profiles, the directories derived from
    the game directory, and the edits the launcher's commands make
    (add, remove, activate, replace by id), with the laws that keep the active
    account and profile pointing at existing entries (`keyed`).
  - `auth`: offline accounts, and the Microsoft device-code sign-in: the forms
    sent, the meaning of each token answer, and the Xbox Live → XSTS →
    Minecraft exchange as a state machine (`AuthFlow`).
  - `minecraft`: version metadata and library rules, asset locations, and the
    command line that starts the game.
  - `theme`: built-in themes (with a model of the disk on which setting
    them up twice changes nothing and never overwrites a file), paths inside
    a theme, Base64 data URIs for backgrounds (with the padding and
    round-trip laws of the encoding), and the order of the theme list.
  - `text`, `paths`: string helpers with their specifications, and the few
    calls into `std` whose results the contracts state or name (for a plain
    path component, what `Path::join` and `Path::parent` do with it).
- `app/` is the plain Rust around it: HTTP with `reqwest`, files and
  processes with `std` and `tokio`, JSON with `serde`, and the commands the
  front end calls.
- `tests/` runs the library on concrete values.
