# sherlock

The core of the Sherlock application launcher, verified with Verus.

- `src/` is the library. Each public function states in `requires` and
  `ensures` what it does, over spec functions on sequences, maps and
  integers, and Verus proves it. Among its modules: `config` (flags, the
  settings file, help text), `lock` and `daemon` (single instance, the
  length-prefixed socket protocol), `pipe` (piped content), `loader`
  (launcher configurations and their order), `attrs` (what activating a
  row does), `nav` (list and grid navigation, emoji filtering), `search`
  (fuzzy matching), `desktop` and `app_dirs` (desktop entries), `process`,
  `counter`, `calc`, `weather`, `events`, `bookmarks` and `api` (the request
  queue of the window).
- Public proof functions (`lemma_*`) state properties that span several
  calls, such as that a framed message reads back as it was written, or
  that ordering the launchers keeps every one of them.
- A few calls into other crates (`regex`, `glob`, `levenshtein`) and into
  `std` stand behind small trusted wrappers whose contracts say what their
  documentation promises.
- `tests/` runs the library on concrete values.
- `app/` is the command-line front end: it reads the arguments, standard
  input and the settings file, takes the lock, and talks to a running
  daemon, leaving each decision to the library.
