# kazane_game_launcher

A game launcher: it keeps a catalogue of games published on GitHub, installs
their releases, records what is installed, and starts and stops the games.

The crate is a Verus project.

- `src/` is the verified library: the records (`game_data`, `game_list`,
  `settings`, `release`), catalogue search and the search form
  (`game_list`, `search_input`), the launcher operations on game ids (`api`),
  the install decisions (`install`), the GitHub fetch protocol (`provider`),
  the runtime log (`logs`), the command line (`cli`), process paths
  (`process`), and the character-level text operations they share (`text`).
  Laws of the library (read after write on the installed record, install then
  uninstall, URL round trip, bounded retries and logs, search results) are
  proof functions beside the operations they speak of.
- `app/` is the program around it: JSON files and locks, HTTP requests,
  archives, processes, the window.
- `tests/` runs the library on concrete values.
