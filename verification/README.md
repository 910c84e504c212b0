# sdkman_cli_native

The native commands of SDKMAN! (`current`, `default`, `home`, `list`,
`uninstall`, `version`), with their rules proved in Verus.

- `src/` is the verified library. `path` models how a Unix path splits into
  components; `text` trims, splits, joins and orders strings; `helpers` holds
  the rules on candidates, version directories and the SDKMAN! home; `current`
  decides which version is current and what `uninstall` may remove; `listing`
  builds what `list` shows and asks the candidates service for; `switch` is the
  state machine that makes a version the default, and `switch_model` proves
  what every run of it does to the file system.
- `app/` is the program: argument parsing, the file system, the network and
  the terminal. It gathers what the library needs, and performs what it asks.
- `tests/` runs the library on concrete cases.
