# cliup

`cliup` updates a whitelisted set of macOS command line tools: global npm
packages, Homebrew formulae and casks, and tools with a trusted self-update
command. A launchd agent can run it daily.

The library (`src/`) holds the decisions, verified with Verus:

- `config`: the configuration model, validation, adding and removing packages.
- `paths`: the file layout under `~/.cliup` and `~/Library/LaunchAgents`.
- `update`: `cliup run` as a state machine; the caller performs its requests.
- `runner`: shell quoting, displayed command lines, the `PATH` given to
  external commands, and where a command is looked for.
- `launchd`: the wrapper script, the agent's property list, `launchctl` answers.
- `logging`: log lines and the tail shown by `cliup log`.
- `commands`: the texts and decisions of `add`, `remove`, `list`,
  `schedule` and `doctor`.
- `text`: whitespace, trimming, lines, numbers, padding and search.

`app/` is the command itself: argument parsing, the JSON configuration file,
the log file, processes and the terminal.
