# cc_toolgate

A permission gate for shell commands. Given a command line, it decides
whether the command may run silently (ALLOW), needs the user's confirmation
(ASK), or is refused (DENY), and explains why.

The command line is parsed with tree-sitter's bash grammar and split into
segments joined by `&&`, `||`, `;`, `|` and `|&`. Control flow (`for`,
`while`, `if`, `case`, functions, subshells) is entered so that the commands
inside are judged, not the keywords. Command and process substitutions are
judged as command lines of their own. A command line is judged as strictly
as its strictest part.

Each command is judged by its command word: plain allow/ask/deny lists,
subcommand-aware rules for git, cargo, kubectl and gh (with subcommands that
are allowed only when required environment variables have required values),
and wrappers such as `sudo`, `xargs` or `env`, whose wrapped command is
judged and combined with the wrapper's own floor. Output redirection to a
file turns an ALLOW into an ASK.

## Layout

- `src/` — the library, verified with Verus.
  - `syntax`, `tree`, `redirect`, `subst`, `walk`, `walker`, `shell`: the
    syntax tree as plain values, output-redirection detection, substitution
    extraction, and the decomposition of a command line into segments.
  - `words`, `text`, `names`: shell word splitting, text helpers, and a
    sorted name-keyed map.
  - `context`, `rules`, `git`, `cargo`, `kubectl`, `gh`: what is known of one
    command, and the rules that judge it.
  - `segments`, `eval`: variables passed from segment to segment, the
    registry of rules and the evaluation of single commands and whole
    command lines.
  - `config`, `defaults`: the configuration, its overlay merge, and the
    built-in defaults.
  - `laws`: properties proved for every configuration and command.
- `app/` — the command-line program: reading the configuration files,
  the process environment and the command, and printing the decision.
- `tests/` — tests of the library.
