# cc_statusline

A statusline renderer for a terminal coding assistant. It reads the
assistant's JSON status on stdin and prints up to three lines built from
format strings such as `'%m:cyan  %e  %cu'`.

The library in `src/` is written in Verus. Its own functions are verified
against their contracts; the few calls into other code are trusted, each
behind a contract that states only what that code documents: the US/Pacific
clock (`chrono-tz`), the local date (`chrono`), `char::is_alphanumeric`,
reading one string field of a JSON text (`serde_json`), and `String::push`.

- `format`: the format-string language (tokens, styled groups, `%%`, `\n`),
  rendering with empty-token space collapsing, and the final screen text.
- `color`, `ansi`: writing ANSI styles, and reading styled output back into
  spans (with the SVG pieces of the preview image).
- `bar`, `duration`, `peak`, `rate`, `tokens`: the text of bars, durations,
  the peak-hour countdown, rate-limit windows and the other tokens.
- `args`: command-line flags and retention durations such as `30d`.
- `state`, `git`, `input`, `settings`: session keys, token segments across
  compactions, pruning, day keys, the branch and `git diff --numstat` totals
  from git's output, context token counts, and the effort level of the
  settings text.

Laws that span several functions are public proof functions named `law_*`.

`app/` is the program around the library: reading stdin, the state file,
git and the environment, percentages and costs (floating point), the MCP
server and the preview-image generator. `tests/` runs the library on
concrete values.
