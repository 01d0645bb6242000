# wgtui

`wgtui` (**w**in**g**et **TUI**) is a keyboard-driven terminal interface for the
Windows package manager `winget`: search, install, upgrade and remove packages,
and provision a machine from a declarative JSON manifest (packages and setup
scripts).

What the program decides is a verified library; what it does to the outside
world is a thin program around it.

## Layout

| Where | What |
|---|---|
| `src/app.rs` | the state of the interface, startup, results of background work |
| `src/keys.rs` | what every key does |
| `src/jobs.rs`, `src/action.rs` | the commands, as jobs made of steps, and what the steps report |
| `src/rows.rs`, `src/selection.rs`, `src/tab.rs` | filtering, marks and cursors, tabs |
| `src/view.rs` | the texts of every pane |
| `src/table.rs`, `src/winget.rs` | the tables `winget` prints, the command lines it is run with |
| `src/manifest.rs`, `src/package.rs`, `src/dirs.rs` | manifests, packages, where manifests are looked for |
| `src/command_line.rs` | command lines typed by hand |
| `src/bootstrap.rs`, `src/elevation.rs`, `src/windows_update.rs` | first run, admin warning, Windows Update |
| `src/laws.rs`, `src/key_laws.rs` | what holds of the interface as a whole |
| `src/text.rs`, `src/list.rs`, `src/key.rs` | texts, lists, key presses |
| `tests/` | the library run on concrete values |
| `app/` | `main`, processes, files, JSON, drawing, keyboard |

Contracts are stated over models: a text is a sequence of characters, a list the
sequence of what its items stand for, the state of the interface an `AppModel`.
`App::handle_key` says in one equation what a key press leaves behind and what
job it starts; `App::handle_action_result` says the same of a report from the
background.

## Keys

| Tab | Shows | Keys |
|---|---|---|
| **[1] Updates** | `winget upgrade` | `u` upgrade selected · `U` upgrade all |
| **[2] Search** | `winget search` | type + `Enter` to search · `i` install |
| **[3] Installed** | `winget list` | `u` upgrade · `r` remove · `R` refresh |
| **[4] Apps/Scripts** | the manifest | `i` install/run selected · `I` all · `r`/`R` remove · `F` other file |

In every list and in the file picker: `Tab`/`Shift+Tab`, `←`/`→` or `h`/`l` switch
tabs, `1`–`4` jump to one, `j`/`k` or `↓`/`↑` move, `PageUp`/`PageDown` scroll the
output, `Esc` quits. In every list also: `/` focuses the filter, `Space` marks, `a`
marks all, `Enter` shows details, `c` edits a command, `q` quits. In the file picker
`Enter` loads the file.

In the filter and in the command editor characters are text and `Esc` leaves the
input; from the filter `Tab`/`Shift+Tab` and `←`/`→` still switch tabs. `Ctrl+C` quits
from the inputs too. While a command runs every key is ignored, `Ctrl+C` included.
