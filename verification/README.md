# mds

`mds` is a command line tool for a collection of markdown notes: it creates notes and tags,
links them together (the links live in a sqlite database beside the notes), and lets one
explore them, open the `[description](links)` and code blocks found inside them, jump to
those places in an editor, and toggle their `- [ ]` task items, all through `skim` screens.

## Layout

- `src/` is the library, verified with Verus. Each public function states in its contract
  what it returns or changes.
  - `lines`: the editor position (line and column) of a byte of a text.
  - `text`: the string operations the rest is built on.
  - `print`: terminal colors and the two-token messages.
  - `config`: the configuration, read from a KDL document (`node`, `read`): commands with
    placeholders (`cmd_template`), regular expressions (`surf_parsing`), colors and the
    keymaps of the screens (`keymap`).
  - `task_item`: task items of a note, their display, and toggling them in the note's text.
  - `link`: reference links and code blocks of a note, their destinations, and how they are
    previewed, opened and jumped to.
  - `note`: notes and tags, their previews (`details`), the trees of their task items and
    links built over the link graph (`tree_build`, `task_tree_build`: sections first, links in
    reverse order, notes met again as cycles), and the search for the notes reachable from
    one.
  - `external_commands`: the preview commands with their placeholders filled in.
  - `skim`: what leaving each screen with a given key means.
- `app/` is the program around the library: the command line, reading the configuration
  file, the database (it fetches the link graph that the trees are built over), syntax
  highlighting, the `skim` screens and running external commands.
- `tests/` exercise the library on concrete values.
