# raccoon

A read-only Git diff viewer for the terminal. The library under `src/` holds
the viewer's logic (diff parsing, the Git commands and how their outputs are
read, themes, navigation and the event steps, and the placing of syntax
highlighting), with its behaviour stated in contracts and proved by Verus.
`app/` is the program around it: the command line, the terminal, Git
processes, files, threads, the change tree's drawing, and the rest of the
drawing. What syntect's parser and scope selectors answer is named in the
contracts (the parse of a line given the syntax and the lines before it,
and whether a selector matches a stack of scope names); from those the
library's contracts say when highlighting succeeds and which token each span
carries: that of the first selector matching the scopes where it starts.

## Library modules

- `cli`: launch targets from command-line arguments.
- `diff`: unified-diff parsing into line kinds, line numbers and file paths.
- `dashboard`, `git_diff`, `repository`: the Git commands the viewer runs and
  how their outputs become history, branches, changes and diffs.
- `highlight`: syntax highlighting of diff lines with `syntect`.
- `theme`, `config`: colors, theme files, the theme catalog and its selection.
- `state`, `viewer`, `change_tree`: navigation state, focus, scrolling,
  searching and the order of the change tree.
- `session`: key presses and Git answers as steps of the viewer's state.
- `worker`: the messages exchanged with the Git and highlighting threads.
- `path`, `bytes`, `order`, `file_icon`, `clipboard`: byte paths, byte
  strings, orderings, file icons and the OSC 52 clipboard sequence.
