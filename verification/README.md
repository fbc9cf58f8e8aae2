# issuegator

GitHub issue explorer for the terminal, with a verified core.

From a Git repository whose remote `origin` is on GitHub, it lists the issues with `gh`, filters
them as you type, shows the selected one, and prints the address of the one you choose.

## Layout

- `src/` is the library, verified with Verus:
  - `chars`: texts as sequences of characters
  - `remote`: the repository that a remote's address names
  - `model`, `load`: issues, what `gh` is asked, and what becomes of its answers
  - `filter`: which issues a query keeps
  - `details`: the selected issue, and details that come later than the issue
  - `layout`, `screen`: where the panes stand and what they show
  - `search`: the search line and the keys that edit it
  - `explorer`: the state of the explorer and what each event makes of it
  - `laws`: what holds of the explorer, whatever happens to it
- `app/` is the program around it: the terminal, the processes, the threads, and the JSON.
- `tests/` runs the library.

The functions that call `ratatui`, `tui_input` and the parts of `std` without a specification are
marked `external_body`; the comment above each says what is taken from it without proof.

## Queries

Words are separated by white space, and an issue must match all of them. A word that starts with `#`
asks for a number or a label, one that starts with `@` for an author or an assignee, and any other
one for a title, a number, a label or a body. Which texts a word matches is a function that the
program hands in.

## License

MIT
