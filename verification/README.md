# raid_planner

The planning logic of a raid planner's web interface, verified with Verus.

- `src/` is the library. Every function there carries a contract that Verus proves:
  the planner's state (characters, their spells and assignments to a boss's attacks,
  locking, suggestions), the fights' timelines, the timer inputs, the autocomplete
  and search fields, the character headers, the grid's layout and the icons' looks.
  Public proof functions named `law_*` state what holds across calls.
- `app/` is the browser side: Leptos components that keep the library's state in
  signals, read the page, and hand clicks and keys to the library.
- `tests/` runs the library on concrete values.
