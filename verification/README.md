# oak_app

The editing logic of a video editor, verified with Verus: the project graph
and its timeline edits, the dialogs and controls, and the choice of who maps
frames to the display.

## The library (`src/`)

Everything under `src/` is verified. Edits are planned on a graph of plain
values and come back as rows of the undo history: a name and its commands.
Commands that rewrite nodes are carried out by the library, which proves that
undoing them restores the graph; commands that reorder tracks are named for the
timeline module.

- Time: `rational`, `timebase`, `spans`, `time_laws`.
- The graph: `graph`, `queries`, `upstream`, `extent`, `list`, `text`,
  `number_text`, `errors`.
- Rows of the history: `commands`, `reversal`, `edges`, `markers`.
- Projects: `project`, `project_laws`, `library`.
- Clips: `placement`, `placement_laws`, `links`, `link_laws`, `clip_edits`,
  `moves`, `edit_laws`, `clipboard`.
- Transitions: `transitions`, `default_transition`, `wedges`,
  `transition_laws`, `transition_counts`, `transition_repeats`, `weaving`.
- Display mapping: `displaycolor`.
- Controls: `checkbox`, `combobox`, `value_controls`, `forms`.
- Dialogs: `preferences`, `keyboard_tab`, `search`, `export_dialog`,
  `proxy_dialog`, `project_properties`, `sequence_format`, `sequence_dialogs`,
  `small_dialogs`.

Contracts speak of models (`GraphModel`, `ComboModel`, ...), the views of the
executable types. What holds across several functions is stated in public
proof functions, whose names start with `lemma_`.

Floating-point values (playback speed, node positions) are carried as bit
patterns. Texts that depend on the language are passed in, or returned as keys.
The one thing taken on trust is the standard library's lower case of a text:
that it is a function of the text, and what it is of an ASCII text.

## The session (`app/`)

`app/` is ordinary Rust around the library: files and storage, the undo
history, floating-point ranges, and what each dialog shows. The timeline
module, the engine and the window toolkit are reached through traits.

## Tests (`tests/`)

The tests run the library on concrete projects and dialogs, with a small
stand-in for the timeline module.
