//! The editing core of the Oak video editor: the timeline graph and its
//! undoable edits, the display colour policy, and the state behind the
//! dialogs and controls.

pub mod checkbox;
pub mod clip_edits;
pub mod clipboard;
pub mod combobox;
pub mod commands;
pub mod control_laws;
pub mod default_transition;
pub mod dialog_laws;
pub mod displaycolor;
pub mod edges;
pub mod edit_laws;
pub mod edit_outcomes;
pub mod errors;
pub mod export_dialog;
pub mod extent;
pub mod forms;
pub mod graph;
pub mod graph_outcomes;
pub mod keyboard_tab;
pub mod library;
pub mod link_laws;
pub mod links;
pub mod list;
pub mod markers;
pub mod measures;
pub mod move_outcomes;
pub mod moves;
pub mod number_text;
pub mod placement;
pub mod placement_laws;
pub mod placement_outcomes;
pub mod preferences;
pub mod project;
pub mod project_laws;
pub mod project_outcomes;
pub mod project_properties;
pub mod proxy_dialog;
pub mod queries;
pub mod query_laws;
pub mod rational;
pub mod redo_laws;
pub mod refusals;
pub mod reversal;
pub mod search;
pub mod sequence_dialogs;
pub mod sequence_format;
pub mod small_dialogs;
pub mod spans;
pub mod text;
pub mod text_laws;
pub mod time_laws;
pub mod timebase;
pub mod transition_counts;
pub mod transition_laws;
pub mod transition_outcomes;
pub mod transition_repeats;
pub mod transitions;
pub mod upstream;
pub mod upstream_laws;
pub mod value_controls;
pub mod weaving;
pub mod wedges;
