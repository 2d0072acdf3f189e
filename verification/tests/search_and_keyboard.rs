//! The action search and the keyboard tab.

use oak_app::keyboard_tab::{
    capture_decision, ActionPath, CaptureDecision, CaptureStep, FieldText, KeyboardEvent,
    KeyboardStatus, KeyboardTabContent, ListEntry, RowText,
};
use oak_app::search::{
    any_holds, keyboard_filter_matches, search_filter_matches, selection_step, ActionSearchContent,
    ActionSearchEvent, ActionSearchItem,
};

#[test]
fn capture_decision_handles_all_shapes() {
    assert!(matches!(capture_decision("escape", "escape"), CaptureDecision::Cancel));
    assert!(matches!(capture_decision("backspace", "backspace"), CaptureDecision::Clear));
    assert!(matches!(capture_decision("delete", "delete"), CaptureDecision::Clear));
    // Bare modifiers never bind.
    assert!(matches!(capture_decision("shift", "shift"), CaptureDecision::Ignore));
    assert!(matches!(capture_decision("control", "control"), CaptureDecision::Ignore));
    assert!(matches!(capture_decision("alt", "alt"), CaptureDecision::Ignore));
    // A real key becomes the canonical binding.
    match capture_decision("s", "ctrl-s") {
        CaptureDecision::Assign(canon) => assert_eq!(canon, "ctrl-s"),
        other => panic!("expected assign, got {other:?}"),
    }
}

#[test]
fn keyboard_filter_matches_name_path_and_shortcut() {
    assert!(keyboard_filter_matches("Save Project", "File", Some("⌘S"), "save"));
    assert!(keyboard_filter_matches("Save Project", "File", Some("⌘S"), "file > save"));
    // Shortcut matching is case-insensitive.
    assert!(keyboard_filter_matches("Save Project", "File", Some("⌘S"), "⌘s"));
    assert!(!keyboard_filter_matches("Save Project", "File", Some("⌘S"), "undo"));
    // Empty query matches everything; rows without a shortcut match only by
    // name and path.
    assert!(keyboard_filter_matches("About Oak…", "Help", None, ""));
    assert!(keyboard_filter_matches("About Oak…", "Help", None, "help"));
    assert!(!keyboard_filter_matches("About Oak…", "Help", None, "⌘"));
}

#[test]
fn search_filter_matches_label_or_path() {
    let label = "New Project";
    assert!(search_filter_matches(label, "File", "new"));
    assert!(search_filter_matches(label, "File", "file > new"));
    assert!(!search_filter_matches(label, "File", "undo"));
    assert!(search_filter_matches(label, "File", ""));
}

#[test]
fn lower_case_is_compared_on_both_sides() {
    assert!(search_filter_matches("ÉCRIRE", "Fichier", "écr"));
    assert!(search_filter_matches("écrire", "Fichier", "ÉCR"));
    assert!(!search_filter_matches("ecrire", "Fichier", "écr"));
    assert!(search_filter_matches("New", "File", "  NEW  "));
    assert!(any_holds("a", "label", "path", None));
}

#[test]
fn selection_step_wraps_and_respects_visibility() {
    assert_eq!(selection_step(&vec![2, 5, 7], None, 1), Some(2));
    assert_eq!(selection_step(&vec![2, 5, 7], None, -1), Some(7));
    assert_eq!(selection_step(&vec![2, 5, 7], Some(2), 1), Some(5));
    assert_eq!(selection_step(&vec![2, 5, 7], Some(7), 1), Some(2));
    assert_eq!(selection_step(&vec![2, 5, 7], Some(2), -1), Some(7));
    assert_eq!(selection_step(&vec![], None, 1), None);
}

#[test]
fn selection_step_starts_over_from_a_hidden_row() {
    assert_eq!(selection_step(&vec![2, 5, 7], Some(3), 1), selection_step(&vec![2, 5, 7], None, 1));
    assert_eq!(selection_step(&vec![4], Some(4), -1), Some(4));
    assert_eq!(selection_step(&vec![2, 5, 7], Some(5), -1), Some(2));
}

fn items() -> Vec<ActionSearchItem> {
    [(10, "New Project", "File"), (11, "Open", "File"), (12, "Undo", "Edit")]
        .iter()
        .map(|(action, label, path)| ActionSearchItem {
            action: *action,
            label: label.to_string(),
            path: path.to_string(),
        })
        .collect()
}

#[test]
fn action_search_filters_navigates_and_executes() {
    let mut search = ActionSearchContent::new(items());
    assert!(search.filter().is_empty());
    assert!(search.selected_action().is_none());

    search.query_changed("new project");
    assert_eq!(search.filter(), "new project");
    assert_eq!(search.selected_action(), Some(10));

    search.query_changed("zzz-no-such-action-zzz");
    assert!(search.selected_action().is_none());
    assert!(search.visible().is_empty());

    // Clearing the query selects the first row; moves wrap.
    search.query_changed("");
    assert_eq!(search.selected_action(), Some(10));
    search.move_selection(-1);
    assert_eq!(search.selected_action(), Some(12));
    search.move_selection(1);
    assert_eq!(search.selected_action(), Some(10));

    let other = search.key_down("a");
    assert!(!other.taken && other.event.is_none());
    assert!(search.key_down("down").taken);
    assert_eq!(search.selected_action(), Some(11));
    assert!(search.key_down("up").taken);
    assert_eq!(search.selected_action(), Some(10));
    let enter = search.key_down("enter");
    assert!(enter.taken);
    assert_eq!(enter.event, Some(ActionSearchEvent::Execute(10)));

    // Executing with no selection reports nothing.
    search.selection = None;
    assert_eq!(search.execute(), None);
}

#[test]
fn a_double_press_on_a_row_executes_it() {
    let mut search = ActionSearchContent::new(items());
    search.query_changed("");
    assert_eq!(search.item_pressed(2, 1), None);
    assert_eq!(search.selected_action(), Some(12));
    assert_eq!(search.item_pressed(1, 2), Some(ActionSearchEvent::Execute(11)));
}

fn actions() -> Vec<ActionPath> {
    vec![
        ActionPath { action: 20, path: "File > Project > Save".to_string() },
        ActionPath { action: 21, path: "File > Open".to_string() },
        ActionPath { action: 22, path: "Edit > Undo".to_string() },
    ]
}

#[test]
fn keyboard_tab_capture_reset_and_file_round_trip() {
    let mut tab = KeyboardTabContent::new(actions());
    assert!(tab.capturing.is_none());
    assert_eq!(tab.row_count(), 3);

    tab.begin_capture(0);
    assert_eq!(tab.capturing, Some(0));
    assert!(matches!(tab.handle_capture_key("shift", "shift"), CaptureStep::Waiting));
    assert_eq!(tab.capturing, Some(0), "modifier-only keys keep capturing");
    assert!(matches!(tab.handle_capture_key("escape", "escape"), CaptureStep::Cancelled));
    assert!(tab.capturing.is_none(), "escape cancels the capture");
    // A key outside capture mode is nothing.
    assert!(matches!(tab.handle_capture_key("a", "a"), CaptureStep::NotCapturing));

    tab.begin_capture(0);
    assert!(matches!(tab.handle_capture_key("backspace", "backspace"), CaptureStep::Unbind(20)));
    assert!(tab.capturing.is_none());
    assert_eq!(tab.status, Some(KeyboardStatus::Cleared));

    tab.select(0);
    assert_eq!(tab.reset_selected(), Some(20));
    assert_eq!(tab.status, Some(KeyboardStatus::Reset));
    tab.selected = None;
    assert_eq!(tab.reset_selected(), None);

    // A key that another action held moves, and the status names the loser.
    tab.begin_capture(1);
    match tab.handle_capture_key("p", "secondary-alt-p") {
        CaptureStep::Bind(action, key) => {
            assert_eq!(action, 21);
            assert_eq!(key, "secondary-alt-p");
        }
        other => panic!("expected a binding, got {other:?}"),
    }
    assert_eq!(tab.assigned(Some(20)), KeyboardEvent::Changed);
    assert_eq!(tab.status, Some(KeyboardStatus::Conflict(20)));
    assert!(tab.capturing.is_none());
    tab.assigned(None);
    assert_eq!(tab.status, None);

    // Reset All is two-step.
    tab.capturing = Some(0);
    assert!(!tab.reset_all());
    assert!(tab.confirm_reset_all);
    assert!(tab.capturing.is_none());
    assert!(tab.reset_all());
    assert!(!tab.confirm_reset_all);
    assert_eq!(tab.status, Some(KeyboardStatus::ResetAllDone));
    tab.reset_all();
    tab.cancel_reset_all();
    assert!(!tab.confirm_reset_all);

    assert_eq!(tab.imported(true), Some(KeyboardEvent::Changed));
    assert_eq!(tab.status, Some(KeyboardStatus::Imported));
    assert_eq!(tab.imported(false), None, "a failed import leaves the bindings alone");
    assert_eq!(tab.status, Some(KeyboardStatus::ImportFailed));
    tab.exported(true);
    assert_eq!(tab.status, Some(KeyboardStatus::Exported));
    tab.exported(false);
    assert_eq!(tab.status, Some(KeyboardStatus::ExportFailed));

    tab.selected = Some(0);
    tab.query_changed("save");
    assert_eq!(tab.filter, "save");
    assert!(tab.selected.is_none());
}

#[test]
fn keyboard_rows_are_grouped_by_section() {
    let mut tab = KeyboardTabContent::new(actions());
    let texts = vec![
        RowText { label: "Save".to_string(), shortcut: Some("⌘S".to_string()) },
        RowText { label: "Open".to_string(), shortcut: None },
        RowText { label: "Undo".to_string(), shortcut: Some("⌘Z".to_string()) },
    ];
    tab.begin_capture(2);
    let shown: Vec<String> = tab
        .entries(&texts)
        .iter()
        .map(|e| match e {
            ListEntry::Header(h) => format!("# {h}"),
            ListEntry::Row { index, selected, field } => {
                let field = match field {
                    FieldText::Capturing => "...",
                    FieldText::Shortcut => "key",
                    FieldText::Unbound => "none",
                };
                format!("{index} {selected} {field}")
            }
        })
        .collect();
    assert_eq!(
        shown,
        vec!["# File", "0 false key", "1 false none", "# Edit", "2 true ..."]
    );
    tab.query_changed("undo");
    assert_eq!(tab.entries(&texts).len(), 2);
}

#[test]
fn the_spelling_of_a_query_does_not_matter() {
    let hit = |q: &str| keyboard_filter_matches("Save As", "File", Some("Ctrl+S"), q);
    assert!(hit("save"));
    assert!(hit("  SaVe \t"));
    assert!(hit("file > save"));
    assert!(hit("\u{3000}"));
    assert!(hit("ctrl"));
    assert!(!keyboard_filter_matches("Save As", "File", None, "ctrl"));
    assert!(!hit("open"));
    assert!(!hit(" OPEN "));
}

#[test]
fn an_ascii_label_is_found_under_any_path() {
    assert!(keyboard_filter_matches("Open", "\u{6587}\u{4ef6}", None, " oPe "));
    assert!(keyboard_filter_matches("\u{6253}\u{5f00}", "File", Some("Ctrl+O"), "trl+o"));
    assert!(!keyboard_filter_matches("Open", "\u{6587}\u{4ef6}", None, "close"));
}
