//! Markers, the work area, the library and texts.

use oak_app::errors::EditError;
use oak_app::library::{
    library, library_create, library_delete, library_duplicate, library_export, library_list,
    library_open, library_rename, library_row, missing_project_message, project_uri,
    stats_or_none, LibraryError, ProjectStats, Storage,
};
use oak_app::list::{contains, copy_of, position, retain_not};
use oak_app::markers::{
    marker_add, marker_index_at, marker_remove, markers_of, workarea_set, workarea_set_undoable,
    workarea_state, Marker, MarkerEdit, TimeRange, WorkArea,
};
use oak_app::rational::Rational;
use oak_app::text::{
    begins_with, contains_text, decimal, head_before, joined, replace_text, same_ignoring_case,
    same_text, signed_decimal, strip_head, trim,
};

fn s(n: i64) -> Rational {
    Rational { num: n, den: 1 }
}

fn apply(list: &mut Vec<Marker>, edit: &MarkerEdit) {
    match edit {
        MarkerEdit::Add { time, name, color } => {
            list.push(Marker { time: *time, name: name.clone(), color: *color })
        }
        MarkerEdit::Remove { index } => {
            list.remove(*index);
        }
    }
}

#[test]
fn marker_and_workarea_handle_paths() {
    assert!(markers_of(None).is_empty());
    assert_eq!(marker_index_at(None, s(1)), None);
    assert!(workarea_state(None).is_none());
    let mut gone: Option<WorkArea> = None;
    workarea_set(&mut gone, true, TimeRange { from: s(0), to: s(1) });
    assert!(gone.is_none());

    let mut list: Vec<Marker> = Vec::new();
    assert!(markers_of(Some(&list)).is_empty());
    let e = marker_add(Some(&list), s(2), "M1", 2).expect("add marker");
    apply(&mut list, &e);
    let e = marker_add(Some(&list), s(5), "M2", 4).expect("add marker 2");
    apply(&mut list, &e);
    assert_eq!(markers_of(Some(&list)).len(), 2);
    assert_eq!(marker_index_at(Some(&list), s(5)), Some(1));
    assert_eq!(marker_index_at(Some(&list), s(9)), None);
    assert!(
        matches!(marker_add(Some(&list), s(2), "dup", 1), Err(EditError::MarkerTaken)),
        "a duplicate timestamp is rejected"
    );
    assert!(matches!(marker_remove(Some(&list), s(9)), Err(EditError::NoMarker)));
    let e = marker_remove(Some(&list), s(2)).expect("remove marker");
    apply(&mut list, &e);
    let left = markers_of(Some(&list));
    assert_eq!(left.len(), 1);
    assert_eq!((left[0].time.num, left[0].name.as_str(), left[0].color), (5, "M2", 4));

    let range = TimeRange { from: s(1), to: s(4) };
    let mut area = Some(WorkArea { enabled: false, range: TimeRange { from: s(0), to: s(0) } });
    workarea_set(&mut area, true, range);
    let shown = |a: &Option<WorkArea>| {
        let (on, r) = workarea_state(a.as_ref()).unwrap();
        (on, r.from.num, r.to.num)
    };
    assert_eq!(shown(&area), (true, 1, 4));
    let new = TimeRange { from: s(2), to: s(3) };
    let edit = workarea_set_undoable(area.as_ref(), false, new, range).expect("set workarea");
    edit.redo(&mut area);
    assert_eq!(shown(&area), (false, 2, 3));
    edit.undo(&mut area);
    assert_eq!(shown(&area), (true, 1, 4));
    edit.redo(&mut area);
    assert_eq!(shown(&area), (false, 2, 3));
    assert!(workarea_set_undoable(None, true, new, range).is_none());
}

#[test]
fn library_argument_validation_and_disabled_list() {
    let off = Storage { enabled: false, location: None };
    assert_eq!(library_list(&off), Ok(None), "disabled list");
    assert!(library(&off).is_err(), "the library URI is unavailable");
    let on = Storage { enabled: true, location: Some("sqlite:///tmp/lib".to_string()) };
    for storage in [&off, &on] {
        assert!(library_create(storage, "   ").is_err(), "blank name rejected");
        assert!(library_delete(storage, "").is_err(), "blank uuid rejected");
        assert!(library_rename(storage, "", "x").is_err(), "blank uuid rejected");
        assert!(library_rename(storage, "u", "   ").is_err(), "blank name rejected");
        assert!(library_duplicate(storage, "").is_err(), "blank uuid rejected");
        assert!(library_export(storage, "").is_err(), "blank uuid rejected");
        assert!(library_open(storage, "").is_err(), "blank uuid rejected");
    }
}

#[test]
fn library_calls_name_the_project() {
    let on = Storage { enabled: true, location: Some("sqlite:///tmp/lib".to_string()) };
    let nowhere = Storage { enabled: true, location: None };
    let off = Storage { enabled: false, location: None };
    assert_eq!(library(&on), Ok("sqlite:///tmp/lib".to_string()));
    assert_eq!(library(&nowhere), Err(LibraryError::NoLocation));
    assert_eq!(library(&off), Err(LibraryError::NotConfigured));
    assert_eq!(library_create(&on, "  "), Err(LibraryError::InvalidName));
    assert_eq!(library_delete(&on, ""), Err(LibraryError::InvalidUuid));
    assert_eq!(library_rename(&on, "u", " "), Err(LibraryError::InvalidUuidOrName));
    assert!(library_row(&on, "u").is_ok());
    let uri = project_uri("sqlite:///tmp/lib", "u-1");
    assert!(uri.contains("u-1") && uri.contains("sqlite:///tmp/lib"));
    assert!(missing_project_message("u-1", 7).contains("u-1"));
    for e in [
        LibraryError::NotConfigured,
        LibraryError::NoLocation,
        LibraryError::InvalidName,
        LibraryError::InvalidUuid,
        LibraryError::InvalidUuidOrName,
    ] {
        assert!(!e.message().is_empty());
    }
    let some = ProjectStats { duration_ms: 1, track_count: 2, clip_count: 3, footage_count: 4 };
    assert_eq!(stats_or_none(Some(some)), some);
    assert_eq!(
        stats_or_none(None),
        ProjectStats { duration_ms: 0, track_count: 0, clip_count: 0, footage_count: 0 }
    );
}

#[test]
fn texts_are_cut_and_joined() {
    assert_eq!(trim(" \t\u{3000}a b\n"), "a b");
    assert_eq!(trim("   "), "");
    assert!(contains_text("hello", "ell"));
    assert!(contains_text("hello", ""));
    assert!(!contains_text("hello", "lle"));
    assert!(begins_with("override:x", "override:"));
    assert_eq!(strip_head("aab", "a"), "ab");
    assert_eq!(strip_head("ab", "b"), "ab");
    assert_eq!(replace_text("a-b-c", "-", "+"), "a+b+c");
    assert_eq!(replace_text("aaa", "aa", "b"), "ba");
    assert_eq!(head_before("File > Open > x", " > "), "File");
    assert_eq!(head_before("File", " > "), "File");
    assert!(same_ignoring_case("OS", "os"));
    assert!(!same_ignoring_case("É", "é"), "only ASCII letters fold");
    assert!(same_text("a", "a") && !same_text("a", "A"));
    assert_eq!(joined("1/", "16"), "1/16");
    assert_eq!(decimal(0), "0");
    assert_eq!(decimal(u64::MAX), "18446744073709551615");
    assert_eq!(signed_decimal(i64::MIN), "-9223372036854775808");
    assert_eq!(signed_decimal(42), "42");
}

#[test]
fn id_lists() {
    let v = vec![3, 5, 3];
    assert_eq!(position(&v, 3), Some(0));
    assert_eq!(position(&v, 4), None);
    assert!(contains(&v, 5) && !contains(&v, 6));
    assert_eq!(copy_of(&v), v);
    assert_eq!(retain_not(&v, 3), vec![5]);
}

#[test]
fn an_added_marker_is_the_one_found_at_its_time() {
    let mut list = vec![
        Marker { time: s(1), name: "a".to_string(), color: 0 },
        Marker { time: s(4), name: "b".to_string(), color: 0 },
    ];
    let edit = marker_add(Some(&list), Rational { num: 5, den: 2 }, "new", 3).expect("add");
    assert!(matches!(&edit, MarkerEdit::Add { name, color: 3, .. } if name == "new"));
    let added = Marker { time: Rational { num: 5, den: 2 }, name: "new".to_string(), color: 3 };
    list.insert(1, added);
    assert_eq!(marker_index_at(Some(&list), Rational { num: 10, den: 4 }), Some(1));
    let edit = marker_remove(Some(&list), Rational { num: 5, den: 2 }).expect("remove");
    assert!(matches!(edit, MarkerEdit::Remove { index: 1 }));
}
