use drakkar_vfx::browser::{
    BottomBarState,
    BrowserAction,
    ClickAction,
    arrow_key_event,
    bottom_bar_state,
    carried_buffers,
    click_action,
    chars_less,
    contains_chars,
    entry_event_action,
    filter_file_list,
    lowered_name_matches,
    name_matches_filter,
    rename_confirm_event,
    selection_after_delete,
    sort_order_by_name,
};
use drakkar_vfx::events::FileEntryEvent;

#[test]
fn moving_selection_stays_in_range() {
    assert_eq!(entry_event_action(&FileEntryEvent::MoveUp { ix: 2 }, 5), BrowserAction::SelectItem { ix: 1 });
    assert_eq!(entry_event_action(&FileEntryEvent::MoveUp { ix: 0 }, 5), BrowserAction::Nothing);
    assert_eq!(entry_event_action(&FileEntryEvent::MoveDown { ix: 3 }, 5), BrowserAction::SelectItem { ix: 4 });
    assert_eq!(entry_event_action(&FileEntryEvent::MoveDown { ix: 4 }, 5), BrowserAction::Nothing);
    assert_eq!(entry_event_action(&FileEntryEvent::MoveDown { ix: 0 }, 0), BrowserAction::Nothing);
}

#[test]
fn other_entry_events_are_passed_on() {
    assert_eq!(entry_event_action(&FileEntryEvent::Select { ix: 3 }, 5), BrowserAction::SelectItem { ix: 3 });
    assert_eq!(entry_event_action(&FileEntryEvent::RenameStart { ix: 3 }, 5), BrowserAction::ClearSelection);
    assert_eq!(
        entry_event_action(&FileEntryEvent::RenameConfirm { ix: 1, new_name: "fire.ron".to_string() }, 5),
        BrowserAction::RenameFile { ix: 1, new_name: "fire.ron".to_string() }
    );
    assert_eq!(entry_event_action(&FileEntryEvent::Copy { ix: 2 }, 5), BrowserAction::DuplicateFile { ix: 2 });
    assert_eq!(entry_event_action(&FileEntryEvent::Delete { ix: 2 }, 5), BrowserAction::DeleteFile { ix: 2 });
}

#[test]
fn selection_follows_deletion() {
    assert_eq!(selection_after_delete(Some(2), 2), None);
    assert_eq!(selection_after_delete(Some(3), 1), Some(2));
    assert_eq!(selection_after_delete(Some(1), 3), Some(1));
    assert_eq!(selection_after_delete(None, 0), None);
}

#[test]
fn substring_search() {
    let hay: Vec<char> = "smoke_trail".chars().collect();
    assert!(contains_chars(&hay, &"trail".chars().collect()));
    assert!(contains_chars(&hay, &Vec::new()));
    assert!(!contains_chars(&hay, &"trails".chars().collect()));
    assert!(!contains_chars(&Vec::new(), &"a".chars().collect()));
    assert!(lowered_name_matches("fireball", "ball"));
    assert!(!lowered_name_matches("fireball", "BALL"));
}

#[test]
fn filter_ignores_case() {
    assert!(name_matches_filter("FireBall.ron", "fireb"));
    assert!(name_matches_filter("smoke.ron", ""));
    assert!(!name_matches_filter("smoke.ron", "fire"));
}

#[test]
fn filter_keeps_order_and_selection() {
    let names: Vec<String> = ["Alpha.ron", "beta.ron", "Gamma.ron", "alphabet.ron"].iter().map(|s| s.to_string()).collect();
    let (shown, selected) = filter_file_list(&names, "ALPHA", Some("alphabet.ron"));
    assert_eq!(shown, vec![0, 3]);
    assert_eq!(selected, Some(1));
    let (shown, selected) = filter_file_list(&names, "", Some("beta.ron"));
    assert_eq!(shown, vec![0, 1, 2, 3]);
    assert_eq!(selected, Some(1));
    let (shown, selected) = filter_file_list(&names, "gam", Some("beta.ron"));
    assert_eq!(shown, vec![2]);
    assert_eq!(selected, None);
    let (_, selected) = filter_file_list(&names, "", None);
    assert_eq!(selected, None);
}

#[test]
fn names_compare_like_strings() {
    let c = |s: &str| s.chars().collect::<Vec<char>>();
    assert!(chars_less(&c("abc"), &c("abd")));
    assert!(chars_less(&c("ab"), &c("abc")));
    assert!(!chars_less(&c("abc"), &c("abc")));
    assert!(chars_less(&c("Zeta"), &c("alpha")));
    assert!(!chars_less(&c("b"), &c("a")));
    assert!(chars_less(&c(""), &c("a")));
}

#[test]
fn sort_is_stable_by_name() {
    let names: Vec<String> = ["smoke.ron", "fire.ron", "Spark.ron", "fire.ron", "ash.ron"].iter().map(|s| s.to_string()).collect();
    let order = sort_order_by_name(&names);
    assert_eq!(order, vec![2, 4, 1, 3, 0]);
    let mut sorted = names.clone();
    sorted.sort();
    assert_eq!(order.iter().map(|&i| names[i].clone()).collect::<Vec<_>>(), sorted);
    assert_eq!(sort_order_by_name(&Vec::new()), Vec::<usize>::new());
}

#[test]
fn bottom_bar_follows_selected_buffer() {
    let modified = vec![Some(true), None, Some(false)];
    assert_eq!(
        bottom_bar_state(Some(0), &modified),
        BottomBarState { save_enabled: true, revert_enabled: true, shown_file: Some(0) }
    );
    assert_eq!(
        bottom_bar_state(Some(1), &modified),
        BottomBarState { save_enabled: false, revert_enabled: false, shown_file: Some(1) }
    );
    assert_eq!(
        bottom_bar_state(Some(2), &modified),
        BottomBarState { save_enabled: false, revert_enabled: false, shown_file: Some(2) }
    );
    assert_eq!(
        bottom_bar_state(Some(3), &modified),
        BottomBarState { save_enabled: false, revert_enabled: false, shown_file: None }
    );
    assert_eq!(
        bottom_bar_state(None, &modified),
        BottomBarState { save_enabled: false, revert_enabled: false, shown_file: None }
    );
}

#[test]
fn entry_input_decisions() {
    assert_eq!(click_action(false, 1), ClickAction::Select);
    assert_eq!(click_action(false, 2), ClickAction::StartRename);
    assert_eq!(click_action(false, 3), ClickAction::Ignore);
    assert_eq!(click_action(true, 1), ClickAction::Ignore);
    assert_eq!(arrow_key_event(4, false, true), Some(FileEntryEvent::MoveUp { ix: 4 }));
    assert_eq!(arrow_key_event(4, false, false), Some(FileEntryEvent::MoveDown { ix: 4 }));
    assert_eq!(arrow_key_event(4, true, true), None);
    assert_eq!(rename_confirm_event(2, ""), None);
    assert_eq!(
        rename_confirm_event(2, "sparks.ron"),
        Some(FileEntryEvent::RenameConfirm { ix: 2, new_name: "sparks.ron".to_string() })
    );
}

#[test]
fn refresh_keeps_unsaved_buffers_by_path() {
    let old = vec![
        ("a.ron".to_string(), Some(1)),
        ("b.ron".to_string(), None),
        ("a.ron".to_string(), Some(2)),
        ("c.ron".to_string(), Some(3)),
    ];
    let new_paths: Vec<String> = ["c.ron", "a.ron", "b.ron", "d.ron"].iter().map(|s| s.to_string()).collect();
    assert_eq!(carried_buffers(&old, &new_paths), vec![Some(3), Some(2), None, None]);
}
