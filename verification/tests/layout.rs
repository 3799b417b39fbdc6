use uplink::files::Location;
use uplink::layout::{
    chat_layout_first_render, chat_layout_panes, compose_flags, conversation_title, drag_step,
    group_rename, is_paste_shortcut, members_count, merge_attachments, paste_attachments,
    show_back_button, FileDropEvent,
    ANIMATION_DASH_SCRIPT, FEEDBACK_TEXT_SCRIPT, OVERLAY_SCRIPT, SELECT_CHAT_BAR,
};

fn disk(p: &str) -> Location {
    Location::Disk { path: String::from(p) }
}

fn paths(v: &Vec<Location>) -> Vec<String> {
    v.iter()
        .map(|l| match l {
            Location::Constellation { path } => format!("c:{}", path),
            Location::Disk { path } => format!("d:{}", path),
        })
        .collect()
}

#[test]
fn panes() {
    assert_eq!(chat_layout_panes(false, true, true), (true, false));
    assert_eq!(chat_layout_panes(true, false, true), (false, false));
    assert_eq!(chat_layout_panes(true, true, true), (false, true));
    assert_eq!(chat_layout_panes(true, false, false), (false, true));
}

#[test]
fn first_render_hides_sidebar_once() {
    assert_eq!(chat_layout_first_render(true, true), (true, false));
    assert_eq!(chat_layout_first_render(true, false), (false, true));
    assert_eq!(chat_layout_first_render(false, true), (false, false));
}

#[test]
fn attachments_are_merged_without_repeats() {
    let current = vec![disk("a"), disk("b"), Location::Constellation { path: String::from("a") }];
    let merged = merge_attachments(&current, vec![disk("b"), disk("c")]);
    assert_eq!(paths(&merged), vec!["d:a", "c:a", "d:b", "d:c"]);
    assert!(merge_attachments(&vec![], vec![]).is_empty());
}

#[test]
fn drag_steps() {
    let hovered = FileDropEvent::Hovered { paths: vec![String::from("a"), String::from("b")] };
    let step = drag_step(&hovered, true, "files to upload", "file to upload");
    assert!(!step.done && !step.dropped && !step.focus_window);
    let expected = OVERLAY_SCRIPT.replace("$IS_DRAGGING", "true")
        + &FEEDBACK_TEXT_SCRIPT.replace("$TEXT", "2 files to upload!");
    assert_eq!(step.script, Some(expected));

    let one = FileDropEvent::Hovered { paths: vec![String::from("a")] };
    let step = drag_step(&one, true, "files to upload", "file to upload");
    assert!(step.script.unwrap().contains("'1 file to upload!'"));

    let step = drag_step(&one, false, "m", "o");
    assert!(step.script.is_none() && !step.done);

    let dropped = FileDropEvent::Dropped { paths: vec![String::from("a")] };
    let step = drag_step(&dropped, true, "m", "o");
    assert!(step.done && step.dropped && step.focus_window);
    let expected = OVERLAY_SCRIPT.replace("$IS_DRAGGING", "false") + ANIMATION_DASH_SCRIPT + SELECT_CHAT_BAR;
    assert_eq!(step.script, Some(expected));

    let step = drag_step(&dropped, false, "m", "o");
    assert!(!step.done && !step.dropped && step.script.is_none());

    let step = drag_step(&FileDropEvent::Cancelled, true, "m", "o");
    assert!(step.done && !step.dropped && !step.focus_window);
    assert_eq!(step.script, Some(OVERLAY_SCRIPT.replace("$IS_DRAGGING", "false")));
}

#[test]
fn compose_view_flags() {
    let f = compose_flags(Some(5), None, 5, Some("did:me"), "did:me", true, true, false, true);
    assert!(f.is_edit_group && !f.show_group_users && f.is_owner && f.with_back_button && f.ignore_focus);
    let f = compose_flags(Some(4), Some(5), 5, Some("did:you"), "did:me", true, false, false, false);
    assert!(!f.is_edit_group && f.show_group_users && !f.is_owner && !f.with_back_button && !f.ignore_focus);
    let f = compose_flags(None, None, 5, None, "did:me", false, true, false, false);
    assert!(!f.is_owner && !f.with_back_button);
}

#[test]
fn topbar_texts() {
    assert_eq!(conversation_title(Some(String::from("Team")), "Ann, Bob"), "Team");
    assert_eq!(conversation_title(None, "Ann, Bob"), "Ann, Bob");
    assert_eq!(members_count(2), 3);
    assert!(group_rename("New", true, "Old"));
    assert!(!group_rename("Old", true, "Old"));
    assert!(!group_rename("New", false, "Old"));
}

#[test]
fn back_button() {
    assert!(show_back_button(Some(true)));
    assert!(!show_back_button(Some(false)));
    assert!(!show_back_button(None));
}

#[test]
fn pasting_files_adds_them_on_disk() {
    let current = vec![disk("/a"), disk("/b")];
    assert!(paste_attachments(&current, vec![]).is_none());
    let r = paste_attachments(&current, vec![String::from("/b"), String::from("/c")]).unwrap();
    assert_eq!(paths(&r), vec!["d:/a", "d:/b", "d:/c"]);
    assert!(r.iter().all(|l| matches!(l, Location::Disk { .. })));
}

#[test]
fn paste_shortcut_needs_exact_command_modifier() {
    assert!(is_paste_shortcut(true, 4, 4));
    assert!(!is_paste_shortcut(true, 5, 4));
    assert!(!is_paste_shortcut(false, 4, 4));
}
