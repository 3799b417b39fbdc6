use uplink::notifications::{
    activated_action, badge_label, notification_summary, toast_action_xml, toast_duration,
    toast_xml, NotificationAction, NotificationTimeout,
};
use uplink::text::{contains_ignore_ascii_case, decimal_text, remove_dots, replace_text};

#[test]
fn decimal_numbers() {
    assert_eq!(decimal_text(0), "0");
    assert_eq!(decimal_text(7), "7");
    assert_eq!(decimal_text(1234), "1234");
    assert_eq!(decimal_text(u64::MAX), u64::MAX.to_string());
}

#[test]
fn contains_ignoring_ascii_case() {
    assert!(contains_ignore_ascii_case("Satellite", "tell"));
    assert!(contains_ignore_ascii_case("Satellite", "TELL"));
    assert!(contains_ignore_ascii_case("Satellite", ""));
    assert!(!contains_ignore_ascii_case("Satellite", "moon"));
    assert!(!contains_ignore_ascii_case("ab", "abc"));
    assert!(contains_ignore_ascii_case("ÄRGER", "Ärg"));
    assert!(!contains_ignore_ascii_case("ÄRGER", "ärg"));
}

#[test]
fn dots_removed() {
    assert_eq!(remove_dots(".tar.gz"), "targz");
    assert_eq!(remove_dots(""), "");
}

#[test]
fn summary_and_badge() {
    assert_eq!(notification_summary("New message"), "Uplink - New message");
    assert_eq!(badge_label(0), None);
    assert_eq!(badge_label(42), Some(String::from("42")));
}

#[test]
fn toast_durations() {
    assert_eq!(toast_duration(NotificationTimeout::Default), "duration=\"short\"");
    assert_eq!(toast_duration(NotificationTimeout::Never), "duration=\"long\"");
    assert_eq!(toast_duration(NotificationTimeout::Milliseconds(24999)), "duration=\"short\"");
    assert_eq!(toast_duration(NotificationTimeout::Milliseconds(25000)), "duration=\"long\"");
}

#[test]
fn action_only_for_its_button() {
    let action = NotificationAction::DisplayChat(7);
    assert_eq!(activated_action("open", "open", action), Some(action));
    assert_eq!(activated_action("close", "open", action), None);
}

#[test]
fn toast_markup() {
    let action = toast_action_xml("Open", "open-chat");
    assert_eq!(action, "<action content=\"Open\" arguments=\"open-chat\"/>");
    let xml = toast_xml("duration=\"short\"", "icon.png", "Uplink - Hi", Some("sub"), "body", &action);
    let expected = format!(
        "<toast {} {}>
                    <visual>
                        <binding template=\"{}\">
                        {}
                        {}{}{}
                        </binding>
                    </visual>
                    {}
                    <actions>
                        {}
                    </actions>
                </toast>",
        "duration=\"short\"",
        String::new(),
        "ToastGeneric",
        "icon.png",
        "Uplink - Hi",
        "sub",
        "body",
        r#"<audio silent='true'/>"#,
        action
    );
    assert_eq!(xml, expected);
    let without = toast_xml("d", "", "s", None, "b", "");
    assert!(without.contains("sb\n"));
}

#[test]
fn replace_is_left_to_right_without_overlap() {
    assert_eq!(replace_text("a $X b $X", "$X", "1"), "a 1 b 1");
    assert_eq!(replace_text("aaa", "aa", "b"), "ba");
    assert_eq!(replace_text("abc", "", "-"), "-a-b-c-");
    assert_eq!(replace_text("", "", "-"), "-");
    assert_eq!(replace_text("abc", "z", "y"), "abc");
    assert_eq!(replace_text("héé", "é", "e"), "hee");
    for (s, p, t) in [("x$Ty$T", "$T", "zz"), ("aaaa", "aa", "a"), ("ab", "", "")] {
        assert_eq!(replace_text(s, p, t), s.replace(p, t));
    }
}
