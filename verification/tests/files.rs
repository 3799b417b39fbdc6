use uplink::files::{
    add_remove_file_to_send, dotted_extension, file_checkbox_state, file_click_presses, get_aria_label,
    get_file_extension, get_text, renamed_file, selected_paths_text, selection_amount_text,
    Location,
};
use uplink::text::text_eq;

fn stored(p: &str) -> Location {
    Location::Constellation { path: String::from(p) }
}

fn paths(v: &Vec<Location>) -> Vec<String> {
    v.iter()
        .map(|l| match l {
            Location::Constellation { path } => format!("c:{}", path),
            Location::Disk { path } => format!("d:{}", path),
        })
        .collect()
}

#[test]
fn extension_edge_cases() {
    assert_eq!(get_file_extension(String::from(".bashrc")), "");
    assert_eq!(get_file_extension(String::from("archive.tar.gz")), ".gz");
    assert_eq!(get_file_extension(String::from("trailing.")), ".");
    assert_eq!(get_file_extension(String::from("")), "");
    assert_eq!(get_file_extension(String::from("..")), "");
    assert_eq!(get_file_extension(String::from("photos.v2/readme")), "");
    assert_eq!(get_file_extension(String::from("photos/readme.md")), ".md");
    assert_eq!(get_file_extension(String::from("naïve.résumé")), ".résumé");
}

#[test]
fn dotted_extension_adds_dot() {
    assert_eq!(dotted_extension(Some(String::from("png"))), ".png");
    assert_eq!(dotted_extension(None), "");
}

#[test]
fn folder_names_are_shortened_past_fifteen_bytes() {
    let (name, shown) = get_text(Some(String::from("abcdefghijklmnopqrst")));
    assert_eq!(name, "abcdefghijklmnopqrst");
    assert_eq!(shown, "abcdefghijkl...rst");
    let (name, shown) = get_text(Some(String::from("exactly15bytes!")));
    assert_eq!(name, shown);
    let (name, shown) = get_text(None);
    assert_eq!(name, "");
    assert_eq!(shown, "");
    let (_, shown) = get_text(Some(String::from("sixteen-bytes-ab")));
    assert_eq!(shown, "sixteen-byte...-ab");
}

#[test]
fn folder_name_cut_inside_a_character_is_shown_whole() {
    // "é" takes two bytes: the twelfth byte falls inside it.
    let text = String::from("abcdefghijké-more-text");
    let (_, shown) = get_text(Some(text.clone()));
    assert_eq!(shown, text);
}

#[test]
fn rename_appends_extension() {
    assert_eq!(renamed_file("holiday", true, false, ".jpg"), Some(String::from("holiday.jpg")));
    assert_eq!(renamed_file("holiday", false, true, ".jpg"), Some(String::from("holiday.jpg")));
    assert_eq!(renamed_file("holiday", false, false, ".jpg"), None);
}

#[test]
fn toggle_adds_and_removes() {
    let mut selected = vec![stored("a"), stored("b")];
    add_remove_file_to_send(&mut selected, String::from("c"), 8);
    assert_eq!(paths(&selected), vec!["c:a", "c:b", "c:c"]);
    add_remove_file_to_send(&mut selected, String::from("b"), 8);
    assert_eq!(paths(&selected), vec!["c:a", "c:c"]);
    add_remove_file_to_send(&mut selected, String::from("b"), 8);
    add_remove_file_to_send(&mut selected, String::from("b"), 8);
    assert_eq!(paths(&selected), vec!["c:a", "c:c"]);
}

#[test]
fn toggle_respects_the_bound() {
    let mut selected = vec![stored("a"), stored("b")];
    add_remove_file_to_send(&mut selected, String::from("c"), 2);
    assert_eq!(paths(&selected), vec!["c:a", "c:b"]);
    add_remove_file_to_send(&mut selected, String::from("a"), 2);
    assert_eq!(paths(&selected), vec!["c:b"]);
}

#[test]
fn toggle_of_empty_path_matches_disk_files() {
    let mut selected = vec![Location::Disk { path: String::from("/home/x") }, stored("a")];
    add_remove_file_to_send(&mut selected, String::from(""), 8);
    assert_eq!(paths(&selected), vec!["c:a"]);
}

#[test]
fn checkbox_state() {
    let selected = vec![stored("a"), Location::Disk { path: String::from("b") }];
    assert_eq!(file_checkbox_state(&selected, "a", 2), (true, true));
    assert_eq!(file_checkbox_state(&selected, "b", 3), (false, false));
    assert_eq!(file_checkbox_state(&selected, "c", 3), (false, false));
}

#[test]
fn selection_texts() {
    assert_eq!(selection_amount_text(3, 8), "3/8");
    assert_eq!(selection_amount_text(0, 10), "0/10");
    let selected = vec![stored("docs/a.txt"), Location::Disk { path: String::from("x") }, stored("b.png")];
    assert_eq!(selected_paths_text(&selected), "docs/a.txt, b.png");
    assert_eq!(selected_paths_text(&vec![]), "");
}

#[test]
fn aria_label_defaults_to_empty() {
    assert_eq!(get_aria_label(Some(String::from("file-1"))), "file-1");
    assert_eq!(get_aria_label(None), "");
}

#[test]
fn text_equality() {
    assert!(text_eq("abc", "abc"));
    assert!(!text_eq("abc", "abd"));
    assert!(!text_eq("abc", "ab"));
    assert!(text_eq("", ""));
}

#[test]
fn click_presses_unless_only_control() {
    assert!(file_click_presses(0, 2));
    assert!(!file_click_presses(2, 2));
    assert!(file_click_presses(3, 2));
}
