use uplink::friends::{
    did_suffix, edit_group_list, friend_matches_prefix, friend_row_button, friends_in_group,
    friends_not_in_group, matching_search, one_per_did, other_participants, show_nothing_here,
    sort_by_username, text_less_eq, unblock_error_is_reported, EditGroupAction, Friend,
    UnblockError,
};

fn friend(did: &str, name: &str) -> Friend {
    Friend { did: String::from(did), username: String::from(name) }
}

fn names(v: &Vec<Friend>) -> Vec<String> {
    v.iter().map(|f| f.username.clone()).collect()
}

fn dids(v: &Vec<Friend>) -> Vec<String> {
    v.iter().map(|f| f.did.clone()).collect()
}

#[test]
fn blocked_user_suffix_is_reversed_tail() {
    assert_eq!(did_suffix("did:key:z6MkabcdefXYZ123"), "321ZYX");
    assert_eq!(did_suffix("abc"), "cba");
    assert_eq!(did_suffix(""), "");
}

#[test]
fn nothing_here_notice() {
    assert!(show_nothing_here("Pending", 0, 0, 5));
    assert!(!show_nothing_here("Pending", 1, 0, 0));
    assert!(!show_nothing_here("Pending", 0, 2, 0));
    assert!(show_nothing_here("Blocked", 3, 3, 0));
    assert!(!show_nothing_here("Blocked", 0, 0, 1));
    assert!(!show_nothing_here("All", 0, 0, 0));
}

#[test]
fn group_membership_partition() {
    let friends = vec![friend("a", "Ann"), friend("b", "Bob"), friend("c", "Cid")];
    let participants = vec![String::from("b"), String::from("me")];
    assert_eq!(dids(&friends_not_in_group(&friends, &participants)), vec!["a", "c"]);
    assert_eq!(dids(&friends_in_group(&friends, &participants)), vec!["b"]);
    let others = other_participants(&vec![String::from("me"), String::from("b"), String::from("me")], "me");
    assert_eq!(others, vec![String::from("b")]);
}

#[test]
fn search_ignores_ascii_case() {
    let list = vec![friend("a", "Annabel"), friend("b", "Bob"), friend("c", "JOANNA")];
    assert_eq!(dids(&matching_search(&list, "ann")), vec!["a", "c"]);
    assert_eq!(dids(&matching_search(&list, "")), vec!["a", "b", "c"]);
}

#[test]
fn sort_is_by_name_and_stable() {
    let list = vec![friend("1", "bob"), friend("2", "Alice"), friend("3", "bob"), friend("4", "alice")];
    let sorted = sort_by_username(&list);
    assert_eq!(names(&sorted), vec!["Alice", "alice", "bob", "bob"]);
    assert_eq!(dids(&sorted), vec!["2", "4", "1", "3"]);
    let mut expected = list.clone();
    expected.sort_by_key(|f| f.username.clone());
    assert_eq!(dids(&sorted), dids(&expected));
}

#[test]
fn string_order() {
    assert!(text_less_eq("abc", "abd"));
    assert!(text_less_eq("ab", "abc"));
    assert!(!text_less_eq("abc", "ab"));
    assert!(text_less_eq("", ""));
    assert!(text_less_eq("Z", "a"));
    assert!(text_less_eq("z", "é"));
}

#[test]
fn edit_group_lists() {
    let friends = vec![friend("c", "carl"), friend("a", "Anna"), friend("b", "bert"), friend("d", "Dana")];
    let members = vec![friend("b", "bert"), friend("x", "xena"), friend("y", "Yann")];
    let participants = vec![String::from("b"), String::from("x"), String::from("y"), String::from("me")];
    let add = edit_group_list(EditGroupAction::Add, &friends, &members, &participants, "");
    assert_eq!(dids(&add), vec!["a", "d", "c"]);
    let add_an = edit_group_list(EditGroupAction::Add, &friends, &members, &participants, "AN");
    assert_eq!(dids(&add_an), vec!["a", "d"]);
    let remove = edit_group_list(EditGroupAction::Remove, &friends, &members, &participants, "");
    assert_eq!(dids(&remove), vec!["y", "b", "x"]);
    let remove_n = edit_group_list(EditGroupAction::Remove, &friends, &members, &participants, "n");
    assert_eq!(dids(&remove_n), vec!["y", "x"]);
}

#[test]
fn row_buttons() {
    assert_eq!(friend_row_button("add", false), Some(EditGroupAction::Add));
    assert_eq!(friend_row_button("remove", true), Some(EditGroupAction::Remove));
    assert_eq!(friend_row_button("remove", false), None);
}

#[test]
fn older_prefix_search() {
    assert_eq!(friend_matches_prefix("Bobby", "bo"), Some(true));
    assert_eq!(friend_matches_prefix("Bobby", "BOB"), Some(true));
    assert_eq!(friend_matches_prefix("Bobby", "ob"), Some(false));
    assert_eq!(friend_matches_prefix("Bo", "bob"), Some(false));
    assert_eq!(friend_matches_prefix("Bob", ""), Some(true));
    // "é" is two bytes; a one-byte search cuts through it.
    assert_eq!(friend_matches_prefix("éa", "x"), None);
}

#[test]
fn repeated_did_is_kept_once_last_wins() {
    let friends = vec![friend("a", "Ann"), friend("b", "Bob"), friend("a", "Anna")];
    let once = one_per_did(&friends);
    assert_eq!(dids(&once), vec!["b", "a"]);
    assert_eq!(names(&once), vec!["Bob", "Anna"]);
    let participants = vec![String::from("b")];
    assert_eq!(names(&friends_not_in_group(&friends, &participants)), vec!["Anna"]);
    assert_eq!(names(&friends_in_group(&friends, &participants)), vec!["Bob"]);
    let in_a = vec![String::from("a")];
    assert_eq!(names(&friends_in_group(&friends, &in_a)), vec!["Anna"]);
    let add = edit_group_list(EditGroupAction::Add, &friends, &vec![], &vec![String::from("me")], "");
    assert_eq!(names(&add), vec!["Anna", "Bob"]);
}

#[test]
fn unblock_failures_reported() {
    assert!(!unblock_error_is_reported(UnblockError::PublicKeyIsntBlocked));
    assert!(unblock_error_is_reported(UnblockError::Other));
}
