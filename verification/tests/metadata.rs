use uplink::metadata::{platform_indicator, Identity, IdentityPlatform, Metadata, Platform};

fn identity(did: &str, status: Option<&str>, platform: IdentityPlatform) -> Identity {
    Identity {
        did: String::from(did),
        username: format!("user-{}", did),
        status_message: status.map(String::from),
        profile_picture: format!("pic-{}", did),
        platform,
    }
}

#[test]
fn direct_conversation_shows_the_other_participant() {
    let me = identity("me", Some("busy"), IdentityPlatform::Desktop);
    let other = identity("you", Some("away"), IdentityPlatform::Mobile);
    let m = Metadata::new(5, me, vec![other], true, true, String::from("user-you"), None);
    assert_eq!(m.chat_id, 5);
    assert_eq!(m.active_participant.did, "you");
    assert_eq!(m.subtext, "away");
    assert_eq!(m.first_image, "pic-you");
    assert_eq!(m.platform, Platform::Mobile);
    assert!(m.is_favorite);
    assert_eq!(m.my_id.did, "me");
}

#[test]
fn group_and_lonely_conversations() {
    let me = identity("me", Some("busy"), IdentityPlatform::Unknown);
    let a = identity("a", Some("hi"), IdentityPlatform::Desktop);
    let g = Metadata::new(6, me, vec![a, identity("b", None, IdentityPlatform::Mobile)], false, false, String::from("a, b"), Some(String::from("Team")));
    assert_eq!(g.subtext, "");
    assert_eq!(g.active_participant.did, "a");
    assert_eq!(g.conversation_name, Some(String::from("Team")));
    assert_eq!(g.other_participants.len(), 2);
    let me = identity("me", None, IdentityPlatform::Unknown);
    let alone = Metadata::new(7, me, vec![], true, false, String::new(), None);
    assert_eq!(alone.active_participant.did, "me");
    assert_eq!(alone.subtext, "");
    assert_eq!(alone.platform, Platform::Headless);
}

#[test]
fn platform_indicators() {
    assert_eq!(platform_indicator(IdentityPlatform::Desktop), Platform::Desktop);
    assert_eq!(platform_indicator(IdentityPlatform::Mobile), Platform::Mobile);
    assert_eq!(platform_indicator(IdentityPlatform::Unknown), Platform::Headless);
}
