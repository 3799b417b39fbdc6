use uplink::chat::{
    fetch_most_recent, fetch_window, handle_message_event, init_chat_step, most_recent_request,
    window_requests, FetchMessagesConfig, ActiveChat, ActiveChatArgs, InitStep,
    ChatBehavior, ChatData, FetchMessagesResponse, Message, MessageEvent, MessageInner, MsgView,
    PartialMessage, ScrollBehavior, ScrollTo, ViewInit,
};

const CONV: u128 = 77;

fn inner(id: u128, date: i64, text: &str) -> MessageInner {
    MessageInner { id, conversation_id: CONV, date, text: String::from(text) }
}

fn msg(id: u128, date: i64) -> Message {
    Message { inner: inner(id, date, "hi"), key: format!("key-{}", id) }
}

fn ids(v: &[Message]) -> Vec<u128> {
    v.iter().map(|m| m.inner.id).collect()
}

fn deque_ids(chat: &ChatData) -> Vec<u128> {
    chat.active_chat.messages.iter().map(|m| m.inner.id).collect()
}

fn behavior(scroll_to: ScrollTo) -> ChatBehavior {
    ChatBehavior {
        view_init: ViewInit { scroll_to, msg_time: None },
        ..ChatBehavior::default()
    }
}

fn open_chat(messages: Vec<Message>, scroll_to: ScrollTo) -> ChatData {
    let mut data = ChatData::default();
    data.set_active_chat(Some(CONV), behavior(scroll_to), messages);
    data
}

#[test]
fn default_behavior() {
    let b = ChatBehavior::default();
    assert_eq!(b.view_init.scroll_to, ScrollTo::MostRecent);
    assert_eq!(b.view_init.msg_time, None);
    assert_eq!(b.on_scroll_top, ScrollBehavior::DoNothing);
    assert_eq!(b.on_scroll_end, ScrollBehavior::DoNothing);
    assert_eq!(b.most_recent_msg_id, None);
}

#[test]
fn window_keeps_the_seam_message_once() {
    let earlier = FetchMessagesResponse { messages: vec![msg(1, 10), msg(2, 20)], has_more: true, most_recent: None };
    let later = FetchMessagesResponse { messages: vec![msg(2, 20), msg(3, 30)], has_more: false, most_recent: Some(9) };
    let old = behavior(ScrollTo::ScrollUp { view_top: 2 });
    let (messages, b) = fetch_window(old, earlier, later);
    assert_eq!(ids(&messages), vec![1, 2, 3]);
    assert_eq!(b.view_init.scroll_to, ScrollTo::ScrollUp { view_top: 2 });
    assert_eq!(b.on_scroll_top, ScrollBehavior::FetchMore);
    assert_eq!(b.on_scroll_end, ScrollBehavior::DoNothing);
    assert_eq!(b.most_recent_msg_id, Some(9));
}

#[test]
fn window_without_overlap_and_empty_sides() {
    let earlier = FetchMessagesResponse { messages: vec![msg(1, 10)], has_more: false, most_recent: None };
    let later = FetchMessagesResponse { messages: vec![msg(3, 30)], has_more: true, most_recent: None };
    let (messages, b) = fetch_window(ChatBehavior::default(), earlier, later);
    assert_eq!(ids(&messages), vec![1, 3]);
    assert_eq!(b.on_scroll_end, ScrollBehavior::FetchMore);
    assert_eq!(b.on_scroll_top, ScrollBehavior::DoNothing);
    let earlier = FetchMessagesResponse { messages: vec![], has_more: false, most_recent: None };
    let later = FetchMessagesResponse { messages: vec![msg(0, 30)], has_more: false, most_recent: None };
    let (messages, _) = fetch_window(ChatBehavior::default(), earlier, later);
    assert_eq!(ids(&messages), vec![0]);
}

#[test]
fn most_recent_behavior() {
    let r = FetchMessagesResponse { messages: vec![msg(1, 1), msg(2, 2)], has_more: true, most_recent: Some(2) };
    let (messages, b) = fetch_most_recent(r);
    assert_eq!(ids(&messages), vec![1, 2]);
    assert_eq!(b.on_scroll_top, ScrollBehavior::FetchMore);
    assert_eq!(b.on_scroll_end, ScrollBehavior::DoNothing);
    assert_eq!(b.view_init.scroll_to, ScrollTo::MostRecent);
    assert_eq!(b.most_recent_msg_id, Some(2));
}

#[test]
fn message_view_set_semantics() {
    let mut v = MsgView::new();
    assert_eq!(v.get_earliest(), None);
    v.insert(PartialMessage { message_id: 1, date: 50 });
    v.insert(PartialMessage { message_id: 2, date: 10 });
    v.insert(PartialMessage { message_id: 3, date: 10 });
    v.insert(PartialMessage { message_id: 4, date: 90 });
    assert_eq!(v.get_earliest(), Some(PartialMessage { message_id: 2, date: 10 }));
    assert_eq!(v.get_latest(), Some(PartialMessage { message_id: 4, date: 90 }));
    v.insert(PartialMessage { message_id: 4, date: 5 });
    assert_eq!(v.get_earliest(), Some(PartialMessage { message_id: 4, date: 5 }));
    assert_eq!(v.get_latest(), Some(PartialMessage { message_id: 1, date: 50 }));
    v.remove(4);
    v.remove(99);
    assert_eq!(v.get_earliest(), Some(PartialMessage { message_id: 2, date: 10 }));
    v.clear();
    assert_eq!(v.get_latest(), None);
}

#[test]
fn active_chat_basics() {
    let mut chat = ActiveChat::new(ActiveChatArgs {
        conversation_id: CONV,
        messages: vec![msg(1, 10), msg(2, 20), msg(1, 30)],
        chat_behavior: ChatBehavior { on_scroll_top: ScrollBehavior::FetchMore, ..ChatBehavior::default() },
    });
    assert_eq!(chat.id(), CONV);
    assert!(chat.has_more_messages());
    assert_eq!(chat.messages.len(), 3);
    assert_eq!(chat.get_message_time(1), Some(30));
    assert_eq!(chat.get_message_time(2), Some(20));
    assert_eq!(chat.get_message_time(3), None);
    chat.add_message_to_view(2);
    chat.add_message_to_view(3);
    assert_eq!(chat.displayed_messages.get_earliest(), Some(PartialMessage { message_id: 2, date: 20 }));
    assert_eq!(chat.displayed_messages.get_latest(), Some(PartialMessage { message_id: 2, date: 20 }));
    chat.remove_message_from_view(2);
    assert_eq!(chat.displayed_messages.get_latest(), None);
    chat.add_message_to_view(1);
    chat.clear_message_view();
    assert_eq!(chat.displayed_messages.get_latest(), None);
    chat.message_times.clear();
    chat.init_message_times();
    assert_eq!(chat.get_message_time(1), Some(30));
    assert!(chat.has_message_id(2));
    assert!(!chat.has_message_id(9));
    chat.top_reached(vec![msg(5, 1)], true);
    chat.bottom_reached(vec![], false);
    assert_eq!(chat.messages.len(), 3);
    let other = ActiveChat::default();
    chat.set(other);
    assert_eq!(chat.id(), 0);
    assert!(!chat.has_more_messages());
}

#[test]
fn showing_first_message_scrolls_up() {
    let mut data = open_chat(vec![msg(1, 10), msg(2, 20), msg(3, 30)], ScrollTo::MostRecent);
    data.add_message_to_view(CONV, 2);
    assert_eq!(data.get_chat_behavior(CONV).view_init.scroll_to, ScrollTo::MostRecent);
    data.add_message_to_view(CONV, 1);
    let b = data.get_chat_behavior(CONV);
    assert_eq!(b.view_init.scroll_to, ScrollTo::ScrollUp { view_top: 1 });
    assert_eq!(b.view_init.msg_time, Some(10));
    assert_eq!(data.get_top_of_view(CONV), Some(PartialMessage { message_id: 1, date: 10 }));
    assert_eq!(data.get_bottom_of_view(CONV), Some(PartialMessage { message_id: 2, date: 20 }));
    assert_eq!(data.get_top_of_view(5), None);
}

#[test]
fn showing_messages_scrolls_down_unless_most_recent() {
    let mut data = open_chat(vec![msg(1, 10), msg(2, 20), msg(3, 30)], ScrollTo::ScrollUp { view_top: 1 });
    data.add_message_to_view(CONV, 2);
    let b = data.get_chat_behavior(CONV);
    assert_eq!(b.view_init.scroll_to, ScrollTo::ScrollDown { view_bottom: 2 });
    assert_eq!(b.view_init.msg_time, Some(20));
    data.add_message_to_view(CONV, 3);
    let b = data.get_chat_behavior(CONV);
    assert_eq!(b.view_init.scroll_to, ScrollTo::MostRecent);
    assert_eq!(b.view_init.msg_time, None);
    data.add_message_to_view(5, 1);
    assert_eq!(data.get_bottom_of_view(CONV), Some(PartialMessage { message_id: 3, date: 30 }));
}

#[test]
fn unrecorded_behavior_is_default_and_not_changed() {
    let mut data = ChatData::default();
    data.set_active_chat(None, behavior(ScrollTo::ScrollUp { view_top: 1 }), vec![msg(1, 1)]);
    assert_eq!(data.active_chat.id(), 0);
    assert_eq!(data.active_chat.messages.len(), 0);
    assert_eq!(data.get_chat_behavior(0).view_init.scroll_to, ScrollTo::MostRecent);
    data.set_chat_behavior(3, behavior(ScrollTo::ScrollDown { view_bottom: 9 }));
    assert_eq!(data.get_chat_behavior(3).view_init.scroll_to, ScrollTo::ScrollDown { view_bottom: 9 });
}

#[test]
fn delete_removes_from_messages_and_view() {
    let mut data = open_chat(vec![msg(1, 10), msg(2, 20), msg(2, 25), msg(3, 30)], ScrollTo::MostRecent);
    data.add_message_to_view(CONV, 2);
    data.delete_message(CONV, 2);
    assert_eq!(deque_ids(&data), vec![1, 3]);
    assert_eq!(data.get_top_of_view(CONV), None);
    data.delete_message(5, 1);
    assert_eq!(deque_ids(&data), vec![1, 3]);
    data.add_message_to_view(CONV, 3);
    data.remove_message_from_view(CONV, 3);
    assert_eq!(data.get_top_of_view(CONV), None);
}

#[test]
fn new_message_slides_the_window() {
    let mut data = open_chat(vec![msg(1, 10), msg(2, 20)], ScrollTo::MostRecent);
    data.add_message_to_view(CONV, 1);
    assert_eq!(data.get_chat_behavior(CONV).view_init.scroll_to, ScrollTo::ScrollUp { view_top: 1 });
    assert!(!data.new_message(CONV, msg(3, 30)));
    data.set_chat_behavior(CONV, behavior(ScrollTo::MostRecent));
    assert!(data.new_message(CONV, msg(3, 30)));
    assert_eq!(deque_ids(&data), vec![2, 3]);
    assert_eq!(data.get_top_of_view(CONV), None);
    assert_eq!(data.active_chat.get_message_time(3), Some(30));
    assert!(!data.new_message(5, msg(4, 40)));
    assert_eq!(deque_ids(&data), vec![2, 3]);
    let mut away = open_chat(vec![msg(1, 10)], ScrollTo::ScrollUp { view_top: 1 });
    assert!(!away.new_message(CONV, msg(2, 20)));
    assert_eq!(deque_ids(&away), vec![1]);
}

#[test]
fn new_message_in_empty_conversation_goes_at_once() {
    let mut data = open_chat(vec![], ScrollTo::MostRecent);
    assert!(data.new_message(CONV, msg(1, 10)));
    assert!(data.active_chat.messages.is_empty());
}

#[test]
fn update_replaces_first_match_with_fresh_key() {
    let mut data = open_chat(vec![msg(1, 10), msg(2, 20), msg(2, 30)], ScrollTo::MostRecent);
    data.update_message(inner(2, 21, "edited"));
    let m: Vec<&Message> = data.active_chat.messages.iter().collect();
    assert_eq!(m[1].inner.text, "edited");
    assert_eq!(m[1].inner.date, 21);
    assert_ne!(m[1].key, "key-2");
    assert_eq!(m[1].key.len(), 36);
    for (i, c) in m[1].key.chars().enumerate() {
        if i == 8 || i == 13 || i == 18 || i == 23 {
            assert_eq!(c, '-');
        } else {
            assert!(c.is_ascii_digit() || ('a'..='f').contains(&c));
        }
    }
    assert_eq!(m[1].key.chars().nth(14), Some('4'));
    assert!(matches!(m[1].key.chars().nth(19), Some('8' | '9' | 'a' | 'b')));
    assert_eq!(m[2].inner.text, "hi");
    assert_eq!(m[2].key, "key-2");
    let mut other = inner(1, 10, "elsewhere");
    other.conversation_id = 5;
    data.update_message(other);
    assert_eq!(data.active_chat.messages[0].inner.text, "hi");
}

#[test]
fn scrolled_marks_the_open_conversation() {
    let mut data = open_chat(vec![], ScrollTo::MostRecent);
    data.scrolled(5);
    assert!(!data.active_chat.scrolled_once);
    data.scrolled(CONV);
    assert!(data.active_chat.scrolled_once);
}

#[test]
fn insert_messages_appends() {
    let mut data = open_chat(vec![msg(1, 10)], ScrollTo::MostRecent);
    data.insert_messages(CONV, vec![msg(2, 20), msg(3, 30)]);
    assert_eq!(deque_ids(&data), vec![1, 2, 3]);
    assert_eq!(data.active_chat.get_message_time(3), Some(30));
    data.insert_messages(5, vec![msg(4, 40)]);
    assert_eq!(deque_ids(&data), vec![1, 2, 3]);
}

#[test]
fn events_are_dispatched() {
    let mut data = open_chat(vec![msg(1, 10), msg(2, 20)], ScrollTo::MostRecent);
    assert!(!handle_message_event(&mut data, None, MessageEvent::Received { conversation_id: CONV, message: msg(3, 30) }));
    assert_eq!(deque_ids(&data), vec![1, 2]);
    assert!(handle_message_event(&mut data, Some(CONV), MessageEvent::Received { conversation_id: CONV, message: msg(3, 30) }));
    assert_eq!(deque_ids(&data), vec![2, 3]);
    assert!(handle_message_event(&mut data, Some(CONV), MessageEvent::Sent { conversation_id: CONV, message: msg(4, 40) }));
    assert_eq!(deque_ids(&data), vec![3, 4]);
    assert!(!handle_message_event(&mut data, Some(5), MessageEvent::Sent { conversation_id: CONV, message: msg(5, 50) }));
    assert_eq!(deque_ids(&data), vec![3, 4]);
    let edited = Message { inner: inner(3, 30, "edited"), key: String::from("k") };
    assert!(!handle_message_event(&mut data, Some(CONV), MessageEvent::Edited { conversation_id: CONV, message: edited }));
    assert_eq!(data.active_chat.messages[0].inner.text, "edited");
    assert!(!handle_message_event(&mut data, Some(CONV), MessageEvent::MessageReactionAdded { message: inner(4, 40, "reacted") }));
    assert_eq!(data.active_chat.messages[1].inner.text, "reacted");
    assert!(!handle_message_event(&mut data, Some(CONV), MessageEvent::MessagePinned { message: inner(4, 40, "pinned") }));
    assert_eq!(data.active_chat.messages[1].inner.text, "pinned");
    assert!(!handle_message_event(&mut data, Some(CONV), MessageEvent::MessageUnpinned { message: inner(9, 40, "absent") }));
    assert!(!handle_message_event(&mut data, Some(CONV), MessageEvent::Deleted { conversation_id: CONV, message_id: 3 }));
    assert_eq!(deque_ids(&data), vec![4]);
    assert!(!handle_message_event(&mut data, Some(CONV), MessageEvent::Other));
    assert_eq!(deque_ids(&data), vec![4]);
}

#[test]
fn chat_data_is_never_equal() {
    let a = ChatData::default();
    let b = ChatData::default();
    assert!(a != b);
    assert!(!(a == a));
}

#[test]
fn opening_steps() {
    let mut data = ChatData::default();
    data.set_chat_behavior(CONV, behavior(ScrollTo::ScrollUp { view_top: 4 }));
    assert!(matches!(init_chat_step(&data, false, Some(CONV), false), InitStep::WaitForState));
    assert!(matches!(init_chat_step(&data, true, None, false), InitStep::WaitForActiveChat));
    assert!(matches!(init_chat_step(&data, true, Some(CONV), true), InitStep::AlreadyOpen));
    match init_chat_step(&data, true, Some(CONV), false) {
        InitStep::Fetch { conv_id, behavior } => {
            assert_eq!(conv_id, CONV);
            assert_eq!(behavior.view_init.scroll_to, ScrollTo::ScrollUp { view_top: 4 });
        }
        _ => panic!("expected a fetch"),
    }
    match init_chat_step(&data, true, Some(5), false) {
        InitStep::Fetch { behavior, .. } => assert_eq!(behavior.view_init.scroll_to, ScrollTo::MostRecent),
        _ => panic!("expected a fetch"),
    }
}

#[test]
fn fetch_requests() {
    let (before, after) = window_requests(500, 20);
    assert_eq!(before, FetchMessagesConfig::Earlier { start_date: 500, limit: 20 });
    assert_eq!(after, FetchMessagesConfig::Later { start_date: 500, limit: 20 });
    assert_eq!(most_recent_request(40), FetchMessagesConfig::MostRecent { limit: 40 });
}
