//! The messages of the active conversation: how a window of them is put
//! together, which of them are shown, and where the view scrolls to.

use std::collections::HashMap;
use std::collections::VecDeque;
use vstd::prelude::*;
use vstd::std_specs::hash::*;
use vstd::std_specs::cmp::PartialEqSpecImpl;

verus! {

/// What happens when the view is scrolled to one of its ends.
#[derive(Clone, Copy, Debug, PartialEq, Eq, Structural)]
pub enum ScrollBehavior {
    DoNothing,
    FetchMore,
}

/// Where the view of a conversation starts when it is opened.
#[derive(Clone, Copy, Debug, PartialEq, Eq, Structural)]
pub enum ScrollTo {
    /// At the most recent message.
    MostRecent,
    /// With the message `view_top` at the top.
    ScrollUp { view_top: u128 },
    /// With the message `view_bottom` at the bottom.
    ScrollDown { view_bottom: u128 },
}

/// The start of a conversation's view: where it scrolls to, and the time of
/// the message it is centred on.
#[derive(Clone, Copy, Debug, PartialEq, Eq, Structural)]
pub struct ViewInit {
    pub scroll_to: ScrollTo,
    pub msg_time: Option<i64>,
}

/// How the view of a conversation behaves.
#[derive(Clone, Copy, Debug, PartialEq, Eq, Structural)]
pub struct ChatBehavior {
    pub view_init: ViewInit,
    pub on_scroll_end: ScrollBehavior,
    pub on_scroll_top: ScrollBehavior,
    pub most_recent_msg_id: Option<u128>,
}

/// The behavior of a conversation that nothing is known of: it opens at the
/// most recent message and fetches nothing when scrolled.
pub open spec fn default_behavior() -> ChatBehavior {
    ChatBehavior {
        view_init: ViewInit { scroll_to: ScrollTo::MostRecent, msg_time: None },
        on_scroll_end: ScrollBehavior::DoNothing,
        on_scroll_top: ScrollBehavior::DoNothing,
        most_recent_msg_id: None,
    }
}

impl Default for ChatBehavior {
    fn default() -> (r: ChatBehavior)
        ensures
            r == default_behavior(),
    {
        ChatBehavior {
            view_init: ViewInit { scroll_to: ScrollTo::MostRecent, msg_time: None },
            on_scroll_end: ScrollBehavior::DoNothing,
            on_scroll_top: ScrollBehavior::DoNothing,
            most_recent_msg_id: None,
        }
    }
}

/// Fetch more messages at an end of the view exactly when there are more.
pub open spec fn fetch_more_if(has_more: bool) -> ScrollBehavior {
    if has_more {
        ScrollBehavior::FetchMore
    } else {
        ScrollBehavior::DoNothing
    }
}

fn fetch_more_when(has_more: bool) -> (r: ScrollBehavior)
    ensures
        r == fetch_more_if(has_more),
{
    if has_more {
        ScrollBehavior::FetchMore
    } else {
        ScrollBehavior::DoNothing
    }
}

/// A message of a conversation, as the messaging service gives it.
pub struct MessageInner {
    pub id: u128,
    pub conversation_id: u128,
    /// When it was sent, in nanoseconds since the Unix epoch.
    pub date: i64,
    pub text: String,
}

/// A message as the interface holds it: the message, and the key under
/// which it is rendered.
pub struct Message {
    pub inner: MessageInner,
    pub key: String,
}

/// The messages and flags that one fetch of a conversation's messages gives.
pub struct FetchMessagesResponse {
    pub messages: Vec<Message>,
    pub has_more: bool,
    pub most_recent: Option<u128>,
}

/// Which messages of a conversation one fetch asks for.
#[derive(Clone, Copy, Debug, PartialEq, Eq, Structural)]
pub enum FetchMessagesConfig {
    /// The `limit` most recent messages.
    MostRecent { limit: usize },
    /// Up to `limit` messages sent before `start_date`.
    Earlier { start_date: i64, limit: usize },
    /// Up to `limit` messages sent after `start_date`.
    Later { start_date: i64, limit: usize },
    /// Up to `half_size` messages on either side of `center`.
    Window { center: i64, half_size: usize },
}

/// The two fetches that make up the window of messages around `date`: up to
/// `half_size` messages before it, then up to `half_size` after it.
pub fn window_requests(date: i64, half_size: usize) -> (r: (FetchMessagesConfig, FetchMessagesConfig))
    ensures
        r.0 == (FetchMessagesConfig::Earlier { start_date: date, limit: half_size }),
        r.1 == (FetchMessagesConfig::Later { start_date: date, limit: half_size }),
{
    (
        FetchMessagesConfig::Earlier { start_date: date, limit: half_size },
        FetchMessagesConfig::Later { start_date: date, limit: half_size },
    )
}

/// The fetch of the `limit` most recent messages.
pub fn most_recent_request(limit: usize) -> (r: FetchMessagesConfig)
    ensures
        r == (FetchMessagesConfig::MostRecent { limit }),
{
    FetchMessagesConfig::MostRecent { limit }
}

/// The messages around a point in time: those before it, then those after
/// it. When the first later message is the last earlier one, it is kept once.
pub open spec fn window(earlier: Seq<Message>, later: Seq<Message>) -> Seq<Message> {
    if earlier.len() > 0 && later.len() > 0 && later[0].inner.id == earlier.last().inner.id {
        earlier.drop_last() + later
    } else {
        earlier + later
    }
}

/// The behavior of a conversation opened at a point in time, given whether
/// there are more messages before and after the window fetched.
pub open spec fn window_behavior(
    old: ChatBehavior,
    has_more_before: bool,
    has_more_after: bool,
    most_recent: Option<u128>,
) -> ChatBehavior {
    ChatBehavior {
        view_init: old.view_init,
        on_scroll_end: fetch_more_if(has_more_after),
        on_scroll_top: fetch_more_if(has_more_before),
        most_recent_msg_id: most_recent,
    }
}

/// Puts together the window of messages around a point in time from the
/// answers to the two fetches, of the earlier and of the later messages,
/// and the conversation's new behavior.
pub fn fetch_window(
    chat_behavior: ChatBehavior,
    earlier: FetchMessagesResponse,
    later: FetchMessagesResponse,
) -> (r: (Vec<Message>, ChatBehavior))
    ensures
        r.0@ == window(earlier.messages@, later.messages@),
        r.1 == window_behavior(chat_behavior, earlier.has_more, later.has_more, later.most_recent),
{
    let mut messages = earlier.messages;
    let mut after = later.messages;
    let ghost e = messages@;
    if after.len() > 0 && messages.len() > 0 {
        let n = messages.len();
        if after[0].inner.id == messages[n - 1].inner.id {
            messages.pop();
            assert(messages@ =~= e.drop_last());
        }
    }
    messages.append(&mut after);
    let behavior = ChatBehavior {
        view_init: chat_behavior.view_init,
        on_scroll_end: fetch_more_when(later.has_more),
        on_scroll_top: fetch_more_when(earlier.has_more),
        most_recent_msg_id: later.most_recent,
    };
    (messages, behavior)
}

/// The behavior of a conversation opened at its most recent messages.
pub open spec fn most_recent_behavior(has_more: bool, most_recent: Option<u128>) -> ChatBehavior {
    ChatBehavior {
        view_init: default_behavior().view_init,
        on_scroll_end: ScrollBehavior::DoNothing,
        on_scroll_top: fetch_more_if(has_more),
        most_recent_msg_id: most_recent,
    }
}

/// The most recent messages of a conversation, as fetched, and the
/// conversation's new behavior: fetch more at the top when there are more.
pub fn fetch_most_recent(response: FetchMessagesResponse) -> (r: (Vec<Message>, ChatBehavior))
    ensures
        r.0@ == response.messages@,
        r.1 == most_recent_behavior(response.has_more, response.most_recent),
{
    let behavior = ChatBehavior {
        view_init: ViewInit { scroll_to: ScrollTo::MostRecent, msg_time: None },
        on_scroll_end: ScrollBehavior::DoNothing,
        on_scroll_top: fetch_more_when(response.has_more),
        most_recent_msg_id: response.most_recent,
    };
    (response.messages, behavior)
}


/// Opening a conversation at a point in time keeps the message at the seam
/// once: when the first later message has the id of the last earlier one,
/// the window is the earlier messages without their last, then the later
/// ones; otherwise it is all earlier messages, then all later ones. Either
/// way every later message ends the window, in order.
pub proof fn lemma_window_keeps_seam_once(earlier: Seq<Message>, later: Seq<Message>)
    ensures
        earlier.len() > 0 && later.len() > 0 && later[0].inner.id == earlier[earlier.len() - 1].inner.id
            ==> {
            &&& window(earlier, later).len() == earlier.len() - 1 + later.len()
            &&& forall|j: int|
                0 <= j < earlier.len() - 1 ==> #[trigger] window(earlier, later)[j] == earlier[j]
            &&& forall|j: int|
                0 <= j < later.len() ==> #[trigger] window(earlier, later)[earlier.len() - 1 + j]
                    == later[j]
        },
        !(earlier.len() > 0 && later.len() > 0 && later[0].inner.id == earlier[earlier.len() - 1].inner.id)
            ==> {
            &&& window(earlier, later).len() == earlier.len() + later.len()
            &&& forall|j: int| 0 <= j < earlier.len() ==> #[trigger] window(earlier, later)[j] == earlier[j]
            &&& forall|j: int|
                0 <= j < later.len() ==> #[trigger] window(earlier, later)[earlier.len() + j] == later[j]
        },
{
}

/// The scroll behaviors that a fetch gives fetch more at an end exactly when
/// the fetch said there are more messages beyond it, and do nothing there
/// otherwise; a conversation opened at its most recent messages never
/// fetches at its bottom end.
pub proof fn lemma_fetch_more_exactly_when_more(
    old: ChatBehavior,
    has_more_before: bool,
    has_more_after: bool,
    most_recent: Option<u128>,
)
    ensures
        (most_recent_behavior(has_more_before, most_recent).on_scroll_top == ScrollBehavior::FetchMore)
            == has_more_before,
        (most_recent_behavior(has_more_before, most_recent).on_scroll_top == ScrollBehavior::DoNothing)
            == !has_more_before,
        most_recent_behavior(has_more_before, most_recent).on_scroll_end == ScrollBehavior::DoNothing,
        most_recent_behavior(has_more_before, most_recent).view_init.scroll_to == ScrollTo::MostRecent,
        (window_behavior(old, has_more_before, has_more_after, most_recent).on_scroll_top
            == ScrollBehavior::FetchMore) == has_more_before,
        (window_behavior(old, has_more_before, has_more_after, most_recent).on_scroll_top
            == ScrollBehavior::DoNothing) == !has_more_before,
        (window_behavior(old, has_more_before, has_more_after, most_recent).on_scroll_end
            == ScrollBehavior::FetchMore) == has_more_after,
        (window_behavior(old, has_more_before, has_more_after, most_recent).on_scroll_end
            == ScrollBehavior::DoNothing) == !has_more_after,
        window_behavior(old, has_more_before, has_more_after, most_recent).view_init == old.view_init,
{
}

/// A shown message: its id and the time it was sent.
#[derive(Clone, Copy, Debug, PartialEq, Eq, Structural)]
pub struct PartialMessage {
    pub message_id: u128,
    pub date: i64,
}

/// The position of the message `id` in `s`, or -1 when it is not there.
pub open spec fn position_of(s: Seq<PartialMessage>, id: u128) -> int
    decreases s.len(),
{
    if s.len() == 0 {
        -1
    } else if s.last().message_id == id {
        s.len() - 1
    } else {
        position_of(s.drop_last(), id)
    }
}

/// No message is shown twice.
pub open spec fn distinct_ids(s: Seq<PartialMessage>) -> bool {
    forall|i: int, j: int| 0 <= i < j < s.len() ==> s[i].message_id != s[j].message_id
}

proof fn lemma_position_of(s: Seq<PartialMessage>, id: u128)
    ensures
        -1 <= position_of(s, id) < s.len(),
        position_of(s, id) >= 0 ==> s[position_of(s, id)].message_id == id,
        position_of(s, id) < 0 ==> forall|j: int| 0 <= j < s.len() ==> #[trigger] s[j].message_id != id,
    decreases s.len(),
{
    if s.len() > 0 && s.last().message_id != id {
        lemma_position_of(s.drop_last(), id);
        assert forall|j: int| 0 <= j < s.len() - 1 implies #[trigger] s[j] == s.drop_last()[j] by {}
    }
}

/// The shown messages after `p` is shown: a message already shown takes the
/// time of `p` in its place; another is added at the end.
pub open spec fn shown_with(s: Seq<PartialMessage>, p: PartialMessage) -> Seq<PartialMessage> {
    let i = position_of(s, p.message_id);
    if i >= 0 {
        s.update(i, p)
    } else {
        s.push(p)
    }
}

/// The shown messages after the message `id` stops being shown.
pub open spec fn shown_without(s: Seq<PartialMessage>, id: u128) -> Seq<PartialMessage> {
    let i = position_of(s, id);
    if i >= 0 {
        s.remove(i)
    } else {
        s
    }
}

/// The position of the first of the shown messages sent earliest (0 when
/// none is shown).
pub open spec fn earliest_index(s: Seq<PartialMessage>) -> int
    decreases s.len(),
{
    if s.len() <= 1 {
        0
    } else {
        let i = earliest_index(s.drop_last());
        if s.last().date < s[i].date {
            s.len() - 1
        } else {
            i
        }
    }
}

/// The position of the first of the shown messages sent latest (0 when
/// none is shown).
pub open spec fn latest_index(s: Seq<PartialMessage>) -> int
    decreases s.len(),
{
    if s.len() <= 1 {
        0
    } else {
        let i = latest_index(s.drop_last());
        if s.last().date > s[i].date {
            s.len() - 1
        } else {
            i
        }
    }
}

/// The top of a non-empty view is a message sent no later than any shown
/// message, and its bottom one sent no earlier than any.
pub proof fn lemma_view_ends_are_extreme(s: Seq<PartialMessage>)
    requires
        s.len() > 0,
    ensures
        0 <= earliest_index(s) < s.len(),
        0 <= latest_index(s) < s.len(),
        forall|j: int| 0 <= j < s.len() ==> s[earliest_index(s)].date <= #[trigger] s[j].date,
        forall|j: int| 0 <= j < s.len() ==> s[latest_index(s)].date >= #[trigger] s[j].date,
    decreases s.len(),
{
    if s.len() > 1 {
        lemma_view_ends_are_extreme(s.drop_last());
        assert forall|j: int| 0 <= j < s.len() - 1 implies #[trigger] s[j] == s.drop_last()[j] by {}
    }
}

/// The shown message that was sent earliest (the first such), if any.
pub open spec fn earliest_shown(s: Seq<PartialMessage>) -> Option<PartialMessage> {
    if s.len() == 0 {
        None
    } else {
        Some(s[earliest_index(s)])
    }
}

/// The shown message that was sent latest (the first such), if any.
pub open spec fn latest_shown(s: Seq<PartialMessage>) -> Option<PartialMessage> {
    if s.len() == 0 {
        None
    } else {
        Some(s[latest_index(s)])
    }
}

/// Showing a message that was not shown and hiding it again gives the view
/// back.
pub proof fn lemma_show_then_hide(s: Seq<PartialMessage>, p: PartialMessage)
    requires
        position_of(s, p.message_id) < 0,
    ensures
        shown_without(shown_with(s, p), p.message_id) == s,
{
    let t = s.push(p);
    assert(t.drop_last() =~= s);
    assert(position_of(t, p.message_id) == s.len());
    assert(t.remove(s.len() as int) =~= s);
}

/// After a message is shown it is in the view, with the time it was shown
/// with, and no message is in the view twice; after a message is hidden it
/// is not in the view, and still no message is in it twice.
pub proof fn lemma_shown_distinct(s: Seq<PartialMessage>, p: PartialMessage, id: u128)
    requires
        distinct_ids(s),
    ensures
        distinct_ids(shown_with(s, p)),
        shown_with(s, p).contains(p),
        distinct_ids(shown_without(s, id)),
        forall|j: int| 0 <= j < shown_without(s, id).len() ==> #[trigger] shown_without(s, id)[j].message_id != id,
{
    lemma_position_of(s, p.message_id);
    lemma_position_of(s, id);
    let w = shown_with(s, p);
    let i = position_of(s, p.message_id);
    if i >= 0 {
        assert(w[i] == p);
    } else {
        assert(w[s.len() as int] == p);
    }
    let k = position_of(s, id);
    if k >= 0 {
        let r = s.remove(k);
        assert forall|j: int| 0 <= j < r.len() implies #[trigger] r[j].message_id != id by {
            if j < k {
                assert(r[j] == s[j]);
            } else {
                assert(r[j] == s[j + 1]);
            }
        }
        assert forall|a: int, b: int| 0 <= a < b < r.len() implies r[a].message_id != r[b].message_id by {
            let a0 = if a < k { a } else { a + 1 };
            let b0 = if b < k { b } else { b + 1 };
            assert(r[a] == s[a0] && r[b] == s[b0]);
        }
    }
}

/// The messages currently shown in the view, each at most once, in the
/// order in which they were first shown.
pub struct MsgView {
    shown: Vec<PartialMessage>,
}

impl View for MsgView {
    type V = Seq<PartialMessage>;

    closed spec fn view(&self) -> Seq<PartialMessage> {
        self.shown@
    }
}

impl MsgView {
    #[verifier::type_invariant]
    spec fn well_formed(self) -> bool {
        distinct_ids(self.shown@)
    }

    /// No message shown.
    pub fn new() -> (r: MsgView)
        ensures
            r@ == Seq::<PartialMessage>::empty(),
    {
        MsgView { shown: Vec::new() }
    }

    /// The position of the message `id` among the shown ones, if it is shown.
    fn find(&self, id: u128) -> (r: Option<usize>)
        ensures
            r matches Some(i) ==> i as int == position_of(self@, id),
            r is None ==> position_of(self@, id) < 0,
    {
        proof {
            lemma_position_of(self@, id);
            use_type_invariant(self);
        }
        let n = self.shown.len();
        for i in 0..n
            invariant
                n == self.shown@.len(),
                distinct_ids(self.shown@),
                -1 <= position_of(self.shown@, id) < n,
                position_of(self.shown@, id) >= 0 ==> self.shown@[position_of(self.shown@, id)].message_id == id,
                position_of(self.shown@, id) < 0 ==> forall|j: int| 0 <= j < n ==> #[trigger] self.shown@[j].message_id != id,
                forall|j: int| 0 <= j < i ==> #[trigger] self.shown@[j].message_id != id,
        {
            if self.shown[i].message_id == id {
                return Some(i);
            }
        }
        None
    }

    /// Shows `p`, or moves the time of the shown message with its id to `p`'s.
    pub fn insert(&mut self, p: PartialMessage)
        ensures
            final(self)@ == shown_with(old(self)@, p),
    {
        proof {
            use_type_invariant(&*self);
            lemma_position_of(self@, p.message_id);
        }
        match self.find(p.message_id) {
            Some(i) => {
                let mut shown = Vec::new();
                std::mem::swap(&mut shown, &mut self.shown);
                shown.set(i, p);
                self.shown = shown;
            },
            None => {
                let mut shown = Vec::new();
                std::mem::swap(&mut shown, &mut self.shown);
                shown.push(p);
                self.shown = shown;
            },
        }
    }

    /// Stops showing the message `id`.
    pub fn remove(&mut self, id: u128)
        ensures
            final(self)@ == shown_without(old(self)@, id),
    {
        proof {
            use_type_invariant(&*self);
            lemma_position_of(self@, id);
        }
        match self.find(id) {
            Some(i) => {
                let mut shown = Vec::new();
                std::mem::swap(&mut shown, &mut self.shown);
                shown.remove(i);
                self.shown = shown;
            },
            None => {},
        }
    }

    /// Shows no message.
    pub fn clear(&mut self)
        ensures
            final(self)@ == Seq::<PartialMessage>::empty(),
    {
        self.shown = Vec::new();
    }

    /// The shown message sent earliest (the first such in the view).
    pub fn get_earliest(&self) -> (r: Option<PartialMessage>)
        ensures
            r == earliest_shown(self@),
    {
        let n = self.shown.len();
        if n == 0 {
            return None;
        }
        let mut best: usize = 0;
        for i in 1..n
            invariant
                n == self.shown@.len(),
                n > 0,
                0 <= best < i,
                best as int == earliest_index(self.shown@.subrange(0, i as int)),
        {
            let ghost pre = self.shown@.subrange(0, i + 1);
            assert(pre.drop_last() =~= self.shown@.subrange(0, i as int));
            if self.shown[i].date < self.shown[best].date {
                best = i;
            }
        }
        assert(self.shown@.subrange(0, n as int) =~= self.shown@);
        Some(self.shown[best])
    }

    /// The shown message sent latest (the first such in the view).
    pub fn get_latest(&self) -> (r: Option<PartialMessage>)
        ensures
            r == latest_shown(self@),
    {
        let n = self.shown.len();
        if n == 0 {
            return None;
        }
        let mut best: usize = 0;
        for i in 1..n
            invariant
                n == self.shown@.len(),
                n > 0,
                0 <= best < i,
                best as int == latest_index(self.shown@.subrange(0, i as int)),
        {
            let ghost pre = self.shown@.subrange(0, i + 1);
            assert(pre.drop_last() =~= self.shown@.subrange(0, i as int));
            if self.shown[i].date > self.shown[best].date {
                best = i;
            }
        }
        assert(self.shown@.subrange(0, n as int) =~= self.shown@);
        Some(self.shown[best])
    }
}


/// `base` with the time at which each of `msgs` was sent recorded under its
/// id; of two messages with one id, the later in the list decides.
pub open spec fn times_with(base: Map<u128, i64>, msgs: Seq<Message>) -> Map<u128, i64>
    decreases msgs.len(),
{
    if msgs.len() == 0 {
        base
    } else {
        times_with(base, msgs.drop_last()).insert(msgs.last().inner.id, msgs.last().inner.date)
    }
}

/// When each message was sent, by id.
pub open spec fn times_of(msgs: Seq<Message>) -> Map<u128, i64> {
    times_with(Map::empty(), msgs)
}

/// What an active conversation is opened with.
pub struct ActiveChatArgs {
    pub conversation_id: u128,
    pub messages: Vec<Message>,
    pub chat_behavior: ChatBehavior,
}

/// The conversation that is open: its messages, the times at which they
/// were sent, and which of them are shown.
pub struct ActiveChat {
    pub conversation_id: u128,
    pub messages: VecDeque<Message>,
    pub chat_behavior: ChatBehavior,
    pub displayed_messages: MsgView,
    pub message_times: HashMap<u128, i64>,
    pub scrolled_once: bool,
}

/// Records in `times` when each of `msgs` was sent, from the first to the
/// last.
fn record_times(times: &mut HashMap<u128, i64>, msgs: &Vec<Message>)
    ensures
        final(times)@ == times_with(old(times)@, msgs@),
{
    broadcast use group_hash_axioms;

    let n = msgs.len();
    for i in 0..n
        invariant
            n == msgs@.len(),
            times@ == times_with(old(times)@, msgs@.subrange(0, i as int)),
    {
        let ghost pre = msgs@.subrange(0, i + 1);
        assert(pre.drop_last() =~= msgs@.subrange(0, i as int));
        times.insert(msgs[i].inner.id, msgs[i].inner.date);
    }
    assert(msgs@.subrange(0, n as int) =~= msgs@);
}

/// The messages of `msgs`, in order, in a deque.
fn into_deque(msgs: Vec<Message>) -> (r: VecDeque<Message>)
    ensures
        r@ == msgs@,
{
    let mut rest = msgs;
    let ghost all = rest@;
    let mut r: VecDeque<Message> = VecDeque::new();
    while rest.len() > 0
        invariant
            all == rest@ + r@,
        decreases rest@.len(),
    {
        let m = rest.pop().unwrap();
        r.push_front(m);
        assert(all =~= rest@ + r@);
    }
    assert(r@ =~= all);
    r
}

/// The times of the messages of a deque, by id.
fn times_of_deque(msgs: &VecDeque<Message>) -> (r: HashMap<u128, i64>)
    ensures
        r@ == times_of(msgs@),
{
    broadcast use group_hash_axioms;

    let mut times: HashMap<u128, i64> = HashMap::new();
    let n = msgs.len();
    for i in 0..n
        invariant
            n == msgs@.len(),
            times@ == times_with(Map::empty(), msgs@.subrange(0, i as int)),
    {
        let ghost pre = msgs@.subrange(0, i + 1);
        assert(pre.drop_last() =~= msgs@.subrange(0, i as int));
        times.insert(msgs[i].inner.id, msgs[i].inner.date);
    }
    assert(msgs@.subrange(0, n as int) =~= msgs@);
    times
}

impl Default for ActiveChat {
    fn default() -> (r: ActiveChat)
        ensures
            r.conversation_id == 0,
            r.messages@ == Seq::<Message>::empty(),
            r.chat_behavior == default_behavior(),
            r.displayed_messages@ == Seq::<PartialMessage>::empty(),
            r.message_times@ == Map::<u128, i64>::empty(),
            !r.scrolled_once,
    {
        ActiveChat {
            conversation_id: 0,
            messages: VecDeque::new(),
            chat_behavior: ChatBehavior::default(),
            displayed_messages: MsgView::new(),
            message_times: HashMap::new(),
            scrolled_once: false,
        }
    }
}

impl ActiveChat {
    /// Opens a conversation with its messages, in order, and none shown.
    pub fn new(args: ActiveChatArgs) -> (r: ActiveChat)
        ensures
            r.conversation_id == args.conversation_id,
            r.messages@ == args.messages@,
            r.chat_behavior == args.chat_behavior,
            r.displayed_messages@ == Seq::<PartialMessage>::empty(),
            r.message_times@ == times_of(args.messages@),
            !r.scrolled_once,
    {
        let mut message_times: HashMap<u128, i64> = HashMap::new();
        record_times(&mut message_times, &args.messages);
        let messages = into_deque(args.messages);
        ActiveChat {
            conversation_id: args.conversation_id,
            messages,
            chat_behavior: args.chat_behavior,
            displayed_messages: MsgView::new(),
            message_times,
            scrolled_once: false,
        }
    }

    /// Whether there are earlier messages to fetch when the view reaches
    /// its top.
    pub fn has_more_messages(&self) -> (r: bool)
        ensures
            r == (self.chat_behavior.on_scroll_top == ScrollBehavior::FetchMore),
    {
        match self.chat_behavior.on_scroll_top {
            ScrollBehavior::FetchMore => true,
            ScrollBehavior::DoNothing => false,
        }
    }

    /// Rebuilds the times of the messages from the messages.
    pub fn init_message_times(&mut self)
        ensures
            final(self).message_times@ == times_of(old(self).messages@),
            final(self).conversation_id == old(self).conversation_id,
            final(self).messages@ == old(self).messages@,
            final(self).chat_behavior == old(self).chat_behavior,
            final(self).displayed_messages@ == old(self).displayed_messages@,
            final(self).scrolled_once == old(self).scrolled_once,
    {
        self.message_times = times_of_deque(&self.messages);
    }

    /// Replaces this conversation with `other`.
    pub fn set(&mut self, other: ActiveChat)
        ensures
            *final(self) == other,
    {
        *self = other;
    }

    /// When the message `msg_id` was sent, if it is known.
    pub fn get_message_time(&self, msg_id: u128) -> (r: Option<i64>)
        ensures
            r == (if self.message_times@.contains_key(msg_id) {
                Some(self.message_times@[msg_id])
            } else {
                None
            }),
    {
        broadcast use group_hash_axioms;

        match self.message_times.get(&msg_id) {
            Some(t) => Some(*t),
            None => None,
        }
    }

    /// Shows the message `msg_id` with the time it was sent; a message
    /// whose time is unknown is not shown.
    pub fn add_message_to_view(&mut self, msg_id: u128)
        ensures
            final(self).displayed_messages@ == if old(self).message_times@.contains_key(msg_id) {
                shown_with(
                    old(self).displayed_messages@,
                    PartialMessage { message_id: msg_id, date: old(self).message_times@[msg_id] },
                )
            } else {
                old(self).displayed_messages@
            },
            final(self).conversation_id == old(self).conversation_id,
            final(self).messages@ == old(self).messages@,
            final(self).chat_behavior == old(self).chat_behavior,
            final(self).message_times@ == old(self).message_times@,
            final(self).scrolled_once == old(self).scrolled_once,
    {
        match self.get_message_time(msg_id) {
            Some(date) => {
                self.displayed_messages.insert(PartialMessage { message_id: msg_id, date });
            },
            None => {},
        }
    }

    /// Stops showing the message `msg_id`.
    pub fn remove_message_from_view(&mut self, msg_id: u128)
        ensures
            final(self).displayed_messages@ == shown_without(old(self).displayed_messages@, msg_id),
            final(self).conversation_id == old(self).conversation_id,
            final(self).messages@ == old(self).messages@,
            final(self).chat_behavior == old(self).chat_behavior,
            final(self).message_times@ == old(self).message_times@,
            final(self).scrolled_once == old(self).scrolled_once,
    {
        self.displayed_messages.remove(msg_id);
    }

    /// Shows no message.
    pub fn clear_message_view(&mut self)
        ensures
            final(self).displayed_messages@ == Seq::<PartialMessage>::empty(),
            final(self).conversation_id == old(self).conversation_id,
            final(self).messages@ == old(self).messages@,
            final(self).chat_behavior == old(self).chat_behavior,
            final(self).message_times@ == old(self).message_times@,
            final(self).scrolled_once == old(self).scrolled_once,
    {
        self.displayed_messages.clear();
    }

    /// The view reached its top with `new_messages` fetched: nothing is
    /// done with them yet.
    pub fn top_reached(&mut self, new_messages: Vec<Message>, has_more: bool)
        ensures
            *final(self) == *old(self),
    {
    }

    /// The view reached its bottom with `new_messages` fetched: nothing is
    /// done with them yet.
    pub fn bottom_reached(&mut self, new_messages: Vec<Message>, has_more: bool)
        ensures
            *final(self) == *old(self),
    {
    }

    /// The id of the conversation.
    pub fn id(&self) -> (r: u128)
        ensures
            r == self.conversation_id,
    {
        self.conversation_id
    }

    /// Appends `msgs` to the conversation's messages and records when they
    /// were sent.
    pub fn insert_messages(&mut self, msgs: Vec<Message>)
        ensures
            final(self).messages@ == old(self).messages@ + msgs@,
            final(self).message_times@ == times_with(old(self).message_times@, msgs@),
            final(self).conversation_id == old(self).conversation_id,
            final(self).chat_behavior == old(self).chat_behavior,
            final(self).displayed_messages@ == old(self).displayed_messages@,
            final(self).scrolled_once == old(self).scrolled_once,
    {
        record_times(&mut self.message_times, &msgs);
        let mut tail = into_deque(msgs);
        self.messages.append(&mut tail);
    }

    /// Whether the message `id` is one of the conversation's messages.
    pub fn has_message_id(&self, id: u128) -> (r: bool)
        ensures
            r == exists|i: int| 0 <= i < self.messages@.len() && #[trigger] self.messages@[i].inner.id == id,
    {
        let n = self.messages.len();
        for i in 0..n
            invariant
                n == self.messages@.len(),
                forall|j: int| 0 <= j < i ==> #[trigger] self.messages@[j].inner.id != id,
        {
            if self.messages[i].inner.id == id {
                return true;
            }
        }
        false
    }
}


/// The behavior recorded for conversation `id`, or the default behavior.
pub open spec fn behavior_of(m: Map<u128, ChatBehavior>, id: u128) -> ChatBehavior {
    if m.contains_key(id) {
        m[id]
    } else {
        default_behavior()
    }
}

/// `b` with its view starting with `view_init`.
pub open spec fn with_view_init(b: ChatBehavior, view_init: ViewInit) -> ChatBehavior {
    ChatBehavior { view_init, ..b }
}

/// The behaviors after the view of `conv` is set to start at the earliest
/// shown message: only a recorded behavior changes, and only when a message
/// is shown.
pub open spec fn scrolled_up(
    m: Map<u128, ChatBehavior>,
    conv: u128,
    shown: Seq<PartialMessage>,
) -> Map<u128, ChatBehavior> {
    if m.contains_key(conv) && shown.len() > 0 {
        let top = earliest_shown(shown)->0;
        m.insert(
            conv,
            with_view_init(
                m[conv],
                ViewInit {
                    scroll_to: ScrollTo::ScrollUp { view_top: top.message_id },
                    msg_time: Some(top.date),
                },
            ),
        )
    } else {
        m
    }
}

/// The id of the last message, or 0 (the nil id) when there is none.
pub open spec fn last_id_or_nil(msgs: Seq<Message>) -> u128 {
    if msgs.len() > 0 {
        msgs.last().inner.id
    } else {
        0
    }
}

/// The behaviors after the view of `conv` is set to end at the latest shown
/// message: at the most recent messages when that is the conversation's
/// last message or no message is shown, else with that message at the
/// bottom. Only a recorded behavior changes.
pub open spec fn scrolled_down(
    m: Map<u128, ChatBehavior>,
    conv: u128,
    shown: Seq<PartialMessage>,
    msgs: Seq<Message>,
) -> Map<u128, ChatBehavior> {
    if m.contains_key(conv) {
        let view_init = if shown.len() > 0 && latest_shown(shown)->0.message_id != last_id_or_nil(msgs) {
            ViewInit {
                scroll_to: ScrollTo::ScrollDown { view_bottom: latest_shown(shown)->0.message_id },
                msg_time: Some(latest_shown(shown)->0.date),
            }
        } else {
            ViewInit { scroll_to: ScrollTo::MostRecent, msg_time: None }
        };
        m.insert(conv, with_view_init(m[conv], view_init))
    } else {
        m
    }
}

/// The messages of `msgs` other than those with id `id`, in order.
pub open spec fn without_id(msgs: Seq<Message>, id: u128) -> Seq<Message>
    decreases msgs.len(),
{
    if msgs.len() == 0 {
        Seq::empty()
    } else {
        let rest = without_id(msgs.drop_last(), id);
        if msgs.last().inner.id != id {
            rest.push(msgs.last())
        } else {
            rest
        }
    }
}

/// The messages of a deque without those with id `id`.
fn drop_id(msgs: VecDeque<Message>, id: u128) -> (r: VecDeque<Message>)
    ensures
        r@ == without_id(msgs@, id),
{
    let mut rest = msgs;
    let ghost all = rest@;
    let mut r: VecDeque<Message> = VecDeque::new();
    while rest.len() > 0
        invariant
            rest@.len() <= all.len(),
            r@ == without_id(all.subrange(0, all.len() - rest@.len()), id),
            rest@ == all.subrange(all.len() - rest@.len(), all.len() as int),
        decreases rest@.len(),
    {
        let ghost k = all.len() - rest@.len();
        let m = rest.pop_front().unwrap();
        assert(all.subrange(0, k + 1).drop_last() =~= all.subrange(0, k));
        assert(all[k] == m);
        assert(rest@ =~= all.subrange(k + 1, all.len() as int));
        if m.inner.id != id {
            r.push_back(m);
        }
    }
    assert(all.subrange(0, all.len() as int) =~= all);
    r
}

/// A lowercase hexadecimal digit.
pub open spec fn is_lower_hex(c: char) -> bool {
    ('0' <= c && c <= '9') || ('a' <= c && c <= 'f')
}

/// The shape of the text of a random (version 4) UUID: 36 characters,
/// hyphens after the 8th, 12th, 16th and 20th hexadecimal digit, and
/// lowercase hexadecimal digits everywhere else; the 13th digit, the
/// version, is 4, and the 17th, the variant, is one of 8, 9, a and b.
pub open spec fn uuid_text(s: Seq<char>) -> bool {
    &&& s.len() == 36
    &&& forall|i: int|
        0 <= i < 36 ==> if i == 8 || i == 13 || i == 18 || i == 23 {
            #[trigger] s[i] == '-'
        } else {
            is_lower_hex(s[i])
        }
    &&& s[14] == '4'
    &&& (s[19] == '8' || s[19] == '9' || s[19] == 'a' || s[19] == 'b')
}

/// A fresh key under which a changed message is rendered again: the text
/// of `uuid::Uuid::new_v4()`, which `Display` writes in the hyphenated
/// lowercase form. The UUID is random: only the shape of its text is stated.
#[verifier::external_body]
fn fresh_key() -> (r: String)
    ensures
        uuid_text(r@),
{
    uuid::Uuid::new_v4().to_string()
}

/// The data behind the chat view: the open conversation, and the recorded
/// behavior of each conversation.
pub struct ChatData {
    pub active_chat: ActiveChat,
    pub chat_behaviors: HashMap<u128, ChatBehavior>,
}

impl Default for ChatData {
    fn default() -> (r: ChatData)
        ensures
            r.active_chat.conversation_id == 0,
            r.active_chat.messages@ == Seq::<Message>::empty(),
            r.active_chat.displayed_messages@ == Seq::<PartialMessage>::empty(),
            r.active_chat.message_times@ == Map::<u128, i64>::empty(),
            r.chat_behaviors@ == Map::<u128, ChatBehavior>::empty(),
    {
        ChatData { active_chat: ActiveChat::default(), chat_behaviors: HashMap::new() }
    }
}

/// Two open conversations agree in everything but whether they were
/// scrolled.
pub open spec fn same_but_scrolled(a: ActiveChat, b: ActiveChat) -> bool {
    &&& a.conversation_id == b.conversation_id
    &&& a.messages@ == b.messages@
    &&& a.chat_behavior == b.chat_behavior
    &&& a.message_times@ == b.message_times@
    &&& a.displayed_messages@ == b.displayed_messages@
}

/// Two open conversations agree in everything but which messages are shown.
pub open spec fn same_but_view(a: ActiveChat, b: ActiveChat) -> bool {
    &&& a.conversation_id == b.conversation_id
    &&& a.messages@ == b.messages@
    &&& a.chat_behavior == b.chat_behavior
    &&& a.message_times@ == b.message_times@
    &&& a.scrolled_once == b.scrolled_once
}

/// The shown messages after the message `msg` is added to the view of `a`:
/// it is shown with the time it was sent, when that is known.
pub open spec fn shown_after_add(a: ActiveChat, msg: u128) -> Seq<PartialMessage> {
    if a.message_times@.contains_key(msg) {
        shown_with(
            a.displayed_messages@,
            PartialMessage { message_id: msg, date: a.message_times@[msg] },
        )
    } else {
        a.displayed_messages@
    }
}

/// The behaviors after the message `msg` is added to the view of the open
/// conversation `conv`: when it is the conversation's first message the view
/// starts at the top of what is shown; else, unless the view is at the most
/// recent messages, it ends at the bottom of what is shown.
pub open spec fn behaviors_after_add(
    m: Map<u128, ChatBehavior>,
    a: ActiveChat,
    conv: u128,
    msg: u128,
) -> Map<u128, ChatBehavior> {
    let shown = shown_after_add(a, msg);
    if a.messages@.len() > 0 && a.messages@[0].inner.id == msg {
        scrolled_up(m, conv, shown)
    } else if behavior_of(m, conv).view_init.scroll_to != ScrollTo::MostRecent {
        scrolled_down(m, conv, shown, a.messages@)
    } else {
        m
    }
}

/// When a message other than the conversation's first comes into view while
/// the recorded view of the conversation is not at its most recent
/// messages, the recorded view then ends at a shown message sent no earlier
/// than any shown message (whichever message came into view), with that
/// message's time; or, when that message is the conversation's last one or
/// nothing is shown, at the most recent messages. The behaviors of other
/// conversations stay as they were.
pub proof fn lemma_view_bottom_is_latest_shown(
    m: Map<u128, ChatBehavior>,
    a: ActiveChat,
    conv: u128,
    msg: u128,
)
    requires
        m.contains_key(conv),
        m[conv].view_init.scroll_to != ScrollTo::MostRecent,
        !(a.messages@.len() > 0 && a.messages@[0].inner.id == msg),
    ensures
        ({
            let shown = shown_after_add(a, msg);
            let after = behaviors_after_add(m, a, conv, msg);
            let v = after[conv].view_init;
            &&& after.contains_key(conv)
            &&& forall|k: u128| k != conv ==> #[trigger] after.contains_key(k) == m.contains_key(k)
            &&& forall|k: u128| k != conv && m.contains_key(k) ==> #[trigger] after[k] == m[k]
            &&& after[conv].on_scroll_top == m[conv].on_scroll_top
            &&& after[conv].on_scroll_end == m[conv].on_scroll_end
            &&& after[conv].most_recent_msg_id == m[conv].most_recent_msg_id
            &&& match v.scroll_to {
                ScrollTo::ScrollDown { view_bottom } => exists|i: int|
                    {
                        &&& 0 <= i < shown.len()
                        &&& #[trigger] shown[i].message_id == view_bottom
                        &&& v.msg_time == Some(shown[i].date)
                        &&& view_bottom != last_id_or_nil(a.messages@)
                        &&& forall|j: int| 0 <= j < shown.len() ==> #[trigger] shown[j].date <= shown[i].date
                    },
                ScrollTo::MostRecent => {
                    &&& v.msg_time is None
                    &&& shown.len() > 0 ==> exists|i: int|
                        {
                            &&& 0 <= i < shown.len()
                            &&& #[trigger] shown[i].message_id == last_id_or_nil(a.messages@)
                            &&& forall|j: int| 0 <= j < shown.len() ==> #[trigger] shown[j].date <= shown[i].date
                        }
                },
                ScrollTo::ScrollUp { .. } => false,
            }
        }),
{
    let shown = shown_after_add(a, msg);
    if shown.len() > 0 {
        lemma_view_ends_are_extreme(shown);
        let i = latest_index(shown);
        assert(shown[i].message_id == latest_shown(shown)->0.message_id);
    }
}

/// A new message is appended to the open conversation `conv` only when its
/// view is at the most recent messages.
pub open spec fn appends_new(m: Map<u128, ChatBehavior>, conv: u128) -> bool {
    m.contains_key(conv) && m[conv].view_init.scroll_to == ScrollTo::MostRecent
}

/// The position of the first message with id `id`, or -1.
pub open spec fn message_index(msgs: Seq<Message>, id: u128) -> int
    decreases msgs.len(),
{
    if msgs.len() == 0 {
        -1
    } else if msgs[0].inner.id == id {
        0
    } else {
        let rest = message_index(msgs.drop_first(), id);
        if rest < 0 {
            -1
        } else {
            rest + 1
        }
    }
}

proof fn lemma_message_index(msgs: Seq<Message>, id: u128)
    ensures
        -1 <= message_index(msgs, id) < msgs.len(),
        message_index(msgs, id) >= 0 ==> msgs[message_index(msgs, id)].inner.id == id,
        forall|j: int|
            0 <= j < msgs.len() && (message_index(msgs, id) < 0 || j < message_index(msgs, id))
                ==> #[trigger] msgs[j].inner.id != id,
    decreases msgs.len(),
{
    if msgs.len() > 0 {
        lemma_message_index(msgs.drop_first(), id);
        assert forall|j: int|
            0 <= j < msgs.len() && (message_index(msgs, id) < 0 || j < message_index(msgs, id))
                implies #[trigger] msgs[j].inner.id != id by {
            if j > 0 {
                assert(msgs[j] == msgs.drop_first()[j - 1]);
            }
        }
    }
}

/// `after` is `before` once the message `message_id` of conversation
/// `conv` is deleted: when that conversation is open, the message is no
/// longer shown and no message with its id is kept; else nothing changes.
pub open spec fn message_deleted(before: ChatData, after: ChatData, conv: u128, message_id: u128) -> bool {
    if before.active_chat.conversation_id != conv {
        after == before
    } else {
        &&& after.active_chat.displayed_messages@ == shown_without(
            before.active_chat.displayed_messages@,
            message_id,
        )
        &&& after.active_chat.messages@ == without_id(before.active_chat.messages@, message_id)
        &&& after.active_chat.conversation_id == before.active_chat.conversation_id
        &&& after.active_chat.chat_behavior == before.active_chat.chat_behavior
        &&& after.active_chat.message_times@ == before.active_chat.message_times@
        &&& after.active_chat.scrolled_once == before.active_chat.scrolled_once
        &&& after.chat_behaviors == before.chat_behaviors
    }
}

/// `after` is `before` once a new message `msg` of conversation `conv` has
/// arrived, and `r` says whether anything changed. When that conversation
/// is open with its view at the most recent messages, `msg` is appended and
/// the first message is dropped from the conversation and from the view.
pub open spec fn new_message_done(before: ChatData, after: ChatData, conv: u128, msg: Message, r: bool) -> bool {
    &&& r == (before.active_chat.conversation_id == conv && appends_new(before.chat_behaviors@, conv))
    &&& !r ==> after == before
    &&& r ==> {
        let appended = before.active_chat.messages@.push(msg);
        &&& after.active_chat.messages@ == appended.drop_first()
        &&& after.active_chat.message_times@ == before.active_chat.message_times@.insert(
            msg.inner.id,
            msg.inner.date,
        )
        &&& after.active_chat.displayed_messages@ == shown_without(
            before.active_chat.displayed_messages@,
            appended[0].inner.id,
        )
        &&& after.active_chat.conversation_id == before.active_chat.conversation_id
        &&& after.active_chat.chat_behavior == before.active_chat.chat_behavior
        &&& after.active_chat.scrolled_once == before.active_chat.scrolled_once
        &&& after.chat_behaviors == before.chat_behaviors
    }
}

/// `after` is `before` once `message` has changed: in the open conversation
/// of the message, the first message with its id is replaced by it (under a
/// fresh rendering key in the shape of a UUID's text); otherwise nothing
/// changes.
pub open spec fn message_updated(before: ChatData, after: ChatData, message: MessageInner) -> bool {
    let msgs = before.active_chat.messages@;
    let i = message_index(msgs, message.id);
    if before.active_chat.conversation_id != message.conversation_id || i < 0 {
        after == before
    } else {
        &&& after.active_chat.messages@.len() == msgs.len()
        &&& after.active_chat.messages@[i].inner == message
        &&& uuid_text(after.active_chat.messages@[i].key@)
        &&& forall|j: int|
            0 <= j < msgs.len() && j != i ==> #[trigger] after.active_chat.messages@[j] == msgs[j]
        &&& after.active_chat.conversation_id == before.active_chat.conversation_id
        &&& after.active_chat.chat_behavior == before.active_chat.chat_behavior
        &&& after.active_chat.displayed_messages@ == before.active_chat.displayed_messages@
        &&& after.active_chat.message_times@ == before.active_chat.message_times@
        &&& after.active_chat.scrolled_once == before.active_chat.scrolled_once
        &&& after.chat_behaviors == before.chat_behaviors
    }
}

/// Chat data is never equal to other chat data, not even to itself, so that
/// a view that depends on it is always rendered anew.
impl PartialEq for ChatData {
    fn eq(&self, _other: &Self) -> (r: bool) {
        false
    }
}

impl PartialEqSpecImpl for ChatData {
    open spec fn obeys_eq_spec() -> bool {
        true
    }

    open spec fn eq_spec(&self, other: &Self) -> bool {
        false
    }
}

impl ChatData {
    /// The recorded behavior of conversation `id`, or the default behavior.
    pub fn get_chat_behavior(&self, id: u128) -> (r: ChatBehavior)
        ensures
            r == behavior_of(self.chat_behaviors@, id),
    {
        broadcast use group_hash_axioms;

        match self.chat_behaviors.get(&id) {
            Some(b) => *b,
            None => ChatBehavior::default(),
        }
    }

    /// Records the behavior of conversation `id`.
    pub fn set_chat_behavior(&mut self, id: u128, behavior: ChatBehavior)
        ensures
            final(self).chat_behaviors@ == old(self).chat_behaviors@.insert(id, behavior),
            final(self).active_chat == old(self).active_chat,
    {
        broadcast use group_hash_axioms;

        self.chat_behaviors.insert(id, behavior);
    }

    /// Sets the view of `conv` to start at its earliest shown message.
    fn scroll_up(&mut self, conv_id: u128)
        ensures
            final(self).chat_behaviors@ == scrolled_up(
                old(self).chat_behaviors@,
                conv_id,
                old(self).active_chat.displayed_messages@,
            ),
            final(self).active_chat == old(self).active_chat,
    {
        broadcast use group_hash_axioms;

        match self.chat_behaviors.get(&conv_id) {
            Some(b) => {
                let behavior = *b;
                match self.active_chat.displayed_messages.get_earliest() {
                    Some(top) => {
                        let updated = ChatBehavior {
                            view_init: ViewInit {
                                scroll_to: ScrollTo::ScrollUp { view_top: top.message_id },
                                msg_time: Some(top.date),
                            },
                            ..behavior
                        };
                        self.chat_behaviors.insert(conv_id, updated);
                    },
                    None => {},
                }
            },
            None => {},
        }
    }

    /// Shows the message `message_id` of the open conversation `conv_id`
    /// and moves the start of its view to match; for another conversation
    /// nothing changes.
    pub fn add_message_to_view(&mut self, conv_id: u128, message_id: u128)
        ensures
            old(self).active_chat.conversation_id != conv_id ==> *final(self) == *old(self),
            old(self).active_chat.conversation_id == conv_id ==> {
                &&& same_but_view(final(self).active_chat, old(self).active_chat)
                &&& final(self).active_chat.displayed_messages@ == shown_after_add(
                    old(self).active_chat,
                    message_id,
                )
                &&& final(self).chat_behaviors@ == behaviors_after_add(
                    old(self).chat_behaviors@,
                    old(self).active_chat,
                    conv_id,
                    message_id,
                )
            },
    {
        if conv_id != self.active_chat.id() {
            return;
        }
        self.active_chat.add_message_to_view(message_id);
        let behavior = self.get_chat_behavior(conv_id);
        let first_is_added = self.active_chat.messages.len() > 0
            && self.active_chat.messages[0].inner.id == message_id;
        if first_is_added {
            self.scroll_up(conv_id);
        } else {
            match behavior.view_init.scroll_to {
                ScrollTo::MostRecent => {},
                _ => self.scroll_down(conv_id),
            }
        }
    }

    /// Removes the message `message_id` from the open conversation
    /// `conv_id`: it is no longer shown, and no message with its id is kept.
    pub fn delete_message(&mut self, conversation_id: u128, message_id: u128)
        ensures
            message_deleted(*old(self), *final(self), conversation_id, message_id),
    {
        if conversation_id != self.active_chat.id() {
            return;
        }
        self.active_chat.displayed_messages.remove(message_id);
        let mut msgs: VecDeque<Message> = VecDeque::new();
        std::mem::swap(&mut msgs, &mut self.active_chat.messages);
        self.active_chat.messages = drop_id(msgs, message_id);
    }

    /// The earliest shown message of the open conversation `conv_id`; none
    /// for another conversation.
    pub fn get_top_of_view(&self, conv_id: u128) -> (r: Option<PartialMessage>)
        ensures
            r == if self.active_chat.conversation_id != conv_id {
                None
            } else {
                earliest_shown(self.active_chat.displayed_messages@)
            },
    {
        if self.active_chat.id() != conv_id {
            return None;
        }
        self.active_chat.displayed_messages.get_earliest()
    }

    /// The latest shown message of the open conversation `conv_id`; none
    /// for another conversation.
    pub fn get_bottom_of_view(&self, conv_id: u128) -> (r: Option<PartialMessage>)
        ensures
            r == if self.active_chat.conversation_id != conv_id {
                None
            } else {
                latest_shown(self.active_chat.displayed_messages@)
            },
    {
        if self.active_chat.id() != conv_id {
            return None;
        }
        self.active_chat.displayed_messages.get_latest()
    }

    /// Appends `messages` to the open conversation `conv_id`; for another
    /// conversation nothing changes.
    pub fn insert_messages(&mut self, conv_id: u128, messages: Vec<Message>)
        ensures
            old(self).active_chat.conversation_id != conv_id ==> *final(self) == *old(self),
            old(self).active_chat.conversation_id == conv_id ==> {
                &&& final(self).active_chat.messages@ == old(self).active_chat.messages@ + messages@
                &&& final(self).active_chat.message_times@ == times_with(
                    old(self).active_chat.message_times@,
                    messages@,
                )
                &&& final(self).active_chat.conversation_id == old(self).active_chat.conversation_id
                &&& final(self).active_chat.chat_behavior == old(self).active_chat.chat_behavior
                &&& final(self).active_chat.displayed_messages@ == old(self).active_chat.displayed_messages@
                &&& final(self).active_chat.scrolled_once == old(self).active_chat.scrolled_once
                &&& final(self).chat_behaviors == old(self).chat_behaviors
            },
    {
        if self.active_chat.id() != conv_id {
            return;
        }
        self.active_chat.insert_messages(messages);
    }

    /// A new message `msg` of conversation `conv_id`. When that conversation
    /// is open with its view at the most recent messages, `msg` is appended
    /// and the first message is dropped from the conversation and from the
    /// view. Returns whether anything changed.
    pub fn new_message(&mut self, conv_id: u128, msg: Message) -> (r: bool)
        ensures
            new_message_done(*old(self), *final(self), conv_id, msg, r),
    {
        broadcast use group_hash_axioms;

        if conv_id != self.active_chat.id() {
            return false;
        }
        let should_append_msg = match self.chat_behaviors.get(&conv_id) {
            Some(behavior) => match behavior.view_init.scroll_to {
                ScrollTo::MostRecent => true,
                _ => false,
            },
            None => false,
        };
        if should_append_msg {
            let ghost before = self.active_chat.messages@;
            let mut one: Vec<Message> = Vec::new();
            one.push(msg);
            assert(times_with(self.active_chat.message_times@, one@) == self.active_chat.message_times@.insert(
                one@[0].inner.id,
                one@[0].inner.date,
            )) by {
                assert(one@.drop_last() =~= Seq::<Message>::empty());
                assert(times_with(self.active_chat.message_times@, one@.drop_last()) == self.active_chat.message_times@);
            }
            self.active_chat.insert_messages(one);
            assert(self.active_chat.messages@ =~= before.push(msg));
            match self.active_chat.messages.pop_front() {
                Some(first) => {
                    self.active_chat.displayed_messages.remove(first.inner.id);
                },
                None => {},
            }
        }
        should_append_msg
    }

    /// Stops showing the message `message_id` of the open conversation
    /// `conv_id`; for another conversation nothing changes.
    pub fn remove_message_from_view(&mut self, conv_id: u128, message_id: u128)
        ensures
            old(self).active_chat.conversation_id != conv_id ==> *final(self) == *old(self),
            old(self).active_chat.conversation_id == conv_id ==> {
                &&& same_but_view(final(self).active_chat, old(self).active_chat)
                &&& final(self).active_chat.displayed_messages@ == shown_without(
                    old(self).active_chat.displayed_messages@,
                    message_id,
                )
                &&& final(self).chat_behaviors == old(self).chat_behaviors
            },
    {
        if conv_id != self.active_chat.id() {
            return;
        }
        self.active_chat.remove_message_from_view(message_id);
    }

    /// Opens the conversation `chat`, found in the application's state, with
    /// `messages` and `behavior`, and records the behavior; when no such
    /// conversation was found, an empty conversation is open.
    pub fn set_active_chat(&mut self, chat: Option<u128>, behavior: ChatBehavior, messages: Vec<Message>)
        ensures
            chat matches Some(id) ==> {
                &&& final(self).chat_behaviors@ == old(self).chat_behaviors@.insert(id, behavior)
                &&& final(self).active_chat.conversation_id == id
                &&& final(self).active_chat.messages@ == messages@
                &&& final(self).active_chat.chat_behavior == behavior
                &&& final(self).active_chat.displayed_messages@ == Seq::<PartialMessage>::empty()
                &&& final(self).active_chat.message_times@ == times_of(messages@)
                &&& !final(self).active_chat.scrolled_once
            },
            chat is None ==> {
                &&& final(self).chat_behaviors == old(self).chat_behaviors
                &&& final(self).active_chat.conversation_id == 0
                &&& final(self).active_chat.messages@ == Seq::<Message>::empty()
                &&& final(self).active_chat.chat_behavior == default_behavior()
                &&& final(self).active_chat.displayed_messages@ == Seq::<PartialMessage>::empty()
                &&& final(self).active_chat.message_times@ == Map::<u128, i64>::empty()
                &&& !final(self).active_chat.scrolled_once
            },
    {
        broadcast use group_hash_axioms;

        match chat {
            Some(id) => {
                self.chat_behaviors.insert(id, behavior);
                self.active_chat = ActiveChat::new(
                    ActiveChatArgs { conversation_id: id, messages, chat_behavior: behavior },
                );
            },
            None => {
                self.active_chat = ActiveChat::default();
            },
        }
    }

    /// Replaces the first message of the open conversation that has the id
    /// of `message` with `message`, under a fresh rendering key. A message of
    /// another conversation, or one not held, changes nothing.
    pub fn update_message(&mut self, message: MessageInner)
        ensures
            message_updated(*old(self), *final(self), message),
    {
        if self.active_chat.id() != message.conversation_id {
            return;
        }
        let ghost msgs = self.active_chat.messages@;
        proof {
            lemma_message_index(msgs, message.id);
        }
        let n = self.active_chat.messages.len();
        let mut found: Option<usize> = None;
        for i in 0..n
            invariant
                n == msgs.len(),
                msgs == self.active_chat.messages@,
                found is None ==> forall|j: int| 0 <= j < i ==> #[trigger] msgs[j].inner.id != message.id,
                found matches Some(k) ==> k == message_index(msgs, message.id),
                -1 <= message_index(msgs, message.id) < msgs.len(),
                message_index(msgs, message.id) >= 0 ==> msgs[message_index(msgs, message.id)].inner.id == message.id,
                forall|j: int|
                    0 <= j < msgs.len() && (message_index(msgs, message.id) < 0 || j < message_index(msgs, message.id))
                        ==> #[trigger] msgs[j].inner.id != message.id,
        {
            if found.is_none() && self.active_chat.messages[i].inner.id == message.id {
                found = Some(i);
            }
        }
        match found {
            Some(k) => {
                let updated = Message { inner: message, key: fresh_key() };
                let _old = self.active_chat.messages.remove(k);
                self.active_chat.messages.insert(k, updated);
                assert(self.active_chat.messages@.len() == msgs.len());
                assert forall|j: int| 0 <= j < msgs.len() && j != k implies #[trigger] self.active_chat.messages@[j] == msgs[j] by {
                    if j < k {
                    } else {
                    }
                }
            },
            None => {},
        }
    }

    /// Notes that the open conversation `conv_id` has been scrolled.
    pub fn scrolled(&mut self, conv_id: u128)
        ensures
            final(self).active_chat.scrolled_once == (old(self).active_chat.scrolled_once
                || old(self).active_chat.conversation_id == conv_id),
            same_but_scrolled(final(self).active_chat, old(self).active_chat),
            final(self).chat_behaviors == old(self).chat_behaviors,
    {
        if self.active_chat.id() == conv_id {
            self.active_chat.scrolled_once = true;
        }
    }

    /// The id of the conversation's last message, or the nil id.
    fn last_message_id(&self) -> (r: u128)
        ensures
            r == last_id_or_nil(self.active_chat.messages@),
    {
        let n = self.active_chat.messages.len();
        if n > 0 {
            self.active_chat.messages[n - 1].inner.id
        } else {
            0
        }
    }

    /// Sets the view of `conv` to end at its latest shown message.
    fn scroll_down(&mut self, conv_id: u128)
        ensures
            final(self).chat_behaviors@ == scrolled_down(
                old(self).chat_behaviors@,
                conv_id,
                old(self).active_chat.displayed_messages@,
                old(self).active_chat.messages@,
            ),
            final(self).active_chat == old(self).active_chat,
    {
        broadcast use group_hash_axioms;

        match self.chat_behaviors.get(&conv_id) {
            Some(b) => {
                let behavior = *b;
                let view_init = match self.active_chat.displayed_messages.get_latest() {
                    Some(bottom) => {
                        let end_msg = self.last_message_id();
                        if bottom.message_id == end_msg {
                            ViewInit { scroll_to: ScrollTo::MostRecent, msg_time: None }
                        } else {
                            ViewInit {
                                scroll_to: ScrollTo::ScrollDown { view_bottom: bottom.message_id },
                                msg_time: Some(bottom.date),
                            }
                        }
                    },
                    None => ViewInit { scroll_to: ScrollTo::MostRecent, msg_time: None },
                };
                self.chat_behaviors.insert(conv_id, ChatBehavior { view_init, ..behavior });
            },
            None => {},
        }
    }
}


/// A new message in a conversation viewed at its most recent messages
/// keeps the number of messages held: it becomes the last one, and the
/// oldest one goes. (In a conversation that holds no message yet, the new
/// message is itself the oldest and goes at once.)
pub proof fn lemma_new_message_window(before: ChatData, after: ChatData, conv: u128, msg: Message)
    requires
        new_message_done(before, after, conv, msg, true),
        before.active_chat.messages@.len() > 0,
    ensures
        after.active_chat.messages@.len() == before.active_chat.messages@.len(),
        after.active_chat.messages@.last() == msg,
        after.active_chat.messages@.drop_last() == before.active_chat.messages@.skip(1),
{
    let old_msgs = before.active_chat.messages@;
    assert(old_msgs.push(msg).drop_first().drop_last() =~= old_msgs.skip(1));
}

/// An event of the messaging service about messages.
pub enum MessageEvent {
    Received { conversation_id: u128, message: Message },
    Sent { conversation_id: u128, message: Message },
    Edited { conversation_id: u128, message: Message },
    Deleted { conversation_id: u128, message_id: u128 },
    MessageReactionAdded { message: MessageInner },
    MessageReactionRemoved { message: MessageInner },
    MessagePinned { message: MessageInner },
    MessageUnpinned { message: MessageInner },
    /// Any other event about messages.
    Other,
}

/// The conversation `a` holds a message with id `id`.
pub open spec fn holds_message(a: ActiveChat, id: u128) -> bool {
    exists|i: int| 0 <= i < a.messages@.len() && #[trigger] a.messages@[i].inner.id == id
}

/// `after` is `before` once `event` is handled while the conversation
/// `active_chat_id` is the application's active one, and `r` says whether
/// the view must be rendered anew. Events arriving while no conversation is
/// active, and events of other conversations, change nothing.
pub open spec fn event_handled(
    before: ChatData,
    after: ChatData,
    active_chat_id: Option<u128>,
    event: MessageEvent,
    r: bool,
) -> bool {
    match active_chat_id {
        None => after == before && !r,
        Some(chat_id) => match event {
            MessageEvent::Received { conversation_id, message }
            | MessageEvent::Sent { conversation_id, message } => if conversation_id != chat_id {
                after == before && !r
            } else {
                new_message_done(before, after, conversation_id, message, r)
            },
            MessageEvent::Edited { conversation_id, message } => !r && if before.active_chat.conversation_id
                != conversation_id {
                after == before
            } else {
                message_updated(before, after, message.inner)
            },
            MessageEvent::Deleted { conversation_id, message_id } => !r && if before.active_chat.conversation_id
                != conversation_id {
                after == before
            } else {
                message_deleted(before, after, conversation_id, message_id)
            },
            MessageEvent::MessageReactionAdded { message }
            | MessageEvent::MessageReactionRemoved { message } => !r && if before.active_chat.conversation_id
                != message.conversation_id {
                after == before
            } else {
                message_updated(before, after, message)
            },
            MessageEvent::MessagePinned { message }
            | MessageEvent::MessageUnpinned { message } => !r && if holds_message(
                before.active_chat,
                message.id,
            ) {
                message_updated(before, after, message)
            } else {
                after == before
            },
            MessageEvent::Other => after == before && !r,
        },
    }
}

/// Removing a reaction from a message is handled exactly as adding one.
pub proof fn lemma_reaction_events_alike(
    before: ChatData,
    after: ChatData,
    active_chat_id: Option<u128>,
    message: MessageInner,
    r: bool,
)
    ensures
        event_handled(before, after, active_chat_id, MessageEvent::MessageReactionRemoved { message }, r)
            == event_handled(before, after, active_chat_id, MessageEvent::MessageReactionAdded { message }, r),
{
}

/// When a reaction is added to or removed from a message that the open
/// conversation holds, the first held message with its id becomes the
/// changed message, under a fresh key; every other held message stays as it
/// was, and the view is not rendered anew.
pub proof fn lemma_reaction_replaces_held_message(
    before: ChatData,
    after: ChatData,
    chat_id: u128,
    message: MessageInner,
    removed: bool,
    r: bool,
)
    requires
        event_handled(
            before,
            after,
            Some(chat_id),
            if removed {
                MessageEvent::MessageReactionRemoved { message }
            } else {
                MessageEvent::MessageReactionAdded { message }
            },
            r,
        ),
        before.active_chat.conversation_id == message.conversation_id,
        holds_message(before.active_chat, message.id),
    ensures
        !r,
        after.active_chat.messages@.len() == before.active_chat.messages@.len(),
        exists|i: int|
            {
                &&& 0 <= i < before.active_chat.messages@.len()
                &&& #[trigger] after.active_chat.messages@[i].inner == message
                &&& before.active_chat.messages@[i].inner.id == message.id
                &&& forall|j: int| 0 <= j < i ==> #[trigger] before.active_chat.messages@[j].inner.id != message.id
                &&& forall|j: int|
                    0 <= j < before.active_chat.messages@.len() && j != i
                        ==> #[trigger] after.active_chat.messages@[j] == before.active_chat.messages@[j]
            },
{
    let msgs = before.active_chat.messages@;
    lemma_message_index(msgs, message.id);
    let w = choose|k: int| 0 <= k < msgs.len() && #[trigger] msgs[k].inner.id == message.id;
    let i = message_index(msgs, message.id);
    assert(i >= 0);
    assert(after.active_chat.messages@[i].inner == message);
}

/// Handles one event of the messaging service for the chat view, while
/// `active_chat_id` is the application's active conversation. Returns
/// whether the view must be rendered anew.
pub fn handle_message_event(chat_data: &mut ChatData, active_chat_id: Option<u128>, event: MessageEvent) -> (r: bool)
    ensures
        event_handled(*old(chat_data), *final(chat_data), active_chat_id, event, r),
{
    let chat_id = match active_chat_id {
        Some(x) => x,
        None => return false,
    };
    match event {
        MessageEvent::Received { conversation_id, message }
        | MessageEvent::Sent { conversation_id, message } => {
            if conversation_id != chat_id {
                return false;
            }
            chat_data.new_message(conversation_id, message)
        },
        MessageEvent::Edited { conversation_id, message } => {
            if chat_data.active_chat.id() != conversation_id {
                return false;
            }
            chat_data.update_message(message.inner);
            false
        },
        MessageEvent::Deleted { conversation_id, message_id } => {
            if chat_data.active_chat.id() != conversation_id {
                return false;
            }
            chat_data.delete_message(conversation_id, message_id);
            false
        },
        MessageEvent::MessageReactionAdded { message }
        | MessageEvent::MessageReactionRemoved { message } => {
            if chat_data.active_chat.id() != message.conversation_id {
                return false;
            }
            chat_data.update_message(message);
            false
        },
        MessageEvent::MessagePinned { message } | MessageEvent::MessageUnpinned { message } => {
            if chat_data.active_chat.has_message_id(message.id) {
                chat_data.update_message(message);
            }
            false
        },
        MessageEvent::Other => false,
    }
}


/// What opening the chat view waits for, or does next.
pub enum InitStep {
    /// Wait for the application's state to be initialized.
    WaitForState,
    /// Wait for a conversation to become active.
    WaitForActiveChat,
    /// The open conversation is initialized already: nothing to do.
    AlreadyOpen,
    /// Fetch the messages of the conversation `conv_id`, as `behavior`
    /// says.
    Fetch { conv_id: u128, behavior: ChatBehavior },
}

/// The next step of opening the chat view: first wait until the
/// application's state is initialized, then until a conversation is active;
/// when the open conversation is initialized already nothing is done; else
/// the messages of the active conversation are fetched as its recorded
/// behavior says.
pub fn init_chat_step(
    chat_data: &ChatData,
    state_initialized: bool,
    active_chat_id: Option<u128>,
    chat_initialized: bool,
) -> (r: InitStep)
    ensures
        !state_initialized ==> r is WaitForState,
        state_initialized && active_chat_id is None ==> r is WaitForActiveChat,
        state_initialized && active_chat_id is Some && chat_initialized ==> r is AlreadyOpen,
        state_initialized && !chat_initialized ==> (active_chat_id matches Some(id) ==> r == (
        InitStep::Fetch { conv_id: id, behavior: behavior_of(chat_data.chat_behaviors@, id) })),
{
    if !state_initialized {
        return InitStep::WaitForState;
    }
    match active_chat_id {
        None => InitStep::WaitForActiveChat,
        Some(conv_id) => {
            if chat_initialized {
                InitStep::AlreadyOpen
            } else {
                InitStep::Fetch { conv_id, behavior: chat_data.get_chat_behavior(conv_id) }
            }
        },
    }
}

} // verus!
