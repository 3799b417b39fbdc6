//! The decisions of the chat layout: which panes are shown, what is
//! attached to the message being written, and how a drag of files over the
//! window is followed.

use vstd::prelude::*;
use vstd::string::*;
use crate::files::{Location, LocationView, locations};
use crate::text::{decimal, decimal_text, replace_text, replaced, text_eq};

verus! {

/// Which of the chat layout's panes are shown: the welcome screen when no
/// conversation is active; else the conversation, when the sidebar is
/// hidden or the view is not minimal.
pub fn chat_layout_panes(has_active_chat: bool, sidebar_hidden: bool, is_minimal_view: bool) -> (r: (
    bool,
    bool,
))
    ensures
        r.0 == !has_active_chat,
        r.1 == (has_active_chat && (sidebar_hidden || !is_minimal_view)),
{
    let show_welcome = !has_active_chat;
    (show_welcome, !show_welcome && (sidebar_hidden || !is_minimal_view))
}

/// On the first rendering of the chat layout in the minimal view the
/// sidebar is hidden, once. Returns whether to hide it now and whether the
/// next rendering still counts as the first.
pub fn chat_layout_first_render(first_render: bool, is_minimal_view: bool) -> (r: (bool, bool))
    ensures
        r.0 == (first_render && is_minimal_view),
        r.1 == (first_render && !is_minimal_view),
{
    if first_render && is_minimal_view {
        (true, false)
    } else {
        (false, first_render)
    }
}

/// Whether two locations are the same.
pub fn location_eq(a: &Location, b: &Location) -> (r: bool)
    ensures
        r == (a@ == b@),
{
    match (a, b) {
        (Location::Constellation { path: p }, Location::Constellation { path: q }) => text_eq(
            p.as_str(),
            q.as_str(),
        ),
        (Location::Disk { path: p }, Location::Disk { path: q }) => text_eq(p.as_str(), q.as_str()),
        _ => false,
    }
}

/// A copy of a location.
pub fn location_copy(l: &Location) -> (r: Location)
    ensures
        r@ == l@,
{
    match l {
        Location::Constellation { path } => Location::Constellation { path: path.clone() },
        Location::Disk { path } => Location::Disk { path: path.clone() },
    }
}

/// The elements of `s` that are not in `t`, in order.
pub open spec fn not_in(s: Seq<LocationView>, t: Seq<LocationView>) -> Seq<LocationView>
    decreases s.len(),
{
    if s.len() == 0 {
        Seq::empty()
    } else {
        let rest = not_in(s.drop_last(), t);
        if t.contains(s.last()) {
            rest
        } else {
            rest.push(s.last())
        }
    }
}

fn contains_location(v: &Vec<Location>, l: &Location) -> (r: bool)
    ensures
        r == locations(v@).contains(l@),
{
    let n = v.len();
    for i in 0..n
        invariant
            n == v@.len(),
            forall|j: int| 0 <= j < i ==> v@[j]@ != l@,
    {
        if location_eq(&v[i], l) {
            assert(locations(v@)[i as int] == l@);
            return true;
        }
    }
    assert forall|j: int| 0 <= j < locations(v@).len() implies locations(v@)[j] != l@ by {
        assert(locations(v@)[j] == v@[j]@);
    }
    false
}

/// The attachments of a message after files are added to them: the files
/// attached before that are not among the new ones, then the new ones.
pub fn merge_attachments(current: &Vec<Location>, new_files: Vec<Location>) -> (r: Vec<Location>)
    ensures
        locations(r@) == not_in(locations(current@), locations(new_files@)) + locations(new_files@),
{
    let n = current.len();
    let mut r: Vec<Location> = Vec::new();
    let ghost cur = locations(current@);
    let ghost nf = locations(new_files@);
    for i in 0..n
        invariant
            n == current@.len(),
            cur == locations(current@),
            nf == locations(new_files@),
            locations(r@) == not_in(cur.subrange(0, i as int), nf),
    {
        let ghost pre = cur.subrange(0, i + 1);
        assert(pre.drop_last() =~= cur.subrange(0, i as int));
        assert(pre.last() == current@[i as int]@);
        if !contains_location(&new_files, &current[i]) {
            r.push(location_copy(&current[i]));
            assert(locations(r@) =~= locations(r@).drop_last().push(current@[i as int]@));
        }
    }
    assert(cur.subrange(0, n as int) =~= cur);
    let ghost kept = locations(r@);
    let mut added = new_files;
    r.append(&mut added);
    assert(locations(r@) =~= kept + nf);
    r
}


/// Files on disk at `paths`, in order.
pub open spec fn disk_locations(paths: Seq<String>) -> Seq<LocationView> {
    paths.map_values(|p: String| LocationView::Disk { path: p@ })
}

/// The attachments after files are pasted into the message being written:
/// nothing changes when no file was pasted; else the pasted files, as files
/// on disk, are added to the attachments.
pub fn paste_attachments(current: &Vec<Location>, pasted: Vec<String>) -> (r: Option<Vec<Location>>)
    ensures
        pasted@.len() == 0 ==> r is None,
        pasted@.len() > 0 ==> (r matches Some(v) && locations(v@) == not_in(
            locations(current@),
            disk_locations(pasted@),
        ) + disk_locations(pasted@)),
{
    if pasted.len() == 0 {
        return None;
    }
    let n = pasted.len();
    let mut new_files: Vec<Location> = Vec::new();
    for i in 0..n
        invariant
            n == pasted@.len(),
            locations(new_files@) == disk_locations(pasted@.subrange(0, i as int)),
    {
        let path = pasted[i].clone();
        let ghost before = new_files@;
        new_files.push(Location::Disk { path });
        proof {
            let pre = pasted@.subrange(0, i + 1);
            assert(before =~= new_files@.drop_last());
            assert(path@ == pasted@[i as int]@);
            assert(disk_locations(pasted@.subrange(0, i as int)).len() == i);
            assert(locations(before).len() == before.len());
            assert(new_files@.len() == i + 1);
            assert(new_files@[i as int]@ == (LocationView::Disk { path: pasted@[i as int]@ }));
            assert forall|k: int| 0 <= k < pre.len() implies locations(new_files@)[k] == disk_locations(pre)[k] by {
                if k < i {
                    assert(pre[k] == pasted@.subrange(0, i as int)[k]);
                    assert(locations(before)[k] == disk_locations(pasted@.subrange(0, i as int))[k]);
                }
            }
            assert(locations(new_files@) =~= disk_locations(pre));
        }
    }
    assert(pasted@.subrange(0, n as int) =~= pasted@);
    Some(merge_attachments(current, new_files))
}

/// Whether a key press pastes files: the V key with exactly the platform's
/// command modifier held. `modifiers` and `command` are sets of modifier
/// keys as bits.
pub fn is_paste_shortcut(key_is_v: bool, modifiers: u32, command: u32) -> (r: bool)
    ensures
        r == (key_is_v && modifiers == command),
{
    key_is_v && modifiers == command
}

/// Sets the text of the drop overlay to `$TEXT`.
pub const FEEDBACK_TEXT_SCRIPT: &'static str = r#"
    const feedback_element = document.getElementById('overlay-text');
    feedback_element.textContent = '$TEXT';
"#;

/// Starts the animation of the dashed border.
pub const ANIMATION_DASH_SCRIPT: &'static str = r#"
    var dashElement = document.getElementById('dash-element')
    dashElement.style.animation = "border-dance 0.5s infinite linear"
"#;

/// Moves the focus to the chat bar.
pub const SELECT_CHAT_BAR: &'static str = r#"
    var chatBar = document.getElementsByClassName('chatbar')[0].getElementsByClassName('input_textarea')[0]
    chatBar.focus()
"#;

/// Shows the drop overlay when `$IS_DRAGGING` is true, and hides it
/// otherwise.
pub const OVERLAY_SCRIPT: &'static str = r#"
    var chatLayout = document.getElementById('compose')

    var IS_DRAGGING = $IS_DRAGGING

    var overlayElement = document.getElementById('overlay-element')

    if (IS_DRAGGING) {
    chatLayout.classList.add('hover-effect')
    overlayElement.style.display = 'block'
    } else {
    chatLayout.classList.remove('hover-effect')
    overlayElement.style.display = 'none'
    }
"#;

/// What the window reports of files dragged over it.
pub enum FileDropEvent {
    Hovered { paths: Vec<String> },
    Dropped { paths: Vec<String> },
    /// The drag left the window, or was cancelled.
    Cancelled,
}

/// What to do after one report of the drag: the script to run in the page,
/// whether to focus the window, whether the drag is over, and whether its
/// files were dropped and are to be attached.
pub struct DragStep {
    pub script: Option<String>,
    pub focus_window: bool,
    pub done: bool,
    pub dropped: bool,
}

/// The overlay script with the dragging flag set to `flag`.
pub open spec fn overlay(flag: Seq<char>) -> Seq<char> {
    replaced(OVERLAY_SCRIPT@, "$IS_DRAGGING"@, flag)
}

/// The feedback shown while `count` files are dragged: the count, a space,
/// the text for several files or for one, and "!".
pub open spec fn drag_feedback(count: nat, many: Seq<char>, one: Seq<char>) -> Seq<char> {
    decimal(count) + " "@ + (if count > 1 { many } else { one }) + "!"@
}

/// Follows one report of a drag of files over the window. While valid
/// files hover, the overlay is shown with the number of files; when valid
/// files are dropped, the overlay is hidden, the border animated, the chat
/// bar and the window focused, and the drag is over with its files dropped;
/// invalid files change nothing; any other report hides the overlay and ends
/// the drag. `many_files` and `one_file` are the texts shown after the count.
pub fn drag_step(event: &FileDropEvent, paths_valid: bool, many_files: &str, one_file: &str) -> (r:
    DragStep)
    ensures
        match event {
            FileDropEvent::Hovered { paths } => {
                &&& !r.done && !r.dropped && !r.focus_window
                &&& if paths_valid {
                    r.script matches Some(sc) && sc@ == overlay("true"@) + replaced(
                        FEEDBACK_TEXT_SCRIPT@,
                        "$TEXT"@,
                        drag_feedback(paths@.len(), many_files@, one_file@),
                    )
                } else {
                    r.script is None
                }
            },
            FileDropEvent::Dropped { .. } => if paths_valid {
                &&& r.done && r.dropped && r.focus_window
                &&& r.script matches Some(sc) && sc@ == overlay("false"@) + ANIMATION_DASH_SCRIPT@
                    + SELECT_CHAT_BAR@
            } else {
                !r.done && !r.dropped && !r.focus_window && r.script is None
            },
            FileDropEvent::Cancelled => {
                &&& r.done && !r.dropped && !r.focus_window
                &&& r.script matches Some(sc) && sc@ == overlay("false"@)
            },
        },
{
    match event {
        FileDropEvent::Hovered { paths } => {
            if !paths_valid {
                return DragStep { script: None, focus_window: false, done: false, dropped: false };
            }
            let n = paths.len();
            let mut text = decimal_text(n as u64);
            text.append(" ");
            if n > 1 {
                text.append(many_files);
            } else {
                text.append(one_file);
            }
            text.append("!");
            let mut script = replace_text(OVERLAY_SCRIPT, "$IS_DRAGGING", "true");
            let feedback = replace_text(FEEDBACK_TEXT_SCRIPT, "$TEXT", text.as_str());
            script.append(feedback.as_str());
            DragStep { script: Some(script), focus_window: false, done: false, dropped: false }
        },
        FileDropEvent::Dropped { .. } => {
            if !paths_valid {
                return DragStep { script: None, focus_window: false, done: false, dropped: false };
            }
            let mut script = replace_text(OVERLAY_SCRIPT, "$IS_DRAGGING", "false");
            script.append(ANIMATION_DASH_SCRIPT);
            script.append(SELECT_CHAT_BAR);
            DragStep { script: Some(script), focus_window: true, done: true, dropped: true }
        },
        FileDropEvent::Cancelled => {
            let script = replace_text(OVERLAY_SCRIPT, "$IS_DRAGGING", "false");
            DragStep { script: Some(script), focus_window: false, done: true, dropped: false }
        },
    }
}


/// What the compose view shows around the open conversation.
pub struct ComposeFlags {
    /// The group editor is open for this conversation.
    pub is_edit_group: bool,
    /// The list of the group's members is open for this conversation.
    pub show_group_users: bool,
    /// The user created this conversation.
    pub is_owner: bool,
    /// The top bar has a button back to the sidebar.
    pub with_back_button: bool,
    /// The chat bar does not take the focus by itself.
    pub ignore_focus: bool,
}

/// The flags of the compose view for the open conversation `chat_id`.
/// `show_edit_group` and `show_group_users` name the conversation whose
/// editor or member list is open, if any; `creator` is the DID key of the
/// conversation's creator, if known, and `user_did` the user's.
pub fn compose_flags(
    show_edit_group: Option<u128>,
    show_group_users: Option<u128>,
    chat_id: u128,
    creator: Option<&str>,
    user_did: &str,
    is_minimal_view: bool,
    sidebar_hidden: bool,
    ignore_focus: bool,
    emoji_picker_visible: bool,
) -> (r: ComposeFlags)
    ensures
        r.is_edit_group == (show_edit_group == Some(chat_id)),
        r.show_group_users == (show_group_users == Some(chat_id)),
        r.is_owner == (creator matches Some(c) && c@ == user_did@),
        r.with_back_button == (is_minimal_view && sidebar_hidden),
        r.ignore_focus == (ignore_focus || emoji_picker_visible),
{
    let is_edit_group = match show_edit_group {
        Some(id) => id == chat_id,
        None => false,
    };
    let show_users = match show_group_users {
        Some(id) => id == chat_id,
        None => false,
    };
    let is_owner = match creator {
        Some(c) => text_eq(c, user_did),
        None => false,
    };
    ComposeFlags {
        is_edit_group,
        show_group_users: show_users,
        is_owner,
        with_back_button: is_minimal_view && sidebar_hidden,
        ignore_focus: ignore_focus || emoji_picker_visible,
    }
}

/// The title of a conversation in its top bar: its name, or else the names
/// of the other participants.
pub fn conversation_title(conversation_name: Option<String>, other_participants_names: &str) -> (r:
    String)
    ensures
        r@ == match conversation_name {
            Some(n) => n@,
            None => other_participants_names@,
        },
{
    match conversation_name {
        Some(n) => n,
        None => String::from_str(other_participants_names),
    }
}

/// The number of members of a group: the other participants and the user.
pub fn members_count(other_participants: usize) -> (r: usize)
    requires
        other_participants < usize::MAX,
    ensures
        r == other_participants + 1,
{
    other_participants + 1
}

/// Whether a group is renamed to the name entered in its top bar: only a
/// valid name that differs from the current title.
pub fn group_rename(entered: &str, is_valid: bool, current_title: &str) -> (r: bool)
    ensures
        r == (is_valid && entered@ != current_title@),
{
    if !is_valid {
        return false;
    }
    !text_eq(entered, current_title)
}


/// Whether the side bar shows its back button: only when asked to.
pub fn show_back_button(with_back_button: Option<bool>) -> (r: bool)
    ensures
        r == (with_back_button == Some(true)),
{
    match with_back_button {
        Some(b) => b,
        None => false,
    }
}

} // verus!
