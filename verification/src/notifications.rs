//! What the desktop notifications say and when their action is taken.

use vstd::prelude::*;
use vstd::string::*;
use crate::text::{decimal, decimal_text, text_eq};

verus! {

/// What the application does when the action of a notification is taken.
#[derive(Clone, Copy, Debug, PartialEq, Eq, Structural)]
pub enum NotificationAction {
    /// Open the conversation with this id.
    DisplayChat(u128),
    FriendListPending,
    Dummy,
}

/// The title under which a notification is shown: "Uplink - " and the title.
pub fn notification_summary(title: &str) -> (r: String)
    ensures
        r@ == "Uplink - "@ + title@,
{
    let mut r = String::from_str("Uplink - ");
    r.append(title);
    r
}

/// The label of the application's badge: none for a count of zero, else the
/// count in decimal.
pub fn badge_label(count: u32) -> (r: Option<String>)
    ensures
        count == 0 ==> r is None,
        count != 0 ==> (r matches Some(l) && l@ == decimal(count as nat)),
{
    if count == 0 {
        None
    } else {
        Some(decimal_text(count as u64))
    }
}

/// How long a notification stays on screen.
#[derive(Clone, Copy, Debug, PartialEq, Eq, Structural)]
pub enum NotificationTimeout {
    /// The system's own choice.
    Default,
    Never,
    Milliseconds(u32),
}

/// A notification shown for at least 25 seconds, or until it is dismissed,
/// gets the long duration of a toast; any other gets the short one.
pub open spec fn is_long_toast(timeout: NotificationTimeout) -> bool {
    match timeout {
        NotificationTimeout::Default => false,
        NotificationTimeout::Never => true,
        NotificationTimeout::Milliseconds(t) => t >= 25000,
    }
}

/// The duration attribute of a toast for a notification's timeout.
pub fn toast_duration(timeout: NotificationTimeout) -> (r: &'static str)
    ensures
        r@ == if is_long_toast(timeout) {
            "duration=\"long\""@
        } else {
            "duration=\"short\""@
        },
{
    match timeout {
        NotificationTimeout::Default => "duration=\"short\"",
        NotificationTimeout::Never => "duration=\"long\"",
        NotificationTimeout::Milliseconds(t) => {
            if t >= 25000 {
                "duration=\"long\""
            } else {
                "duration=\"short\""
            }
        },
    }
}

/// The action to take when the notification reports that the button
/// `chosen` was pressed: the notification's own action exactly when `chosen`
/// is the button it was shown with.
pub fn activated_action(chosen: &str, button: &str, action: NotificationAction) -> (r: Option<
    NotificationAction,
>)
    ensures
        r == (if chosen@ == button@ {
            Some(action)
        } else {
            None
        }),
{
    if text_eq(chosen, button) {
        Some(action)
    } else {
        None
    }
}


/// The toast of a notification with an action button, as Windows shows it:
/// the duration, the generic template with the icon, title, subtitle and
/// body, silent audio (sounds are played by the application), and the
/// actions.
pub open spec fn toast_xml_text(
    duration: Seq<char>,
    icon: Seq<char>,
    summary: Seq<char>,
    subtitle: Seq<char>,
    body: Seq<char>,
    actions: Seq<char>,
) -> Seq<char> {
    "<toast "@ + duration + " "@ + Seq::<char>::empty() + ">\n                    <visual>\n                        <binding template=\""@ + "ToastGeneric"@ + "\">\n                        "@ + icon + "\n                        "@ + summary + ""@ + subtitle + ""@ + body + "\n                        </binding>\n                    </visual>\n                    "@ + "<audio silent='true'/>"@ + "\n                    <actions>\n                        "@ + actions + "\n                    </actions>\n                </toast>"@
}

/// The XML of a toast; an absent subtitle is left empty.
pub fn toast_xml(
    duration: &str,
    icon: &str,
    summary: &str,
    subtitle: Option<&str>,
    body: &str,
    actions: &str,
) -> (r: String)
    ensures
        r@ == toast_xml_text(
            duration@,
            icon@,
            summary@,
            match subtitle {
                Some(t) => t@,
                None => Seq::empty(),
            },
            body@,
            actions@,
        ),
{
    let subtitle: &str = match subtitle {
        Some(t) => t,
        None => "",
    };
    proof {
        reveal_strlit("");
    }
        let mut r = String::from_str("<toast ");
        r.append(duration);
        r.append(" ");
        r.append("");
        r.append(">\n                    <visual>\n                        <binding template=\"");
        r.append("ToastGeneric");
        r.append("\">\n                        ");
        r.append(icon);
        r.append("\n                        ");
        r.append(summary);
        r.append("");
        r.append(subtitle);
        r.append("");
        r.append(body);
        r.append("\n                        </binding>\n                    </visual>\n                    ");
        r.append("<audio silent='true'/>");
        r.append("\n                    <actions>\n                        ");
        r.append(actions);
        r.append("\n                    </actions>\n                </toast>");
        r
}

/// The action button of a toast, labelled `label`, that reports
/// `action_id` when pressed.
pub fn toast_action_xml(label: &str, action_id: &str) -> (r: String)
    ensures
        r@ == "<action content=\""@ + label@ + "\" arguments=\""@ + action_id@ + "\"/>"@,
{
    let mut r = String::from_str("<action content=\"");
    r.append(label);
    r.append("\" arguments=\"");
    r.append(action_id);
    r.append("\"/>");
    r
}

} // verus!
