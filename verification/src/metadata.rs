//! What the top bar of a conversation shows of its participants.

use vstd::prelude::*;
use vstd::string::*;

verus! {

/// The platform a user is on, as the messaging service reports it.
#[derive(Clone, Copy, Debug, PartialEq, Eq, Structural)]
pub enum IdentityPlatform {
    Desktop,
    Mobile,
    Unknown,
}

/// The platform indicator shown beside a user's picture.
#[derive(Clone, Copy, Debug, PartialEq, Eq, Structural)]
pub enum Platform {
    Desktop,
    Mobile,
    Headless,
}

/// The indicator for a platform: desktop and mobile as they are, anything
/// else as headless.
pub open spec fn indicator_of(p: IdentityPlatform) -> Platform {
    match p {
        IdentityPlatform::Desktop => Platform::Desktop,
        IdentityPlatform::Mobile => Platform::Mobile,
        IdentityPlatform::Unknown => Platform::Headless,
    }
}

/// The indicator shown for a user's platform.
pub fn platform_indicator(p: IdentityPlatform) -> (r: Platform)
    ensures
        r == indicator_of(p),
{
    match p {
        IdentityPlatform::Desktop => Platform::Desktop,
        IdentityPlatform::Mobile => Platform::Mobile,
        IdentityPlatform::Unknown => Platform::Headless,
    }
}

/// A user as the interface shows them.
pub struct Identity {
    pub did: String,
    pub username: String,
    pub status_message: Option<String>,
    pub profile_picture: String,
    pub platform: IdentityPlatform,
}

/// A copy of an optional text.
fn copy_opt(o: &Option<String>) -> (r: Option<String>)
    ensures
        r == *o,
{
    match o {
        Some(t) => Some(t.clone()),
        None => None,
    }
}

impl Identity {
    /// A copy of this identity, equal to it field by field.
    pub fn duplicate(&self) -> (r: Identity)
        ensures
            r == *self,
    {
        Identity {
            did: self.did.clone(),
            username: self.username.clone(),
            status_message: copy_opt(&self.status_message),
            profile_picture: self.profile_picture.clone(),
            platform: self.platform,
        }
    }
}

/// What the top bar of a conversation shows.
pub struct Metadata {
    pub chat_id: u128,
    pub my_id: Identity,
    pub other_participants: Vec<Identity>,
    /// The participant whose picture and status are shown: the first other
    /// participant, or the user when there is none.
    pub active_participant: Identity,
    pub subtext: String,
    pub is_favorite: bool,
    pub first_image: String,
    pub other_participants_names: String,
    pub platform: Platform,
    pub conversation_name: Option<String>,
}

/// The participant shown for a conversation: the first other participant,
/// or the user when there is none.
pub open spec fn shown_participant(own: Identity, others: Seq<Identity>) -> Identity {
    if others.len() > 0 {
        others[0]
    } else {
        own
    }
}

/// The text under a conversation's title: the shown participant's status
/// message (empty when they have none) in a direct conversation, and empty
/// text in a group.
pub open spec fn subtext_of(active: Identity, is_direct: bool) -> Seq<char> {
    if is_direct {
        match active.status_message {
            Some(m) => m@,
            None => Seq::empty(),
        }
    } else {
        Seq::empty()
    }
}

impl Metadata {
    /// The top bar of the conversation `chat_id` for the user `own`, with
    /// the other participants, whether the conversation is direct and a
    /// favorite, the names of the other participants joined, and the
    /// conversation's name.
    pub fn new(
        chat_id: u128,
        own: Identity,
        other_participants: Vec<Identity>,
        is_direct: bool,
        is_favorite: bool,
        other_participants_names: String,
        conversation_name: Option<String>,
    ) -> (r: Metadata)
        ensures
            r.chat_id == chat_id,
            r.my_id == own,
            r.other_participants@ == other_participants@,
            r.active_participant == shown_participant(own, other_participants@),
            r.subtext@ == subtext_of(shown_participant(own, other_participants@), is_direct),
            r.is_favorite == is_favorite,
            r.first_image == shown_participant(own, other_participants@).profile_picture,
            r.other_participants_names == other_participants_names,
            r.platform == indicator_of(shown_participant(own, other_participants@).platform),
            r.conversation_name == conversation_name,
    {
        let active_participant = if other_participants.len() > 0 {
            other_participants[0].duplicate()
        } else {
            own.duplicate()
        };
        let subtext = if is_direct {
            match &active_participant.status_message {
                Some(m) => m.clone(),
                None => String::new(),
            }
        } else {
            String::new()
        };
        let first_image = active_participant.profile_picture.clone();
        let platform = platform_indicator(active_participant.platform);
        Metadata {
            chat_id,
            my_id: own,
            other_participants,
            active_participant,
            subtext,
            is_favorite,
            first_image,
            other_participants_names,
            platform,
            conversation_name,
        }
    }
}

} // verus!
