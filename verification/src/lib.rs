//! Verified core of a chat client's user interface: the in-memory log
//! buffer, file-name formatting, attachment selection, friend lists and the
//! bookkeeping of the active conversation.

pub mod logger;
pub mod files;
pub mod text;
pub mod notifications;
pub mod friends;
pub mod chat;
pub mod layout;
pub mod metadata;
