//! Team coordination: the roster, request/response protocols, mailboxes and
//! the life of a teammate.

pub mod life;
pub mod mailbox;
pub mod protocol;
pub mod registry;
