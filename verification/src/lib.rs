//! First-run bootstrap of a frauth identity.
//!
//! The crate holds the decisions of the interactive set-up: which question
//! comes next, what is done to the file system and in which order, which
//! record is assembled from the answers, and what is written to the secrets
//! file. The console and the file system belong to the host program, which
//! performs each request and reports back with an event.

pub mod error;
pub mod identities;
pub mod keys;
pub mod record;
pub mod session;
pub mod text;
pub mod wizard;

pub use error::Error;
pub use identities::Identities;
pub use keys::KeyMaterial;
pub use record::{Paths, UserRecord};
pub use session::replay;
pub use text::{restrict_access_text, secrets_file_text, Notice, Prompt};
pub use wizard::{init, Action, Event, Request, Stage, Wizard, SECRETS_MODE};
