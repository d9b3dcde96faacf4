//! A bridge between a federated chat-identity network and a chat platform: the identity
//! directory, the pending registration requests, the mailboxes between the two event
//! loops and the orchestrator that routes messages between them.
pub mod account;
pub mod config;
pub mod directory;
pub mod endpoint;
pub mod json;
pub mod message;
pub mod pairs;
pub mod text;
pub mod transactions;

pub use config::ConfigFile;
pub use directory::{Database, StorageError};
pub use endpoint::{Endpoint, InitError, Outcome, Payload};
pub use account::Account;
pub use message::{DiscordMsg, Interaction, Mailbox, Signal};
pub use text::clean_string;
pub use transactions::Transactions;
