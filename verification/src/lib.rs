//! Verified core of the Velo self-hosted mail server: access control,
//! credential sealing, password handling, notification e-mails, the SMTP
//! envelope and the decisions of the SQL gateway.

pub mod codec;
pub mod gateway;
pub mod ids;
pub mod mailboxes;
pub mod notifier;
pub mod passwords;
pub mod profile;
pub mod secret;
pub mod smtp;
pub mod text;
pub mod users;
