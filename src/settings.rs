use vstd::prelude::*;

verus! {

/// Where the mail server is and whose mailbox it is.
#[derive(Debug, Clone, Default)]
pub struct ImapConfig {
    pub server: String,
    pub port: u16,
    pub username: String,
}

/// How often the periodic rule run starts.
#[derive(Debug, Clone, Default)]
pub struct MailMoverConfig {
    pub interval_seconds: u64,
}

/// The address the HTTP services listen on.
#[derive(Debug, Clone, Default)]
pub struct ServerConfig {
    pub host: String,
    pub port: u16,
}

/// The whole configuration, read once at start.
#[derive(Debug, Clone, Default)]
pub struct Config {
    pub imap: ImapConfig,
    pub mail_mover: MailMoverConfig,
    pub server: ServerConfig,
}

/// The reader's own settings: server, port and account.
#[derive(Debug, Clone, Default)]
pub struct Settings {
    pub imap_server: String,
    pub port: u16,
    pub email_address: String,
}

} // verus!
