//! The SMTPebbles mail server: its settings, the SMTP session state machine,
//! outgoing and incoming delivery, and the decisions of its web app.

pub mod settings;
pub mod session;
pub mod delivery;
pub mod web;
pub mod tokens;
