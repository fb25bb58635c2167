//! Protocol logic of the Pebbles network servers: two FTP servers, an SMTP
//! server with its companion web app, and a log-frame server.

pub mod text;
pub mod logs;
pub mod ftp;
pub mod ftpebbles;
pub mod simple_ftp;
pub mod smtp;
pub mod telemetry;
