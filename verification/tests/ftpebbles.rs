use pebbles::text::IntError;
use pebbles::ftp::{DataAddr, FtpError, TransferType};
use pebbles::ftpebbles::{
    request_would_panic, Credentials, FtpAction, FtpServer, FtpSession, ServerError, Settings,
    SettingsError,
};

fn server(creds: Option<(&str, &str)>) -> FtpServer {
    let credentials = creds.map(|(u, p)| Credentials { username: u.to_string(), password: p.to_string() });
    match FtpServer::new("127.0.0.1".to_string(), 21, "/srv".to_string(), credentials, true, None) {
        Ok(s) => s,
        Err(_) => panic!("server"),
    }
}

fn reply(a: FtpAction) -> String {
    match a {
        FtpAction::Reply(s) => s,
        _ => panic!("expected a reply"),
    }
}

#[test]
fn settings_defaults_and_errors() {
    let s = Settings::new(None, None, None, None, None).ok().unwrap();
    assert_eq!(s.base_dir, "C:/Users");
    assert_eq!(s.host, "127.0.0.1");
    assert_eq!(s.port, 21);
    let s = Settings::new(Some("/data".into()), Some("0.0.0.0".into()), Some("2121".into()), Some("u".into()), Some("p".into()))
        .ok()
        .unwrap();
    assert_eq!(s.port, 2121);
    assert_eq!(s.username, Some("u".to_string()));
    assert!(matches!(
        Settings::new(None, None, None, Some("u".into()), None),
        Err(SettingsError::CredentialsMismatch)
    ));
    assert!(matches!(Settings::new(None, None, Some("70000".into()), None, None), Err(SettingsError::BadPort(IntError::PosOverflow))));
    assert_eq!(SettingsError::BadPort(IntError::PosOverflow).message(), "number too large to fit in target type");
    assert_eq!(
        SettingsError::CredentialsMismatch.message(),
        "Both username and password must be set or neither should be set"
    );
}

#[test]
fn server_description() {
    assert!(matches!(
        FtpServer::new("h".into(), 21, "/x".into(), None, false, None),
        Err(ServerError::NotADirectory)
    ));
    assert!(matches!(
        FtpServer::new("0.0.0.0".into(), 21, "/x".into(), None, true, None),
        Err(ServerError::NoLocalAddress)
    ));
    let s = FtpServer::new("0.0.0.0".into(), 2121, "/x".into(), None, true, Some("10.0.0.5".into()))
        .ok()
        .unwrap();
    assert_eq!(s.addr(), "10.0.0.5:2121");
}

#[test]
fn login_with_credentials() {
    let mut s = FtpSession::new(server(Some(("bob", "pw"))), "/srv".into());
    assert_eq!(reply(s.process_command("PASS pw")), "530 Not logged in. Send USER before PASS.\r\n");
    assert_eq!(reply(s.process_command("USER bob")), "331 Username okay, need password.\r\n");
    assert_eq!(reply(s.process_command("PASS pw")), "230 User logged in, proceed.\r\n");
    assert_eq!(reply(s.process_command("USER bob")), "331 Username okay, need password.\r\n");
    assert_eq!(reply(s.process_command("PASS nope")), "530 Not logged in. Authentication failed.\r\n");
    assert_eq!(s.username, None);
    assert!(matches!(s.process_command("USER"), FtpAction::Fail(FtpError::ParamMissing)));
    assert_eq!(s.server.addr(), "127.0.0.1:21");
    assert_eq!(s.server.credentials.as_ref().map(|c| c.username.as_str()), Some("bob"));
}

#[test]
fn login_without_credentials() {
    let mut s = FtpSession::new(server(None), "/srv".into());
    assert_eq!(reply(s.process_command("PASS anything")), "230 User logged in, proceed.\r\n");
}

#[test]
fn informational_commands() {
    let mut s = FtpSession::new(server(None), "/srv".into());
    assert_eq!(reply(s.process_command("SYST")), "215 UNIX Type: L8\r\n");
    assert_eq!(reply(s.process_command("FEAT")), "211 Features:\r\nUTF8\r\n211 End\r\n");
    assert_eq!(reply(s.process_command("PWD")), "257 \"/\" is the current directory.\r\n");
    assert_eq!(reply(s.process_command("NOOP")), "502 Command not implemented.\r\n");
    assert_eq!(reply(s.process_command("OPTS REST STOR")), "200 Resuming file uploads supported\r\n");
    assert_eq!(reply(s.process_command("OPTS UTF8 ON")), "502 Command not implemented.\r\n");
}

#[test]
fn transfer_type_switches() {
    let mut s = FtpSession::new(server(None), "/srv".into());
    assert_eq!(reply(s.process_command("TYPE I")), "200 Type set to I\r\n");
    assert_eq!(s.transfer_type, TransferType::Binary);
    assert_eq!(s.encode(b"a\nb"), b"a\nb".to_vec());
    assert_eq!(reply(s.process_command("TYPE A")), "200 Type set to A\r\n");
    assert_eq!(s.encode(b"a\nb"), b"a\r\nb".to_vec());
    assert_eq!(reply(s.process_command("TYPE E")), "504 Command not implemented for that parameter\r\n");
    assert!(matches!(s.process_command("TYPE"), FtpAction::Fail(FtpError::ParamMissing)));
}

#[test]
fn cwd_then_pwd() {
    let mut s = FtpSession::new(server(None), "/srv".into());
    let (real, virt) = match s.process_command("CWD /pub") {
        FtpAction::CheckDir(r, v) => (r, v),
        _ => panic!("expected a directory check"),
    };
    assert_eq!(real, "/srv/pub");
    assert_eq!(virt, "/pub");
    assert_eq!(s.finish_cwd(real, virt, true), "250 Directory successfully changed.\r\n");
    assert_eq!(reply(s.process_command("PWD")), "257 \"/pub\" is the current directory.\r\n");
    assert_eq!(
        s.finish_cwd("/srv/none".into(), "/none".into(), false),
        "550 Failed to change directory.\r\n"
    );
    assert_eq!(s.virtual_dir, "/pub");
    assert_eq!(reply(s.process_command("CDUP")), "250 Directory successfully changed\r\n");
    assert_eq!(s.virtual_dir, "/");
    assert_eq!(s.real_dir, "/srv");
    assert_eq!(reply(s.process_command("CWD ..")), "550 Already at the root directory\r\n");
}

#[test]
fn passive_and_list() {
    let mut s = FtpSession::new(server(None), "/srv".into());
    assert!(matches!(
        s.process_command("LIST"),
        FtpAction::ReplyThenFail(_, FtpError::DataSocketNotOpen)
    ));
    assert!(matches!(s.process_command("PASV"), FtpAction::Passive));
    let m = s.passive_opened(DataAddr::V4 { octets: (10, 0, 0, 1), port: 50010 });
    assert_eq!(m, "227 Entering Passive Mode (10,0,0,1,195,90)\r\n");
    assert!(s.data_ready);
    match s.process_command("LIST") {
        FtpAction::List(l) => {
            assert_eq!(l.opening, "150 Sending directory list\r\n");
            assert_eq!(l.done, "226 Directory send OK\r\n");
        },
        _ => panic!("expected a listing"),
    }
    assert!(!s.data_ready);
}

#[test]
fn port_command() {
    let mut s = FtpSession::new(server(None), "/srv".into());
    match s.process_command("PORT 127,0,0,1,7,208") {
        FtpAction::Active(a) => assert_eq!(a, "127.0.0.1:2000"),
        _ => panic!("expected an active connection"),
    }
    assert!(matches!(s.process_command("PORT 1,2"), FtpAction::Fail(FtpError::UnexpectedOctets)));
    assert!(request_would_panic("PORT 1,2,3,4,5,x"));
    assert!(!request_would_panic("PORT 1,2,3,4,5,6"));
    assert_eq!(s.active_opened(), "200 PORT command successful. Consider using PASV\r\n");
    assert!(s.data_ready);
}

#[test]
fn rest_then_retr() {
    let mut s = FtpSession::new(server(None), "/srv".into());
    assert_eq!(reply(s.process_command("REST 100")), "350 Restarting at specified offset\r\n");
    assert!(matches!(s.process_command("REST x"), FtpAction::Fail(FtpError::BadOffset(IntError::InvalidDigit))));
    match s.process_command("RETR a.bin") {
        FtpAction::Retrieve(p, m) => {
            assert_eq!(p, "/srv/a.bin");
            assert_eq!(m, "550 File not found\r\n");
        },
        _ => panic!("expected a retrieval"),
    }
    let (offset, plan) = s.retr_opened();
    assert_eq!(offset, Some(100));
    assert!(!plan.data);
    assert_eq!(plan.no_data, "425 Use PASV first\r\n");
    let (offset, _) = s.retr_opened();
    assert_eq!(offset, None);
}

#[test]
fn store_append_delete() {
    let mut s = FtpSession::new(server(None), "/srv".into());
    match s.process_command("STOR up.txt") {
        FtpAction::Store(p) => assert_eq!(p, "/srv/up.txt"),
        _ => panic!("expected a store"),
    }
    let plan = s.stor_started();
    assert_eq!(plan.opening, "150 File status okay; about to open data connection\r\n");
    assert_eq!(plan.done, "226 Transfer complete\r\n");
    assert_eq!(reply(s.process_command("APPE")), "350 Restarting at specified offset\r\n");
    assert_eq!(s.transfer_opts.map(|o| o.append), Some(true));
    match s.process_command("DELE /old.txt") {
        FtpAction::Delete(p) => assert_eq!(p, "/srv/old.txt"),
        _ => panic!("expected a delete"),
    }
}

#[test]
fn server_error_messages() {
    assert_eq!(ServerError::NotADirectory.message("/x"), "\"/x\" is not a directory");
    assert_eq!(ServerError::NotADirectory.message("a b"), "\"a b\" is not a directory");
    assert_eq!(ServerError::NoLocalAddress.message("/x"), "Failed to get the local IPv4 address");
}

#[test]
fn server_error_message_escapes_quotes() {
    assert_eq!(
        ServerError::NotADirectory.message("it's"),
        format!("{:?} is not a directory", std::path::Path::new("it's"))
    );
}
