use pebbles::text::IntError;
use pebbles::ftp::{DataAddr, FtpError};
use pebbles::simple_ftp::{FtpAction, FtpServer, FtpSession, Settings, SettingsError, TransferType};

fn session() -> FtpSession {
    FtpSession::new(FtpServer::new("127.0.0.1", 21, "/srv"), "/srv".to_string())
}

fn reply(a: FtpAction) -> String {
    match a {
        FtpAction::Reply(s) => s,
        _ => panic!("expected a reply"),
    }
}

#[test]
fn simple_settings() {
    let s = Settings::new(None, None, None).ok().unwrap();
    assert_eq!((s.base_dir.as_str(), s.host.as_str(), s.port), ("C:/Users", "127.0.0.1", 21));
    let s = Settings::new(Some("/d".into()), Some("h".into()), Some("2100".into())).ok().unwrap();
    assert_eq!((s.base_dir.as_str(), s.host.as_str(), s.port), ("/d", "h", 2100));
    assert!(matches!(Settings::new(None, None, Some("-1".into())), Err(SettingsError::BadPort(IntError::InvalidDigit))));
}

#[test]
fn simple_server_address() {
    let s = FtpServer::new("0.0.0.0", 2121, "/srv");
    assert_eq!(s.addr(), "0.0.0.0:2121");
    assert_eq!(s.base_dir, "/srv");
}

#[test]
fn any_login_is_accepted() {
    let mut s = session();
    assert_eq!(reply(s.process_command("USER whoever")), "331 Username okay, need password.\r\n");
    assert_eq!(reply(s.process_command("PASS wrong")), "230 User logged in, proceed.\r\n");
    assert_eq!(reply(s.process_command("PASS")), "230 User logged in, proceed.\r\n");
}

#[test]
fn simple_informational_commands() {
    let mut s = session();
    assert_eq!(reply(s.process_command("SYST")), "215 UNIX Type: L8\r\n");
    assert_eq!(reply(s.process_command("FEAT")), "211 Features:\r\nUTF8\r\n211 End\r\n");
    assert_eq!(reply(s.process_command("PWD")), "257 \"/\" is the current directory.\r\n");
    assert_eq!(reply(s.process_command("STOR x")), "502 Command not implemented.\r\n");
    assert_eq!(reply(s.process_command("TYPE I")), "200 Type set to I\r\n");
    assert_eq!(s.transfer_type, TransferType::Binary);
    assert!(matches!(s.process_command("CWD"), FtpAction::Fail(FtpError::ParamMissing)));
    assert!(matches!(s.process_command("RETR"), FtpAction::Fail(FtpError::ParamMissing)));
    match s.process_command("RETR a.txt") {
        FtpAction::Retrieve(f) => assert_eq!(f, "/srv/a.txt"),
        _ => panic!("expected a retrieval"),
    }
}

#[test]
fn simple_list_needs_data_socket() {
    let mut s = session();
    match s.process_command("LIST") {
        FtpAction::ReplyThenFail(m, e) => {
            assert_eq!(m, "425 The data socket has not been opened");
            assert_eq!(e, FtpError::DataSocketNotOpen);
        },
        _ => panic!("expected a failure"),
    }
    assert!(matches!(s.process_command("PASV"), FtpAction::Passive));
    assert_eq!(
        s.passive_opened(DataAddr::V6),
        "522 Network protocol not supported (IPv6 is not supported in PASV mode)\r\n"
    );
    assert!(!s.data_ready);
    s.passive_opened(DataAddr::V4 { octets: (1, 2, 3, 4), port: 50000 });
    match s.process_command("LIST") {
        FtpAction::List(m, e) => {
            assert_eq!(m, "425 Failed to accept a connection on the data socket");
            assert_eq!(e, FtpError::DataAcceptFailed);
        },
        _ => panic!("expected a listing"),
    }
    assert!(!s.data_ready);
}

#[test]
fn simple_cwd_and_cdup() {
    let mut s = session();
    match s.cwd("docs") {
        FtpAction::CheckDir(r, v) => {
            assert_eq!(r, "/srv/docs");
            assert_eq!(v, "/docs");
            assert_eq!(s.finish_cwd(r, v, true), "250 Directory successfully changed.\r\n");
        },
        _ => panic!("expected a directory check"),
    }
    assert_eq!(s.virtual_dir, "/docs");
    assert_eq!(reply(s.process_command("PWD")), "257 \"/docs\" is the current directory.\r\n");
    assert_eq!(s.server.base_dir, "/srv");
    assert_eq!(s.cdup(), "250 Directory successfully changed\r\n");
    assert_eq!(s.virtual_dir, "/");
    assert_eq!(s.cdup(), "550 Already at the root directory\r\n");
    assert_eq!(reply(s.process_command("CWD ..")), "550 Already at the root directory\r\n");
}

#[test]
fn simple_delete_and_store() {
    let mut s = session();
    assert_eq!(s.delete("\\a/b.txt"), "/srv/a/b.txt");
    assert_eq!(s.stor("up.bin"), "/srv/up.bin");
    let plan = s.stor_started();
    assert!(!plan.data);
    assert_eq!(plan.no_data, "425 Use PASV first\r\n");
    assert_eq!(plan.accept_failed, "425 Failed to open data connection\r\n");
    assert_eq!(s.encode(b"x\n"), b"x\r\n".to_vec());
}
