use pebbles::smtp::delivery::{choose_mx, best_mx, outgoing_message, DeliveryError, MessageError};
use pebbles::smtp::session::{
    attachment_path, next_copy, command_result, process_mail_multipart, plan_parts, route, Attachment, BodyMode,
    CommandResult, DataError, DataPhase, Error, MailPart, Route, ServerError, SmtpAction,
    SmtpServer, SmtpSession,
};
use pebbles::smtp::settings::{
    get_postgres_conn_str, AppSettings, Environment, PostfixSettings, PostgresSettings,
    Settings, SmtpSettings,
};

fn settings(host: &str, require_ssl: bool) -> Settings {
    Settings {
        domain: "pebbles.xyz".to_string(),
        smtp: SmtpSettings { tls: false, host: host.to_string(), port: 2525 },
        app: AppSettings { protocol: "http".to_string(), host: "127.0.0.1".to_string(), port: 8000 },
        postfix: PostfixSettings { host: "relay".to_string() },
        postgres: PostgresSettings {
            user: "u".to_string(),
            password: "p".to_string(),
            host: "db:5432".to_string(),
            db_name: "mail".to_string(),
            require_ssl,
        },
        debug: false,
    }
}

fn reply(a: SmtpAction) -> String {
    match a {
        SmtpAction::Reply(s) => s,
        _ => panic!("expected a reply"),
    }
}

const SEQ: &str = "503 Is this some kind of joke? (Bad sequence of commands)\r\n";

#[test]
fn environment_names() {
    assert_eq!(Environment::Development.as_str(), "development");
    assert_eq!(Environment::Production.as_str(), "production");
    assert_eq!(Environment::try_from("PRODUCTION".to_string()), Ok(Environment::Production));
    assert_eq!(Environment::try_from(Environment::Development.as_str().to_string()), Ok(Environment::Development));
    assert_eq!(
        Environment::try_from("Staging".to_string()),
        Err("staging is not a supported environment. Use either `development` or `production`.".to_string())
    );
    assert!(Environment::try_from("DÉVELOPMENT".to_string()).is_err());
    assert_eq!(Environment::try_from("ProDucTion".to_string()), Ok(Environment::Production));
}

#[test]
fn postgres_connection_string() {
    assert_eq!(get_postgres_conn_str(&settings("h", false)), "postgresql://u:p@db:5432/mail");
    assert_eq!(get_postgres_conn_str(&settings("h", true)), "postgresql://u:p@db:5432/mail?sslmode=require");
}

#[test]
fn smtp_server_address() {
    let s = SmtpServer::new(&settings("mail.local", false), None).ok().unwrap();
    assert_eq!(s.addr(), "mail.local:2525");
    assert!(matches!(SmtpServer::new(&settings("0.0.0.0", false), None), Err(ServerError::NoLocalAddress)));
    let s = SmtpServer::new(&settings("0.0.0.0", false), Some("10.1.1.1".into())).ok().unwrap();
    assert_eq!(s.addr(), "10.1.1.1:2525");
    assert_eq!(ServerError::NoLocalAddress.message(), "Failed to get the local IPv4 address");
}

#[test]
fn greetings_and_quit() {
    let mut s = SmtpSession::new();
    assert_eq!(reply(s.process_command("HELO client")), "250 A little animal, on the floor of my chamber.\r\n");
    assert_eq!(
        reply(s.process_command("EHLO client")),
        "250-A little animal, on the floor of my chamber. I think I know what you are looking for.\r\n250 HELP\r\n"
    );
    assert_eq!(
        reply(s.process_command("NOOP")),
        "500 Perhaps this is fate. Karma recounting my deeds and bearing its fangs at me in the most ironic fashion. (Syntax error, command unrecognized)\r\n"
    );
    let q = s.process_command("QUIT");
    assert!(matches!(command_result(&q), Ok(CommandResult::Exit)));
    match q {
        SmtpAction::Quit(m) => assert_eq!(
            m,
            "221 Best of luck to you, little creature. I must resume my work. (Service closing transmission channel)\r\n"
        ),
        _ => panic!("expected quit"),
    }
}

#[test]
fn missing_parameters() {
    let mut s = SmtpSession::new();
    let a = s.process_command("MAIL");
    assert!(matches!(command_result(&a), Err(Error::MissingParam)));
    match a {
        SmtpAction::ReplyThenError(m, Error::MissingParam) => {
            assert_eq!(m, "501 Syntax error in parameters or arguments\r\n")
        },
        _ => panic!("expected an error"),
    }
    assert_eq!(Error::MissingParam.message(), "Parameter is missing");
    assert!(matches!(s.process_command("RCPT"), SmtpAction::ReplyThenError(_, Error::MissingParam)));
}

#[test]
fn envelope_sequence() {
    let mut s = SmtpSession::new();
    assert_eq!(reply(s.process_command("RCPT TO:<b@y.com>")), SEQ);
    assert_eq!(reply(s.process_command("DATA")), SEQ);
    assert_eq!(
        reply(s.process_command("MAIL TO:<a@x.com>")),
        "501 I may have been too rash in bestowing the mark of communication upon you. (Syntax error in parameters or arguments)\r\n"
    );
    assert_eq!(
        reply(s.process_command("MAIL FROM: <a@x.com>")),
        "250 OK: I assume you have come here because you want a way out.\r\n"
    );
    assert_eq!(s.email.as_ref().unwrap().sender, Some("a@x.com".to_string()));
    assert_eq!(reply(s.process_command("MAIL FROM:<c@x.com>")), SEQ);
    assert_eq!(
        reply(s.process_command("RCPT TO:<<b@y.com>>")),
        "250 OK: However, it seems this delivery was not intended for me.\r\n"
    );
    assert_eq!(s.email.as_ref().unwrap().recipient, Some("b@y.com".to_string()));
    assert_eq!(reply(s.process_command("RCPT TO:<d@y.com>")), SEQ);
    match s.process_command("DATA") {
        SmtpAction::StartData(m) => assert_eq!(
            m,
            "354 Let us see if there is anything important written on this. (Start mail input; end with <CRLF>.<CRLF>)\r\n"
        ),
        _ => panic!("expected data"),
    }
    assert_eq!(reply(s.process_command("DATA")), SEQ);
    assert_eq!(reply(s.process_command("RCPT TO:<e@y.com>")), SEQ);
}

fn in_data() -> SmtpSession {
    let mut s = SmtpSession::new();
    s.process_command("MAIL FROM:<alice@pebbles.xyz>");
    s.process_command("RCPT TO:<bob@y.com>");
    s.process_command("DATA");
    s
}

#[test]
fn plain_message() {
    let mut s = in_data();
    let mut ph = DataPhase::new();
    assert_eq!(s.header_line(&mut ph, "From: Alice <alice@pebbles.xyz>\r\n"), Ok(false));
    assert_eq!(s.header_line(&mut ph, "Subject:  Hello  \r\n"), Ok(false));
    assert_eq!(s.header_line(&mut ph, "Date: Tue, 1 Jul 2003 10:52:37 +0200\r\n"), Ok(false));
    assert_eq!(s.header_line(&mut ph, "X-Other: 1\r\n"), Ok(false));
    assert_eq!(s.header_line(&mut ph, "\r\n"), Ok(true));
    assert_eq!(
        ph.raw_headers,
        "From: Alice <alice@pebbles.xyz>\nSubject:  Hello  \nDate: Tue, 1 Jul 2003 10:52:37 +0200\nX-Other: 1\n\n"
    );
    {
        let d = s.email.as_ref().unwrap().data.as_ref().unwrap();
        assert_eq!(d.from, Some("Alice <alice@pebbles.xyz>".to_string()));
        assert_eq!(d.subject, Some("Hello".to_string()));
        assert_eq!(d.date, Some((1057049557, 0)));
    }
    let (sd, rd) = s.address_domains().ok().unwrap();
    assert_eq!((sd.as_str(), rd.as_str()), ("pebbles.xyz", "y.com"));
    assert!(matches!(s.body_mode(&ph, "pebbles.xyz", &sd, &rd), BodyMode::Plain));
    assert!(!ph.plain_line(Some("Hi Bob,\r\n")));
    assert!(!ph.plain_line(Some("bye\r\n")));
    assert!(ph.plain_line(Some(" . \r\n")));
    assert_eq!(ph.body, "Hi Bob,bye");
    s.finish_plain(&ph);
    assert_eq!(s.finish_data((5, 6)), "250 OK: Not that it solves anyone's problem but yours.\r\n");
    let d = s.email.as_ref().unwrap().data.as_ref().unwrap();
    assert_eq!(d.content, Some("Hi Bob,bye".to_string()));
    assert_eq!(d.to, Some("<>".to_string()));
    assert_eq!(d.date, Some((1057049557, 0)));
    assert_eq!(route("pebbles.xyz", &sd, &rd), Route::Send);
    assert_eq!(route("y.com", &sd, &rd), Route::Receive);
    assert_eq!(route("other", &sd, &rd), Route::Keep);
}

#[test]
fn defaults_fill_missing_headers() {
    let mut s = in_data();
    let mut ph = DataPhase::new();
    assert_eq!(s.header_line(&mut ph, ""), Ok(true));
    assert!(ph.plain_line(None));
    s.finish_plain(&ph);
    s.finish_data((1700000000, 5));
    let d = s.email.as_ref().unwrap().data.as_ref().unwrap();
    assert_eq!(d.from, Some("undisclosed-recipients".to_string()));
    assert_eq!(d.to, Some("<>".to_string()));
    assert_eq!(d.subject, Some(String::new()));
    assert_eq!(d.date, Some((1700000000, 5)));
    assert_eq!(d.content, Some(String::new()));
}

#[test]
fn bad_date_ends_the_session() {
    let mut s = in_data();
    let mut ph = DataPhase::new();
    assert_eq!(s.header_line(&mut ph, "Date: yesterday\r\n"), Err(DataError::BadDate));
    assert_eq!(ph.raw_headers, "");
    assert_eq!(s.email.as_ref().unwrap().data.as_ref().unwrap().date, None);
}

#[test]
fn malformed_addresses() {
    let mut s = SmtpSession::new();
    s.process_command("MAIL FROM:<alice>");
    s.process_command("RCPT TO:<bob@y.com>");
    assert_eq!(s.address_domains().err(), Some(DataError::MalformedSender));
    assert_eq!(DataError::MalformedSender.message(), "Malformed sender address");
    let mut s = SmtpSession::new();
    s.process_command("MAIL FROM:<alice@x>");
    s.process_command("RCPT TO:<bob>");
    assert_eq!(s.address_domains().err(), Some(DataError::MalformedRecipient));
    assert_eq!(DataError::MalformedRecipient.message(), "Malformed recipient address");
}

const RAW_BODY: [&str; 12] = [
    "--XYZ\r\n",
    "Content-Type: text/plain\r\n",
    "\r\n",
    "Hello there\r\n",
    "--XYZ\r\n",
    "Content-Type: image/png\r\n",
    "Content-Disposition: attachment; filename=\"pic.png\"\r\n",
    "Content-Transfer-Encoding: base64\r\n",
    "\r\n",
    "aGVsbG8=\r\n",
    "--XYZ--\r\n",
    ".\r\n",
];

fn multipart_phase(s: &mut SmtpSession) -> DataPhase {
    let mut ph = DataPhase::new();
    s.header_line(&mut ph, "Subject: pics\r\n").ok().unwrap();
    s.header_line(&mut ph, "Content-Type: multipart/mixed; boundary=XYZ\r\n").ok().unwrap();
    s.header_line(&mut ph, "\r\n").ok().unwrap();
    for l in RAW_BODY.iter() {
        if ph.multipart_line(Some(l)) {
            break;
        }
    }
    ph
}

#[test]
fn multipart_message_for_local_user() {
    let mut s = in_data();
    let ph = multipart_phase(&mut s);
    assert_eq!(ph.content_type, Some("multipart/mixed; boundary=XYZ".to_string()));
    let (sd, rd) = s.address_domains().ok().unwrap();
    let user = match s.body_mode(&ph, "pebbles.xyz", &sd, &rd) {
        BodyMode::Multipart(u) => u,
        BodyMode::Plain => panic!("expected multipart"),
    };
    assert_eq!(user, Some("alice@pebbles.xyz".to_string()));
    let plan = process_mail_multipart(&ph, user);
    assert_eq!(plan.error, None);
    assert_eq!(plan.user, Some("alice".to_string()));
    assert_eq!(plan.content, "Hello there");
    assert_eq!(plan.saves.len(), 1);
    assert_eq!(plan.saves[0].filename, "pic.png");
    assert_eq!(plan.saves[0].body, b"hello".to_vec());
    s.finish_multipart(plan.content, vec![Attachment::new("pic.png".into(), b"hello".to_vec())]);
    let d = s.email.as_ref().unwrap().data.as_ref().unwrap();
    assert_eq!(d.content, Some("Hello there".to_string()));
    assert_eq!(d.attachments.len(), 1);
}

#[test]
fn multipart_message_without_local_user() {
    let mut s = in_data();
    let ph = multipart_phase(&mut s);
    let (sd, rd) = s.address_domains().ok().unwrap();
    let user = match s.body_mode(&ph, "elsewhere.org", &sd, &rd) {
        BodyMode::Multipart(u) => u,
        BodyMode::Plain => panic!("expected multipart"),
    };
    assert_eq!(user, None);
    let plan = process_mail_multipart(&ph, user);
    assert_eq!(plan.error, None);
    assert_eq!(plan.content, "Hello there");
    assert!(plan.saves.is_empty());
}

#[test]
fn parts_plan_rules() {
    let parts = vec![
        MailPart { disposition: None, raw_body: None, text_body: Some("a".into()) },
        MailPart {
            disposition: Some("attachment".into()),
            raw_body: Some(vec![1, 2]),
            text_body: None,
        },
        MailPart { disposition: Some("inline".into()), raw_body: None, text_body: Some("b".into()) },
    ];
    let plan = plan_parts(&parts, Some("u@d".into()));
    assert_eq!(plan.content, "ab");
    assert_eq!(plan.saves[0].filename, "unknown_file");
    assert_eq!(plan.saves[0].body, vec![1, 2]);
    let bad = vec![
        MailPart { disposition: Some("attachment; filename=x.txt".into()), raw_body: Some(vec![7]), text_body: None },
        MailPart { disposition: None, raw_body: None, text_body: None },
        MailPart { disposition: None, raw_body: None, text_body: Some("late".into()) },
    ];
    let plan = plan_parts(&bad, Some("u@d".into()));
    assert_eq!(plan.error, Some(DataError::BadPart));
    assert_eq!(plan.saves.len(), 1);
    assert_eq!(plan.saves[0].filename, "x.txt");
    assert_eq!(plan.content, "");
}

#[test]
fn unparsable_multipart_fails() {
    let mut ph = DataPhase::new();
    ph.raw_headers = "Content-Type: multipart/mixed; boundary=\"\n\n".to_string();
    let plan = process_mail_multipart(&ph, None);
    // Whatever mailparse decides, a failure is reported as `BadMail` with nothing saved.
    if plan.error == Some(DataError::BadMail) {
        assert!(plan.saves.is_empty());
    }
}

#[test]
fn attachment_paths() {
    assert_eq!(attachment_path("alice", "pic.png", 0), "./attachments/alice/pic.png");
    assert_eq!(attachment_path("alice", "pic.png", 1), "./attachments/alice/pic-1.png");
    assert_eq!(attachment_path("alice", "notes", 2), "./attachments/alice/notes-2.");
}

fn finished(subject: &str) -> SmtpSession {
    let mut s = in_data();
    let mut ph = DataPhase::new();
    s.header_line(&mut ph, &format!("Subject: {}\r\n", subject)).ok().unwrap();
    s.header_line(&mut ph, "\r\n").ok().unwrap();
    ph.plain_line(Some("body"));
    s.finish_plain(&ph);
    s.finish_data((1000, 0));
    s
}

#[test]
fn outgoing_fields_and_message() {
    let s = finished("Greetings");
    let f = s.send_email().ok().unwrap();
    assert_eq!(f.sender, "alice@pebbles.xyz");
    assert_eq!(f.recipient, "bob@y.com");
    assert_eq!(f.recipient_domain, "y.com");
    assert_eq!(f.subject, "Greetings");
    assert_eq!(f.content, "body");
    assert_eq!(f.date, (1000, 0));
    let m = outgoing_message(&f).ok().unwrap();
    assert_eq!(m.from, "alice@pebbles.xyz");
    assert_eq!(m.to, "bob@y.com");
    assert_eq!(m.subject, "Greetings");
    assert_eq!(m.date, Some((1000, 0)));
    assert_eq!(m.body, "body");
    assert!(m.attachments.is_empty());
    let (a, b, c, d) = s.receive_email().ok().unwrap();
    assert_eq!((a.as_str(), b.as_str(), c.as_str(), d.as_str()), ("alice@pebbles.xyz", "bob@y.com", "Greetings", "body"));
}

#[test]
fn outgoing_message_with_attachment() {
    let mut s = finished("Pic");
    s.email.as_mut().unwrap().data.as_mut().unwrap().attachments =
        vec![Attachment::new("pic.png".into(), b"PNGDATA".to_vec())];
    let f = s.send_email().ok().unwrap();
    assert_eq!(f.attachments.len(), 1);
    let m = outgoing_message(&f).ok().unwrap();
    assert_eq!(m.body, "body");
    assert_eq!(m.attachments.len(), 1);
    assert_eq!(m.attachments[0].filename, "pic.png");
    assert_eq!(m.attachments[0].body, b"PNGDATA".to_vec());
}

#[test]
fn invalid_addresses_are_refused() {
    let mut s = SmtpSession::new();
    s.process_command("MAIL FROM:<not an address@>");
    s.process_command("RCPT TO:<bob@y.com>");
    s.process_command("DATA");
    let mut ph = DataPhase::new();
    s.header_line(&mut ph, "\r\n").ok().unwrap();
    s.finish_plain(&ph);
    s.finish_data((0, 0));
    let f = s.send_email().ok().unwrap();
    assert!(matches!(outgoing_message(&f), Err(MessageError::InvalidSender)));
}

#[test]
fn delivery_errors() {
    let s = SmtpSession::new();
    assert!(matches!(s.send_email(), Err(DeliveryError::MissingEmail)));
    assert!(matches!(s.receive_email(), Err(DeliveryError::MissingEmail)));
    let mut s = SmtpSession::new();
    s.process_command("MAIL FROM:<a@x>");
    assert!(matches!(s.send_email(), Err(DeliveryError::MissingRecipient)));
    s.process_command("RCPT TO:<nodomain>");
    assert!(matches!(s.send_email(), Err(DeliveryError::NoRecipientDomain)));
    assert!(matches!(s.receive_email(), Err(DeliveryError::MissingData)));
    assert_eq!(DeliveryError::NoRecipientDomain.message(), "Recipient doesn't contain an `@` delimiter");
    assert_eq!(DeliveryError::MissingData.message(), "Missing email data");
    let mut s = SmtpSession::new();
    s.process_command("MAIL FROM:<a@x>");
    s.process_command("RCPT TO:<b@y>");
    assert!(matches!(s.send_email(), Err(DeliveryError::MissingData)));
}

#[test]
fn mail_exchanger_choice() {
    let records = vec![(20, "b.mx".to_string()), (10, "a.mx".to_string()), (10, "c.mx".to_string())];
    assert_eq!(best_mx(&records), Some("a.mx".to_string()));
    assert_eq!(choose_mx("y.com", &records), Ok("a.mx".to_string()));
    assert_eq!(choose_mx("y.com", &vec![]), Err("No MX records found for y.com".to_string()));
}

#[test]
fn next_copy_finds_first_free_name() {
    assert_eq!(next_copy("u", "f.txt", 0, true), None);
    assert_eq!(next_copy("u", "f.txt", 0, false), Some("./attachments/u/f.txt".to_string()));
    assert_eq!(next_copy("u", "f.txt", 2, false), Some("./attachments/u/f-2.txt".to_string()));
    let taken = ["./attachments/u/f.txt", "./attachments/u/f-1.txt"];
    let mut copy: u64 = 0;
    let path = loop {
        let p = attachment_path("u", "f.txt", copy);
        match next_copy("u", "f.txt", copy, taken.contains(&p.as_str())) {
            Some(p) => break p,
            None => copy += 1,
        }
    };
    assert_eq!(path, "./attachments/u/f-2.txt");
}
