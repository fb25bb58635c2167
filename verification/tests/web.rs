use pebbles::smtp::web::{
    build_email, check_sender, login_cookie, login_lookup, register_insert, register_lookup,
    sss_data_tk, sss_pub_tk, Auth, SendEmail, SendEmailError, User, SSS_COOKIE_NAME,
};
use pebbles::telemetry::format_log_time;

fn request(sender: &str) -> SendEmail {
    SendEmail {
        sender: sender.to_string(),
        recipient: "mtt@gmail.com".to_string(),
        subject: "MTT show".to_string(),
        body: "Uh...\nHi Mettaton...".to_string(),
    }
}

#[test]
fn session_constants() {
    assert_eq!(SSS_COOKIE_NAME, "session");
    assert_eq!(sss_pub_tk().uuid_key, "session_uuid");
    assert_eq!(sss_data_tk().session_key, "session");
}

#[test]
fn auth_responses() {
    assert_eq!(Auth::UserAlreadyExists.response(), (409, "A user with the provided email already exists".to_string()));
    assert_eq!(Auth::UserNotFound.response(), (404, "Could not find a user with the provided email".to_string()));
    assert_eq!(Auth::Unknown.response(), (500, String::new()));
    assert_eq!(Auth::Unknown.message(), "An unknown error was produced");
}

#[test]
fn registration_outcomes() {
    assert_eq!(register_lookup(None), Err(Auth::Unknown));
    assert_eq!(register_lookup(Some(true)), Err(Auth::UserAlreadyExists));
    assert_eq!(register_lookup(Some(false)), Ok(()));
    assert_eq!(register_insert(true), Ok(()));
    assert_eq!(register_insert(false), Err(Auth::Unknown));
}

#[test]
fn login_outcomes() {
    assert_eq!(login_lookup(None), Err(Auth::Unknown));
    assert_eq!(login_lookup(Some(false)), Err(Auth::UserNotFound));
    assert_eq!(login_lookup(Some(true)), Ok(()));
    let user = || User { email: "n@s.xyz".into(), name: "N".into(), password: "x".into() };
    assert!(matches!(login_cookie(None, Some("t".into())), Err(Auth::Unknown)));
    assert!(matches!(login_cookie(Some(user()), None), Err(Auth::Unknown)));
    let c = login_cookie(Some(user()), Some("tok".into())).ok().unwrap();
    assert_eq!((c.name.as_str(), c.value.as_str(), c.path.as_str(), c.http_only), ("session", "tok", "/", true));
}

#[test]
fn sender_checks() {
    let r = request("napstablook@shadedcitadel.xyz");
    let e = check_sender(None, Some("shadedcitadel.xyz".into()), &r).err().unwrap();
    assert!(matches!(e, SendEmailError::Verification));
    assert_eq!(e.status(), 401);
    let e = check_sender(Some("napstablook@shadedcitadel.xyz".into()), None, &r).err().unwrap();
    assert_eq!(e.status(), 500);
    match check_sender(Some("other@shadedcitadel.xyz".into()), Some("shadedcitadel.xyz".into()), &r) {
        Err(SendEmailError::InvalidSender(d)) => assert_eq!(d, "shadedcitadel.xyz"),
        _ => panic!("expected an invalid sender"),
    }
    assert_eq!(SendEmailError::InvalidSender("d".into()).status(), 400);
    assert!(check_sender(Some("napstablook@shadedcitadel.xyz".into()), Some("d".into()), &r).is_ok());
}

#[test]
fn building_emails() {
    let m = build_email(&request("napstablook@shadedcitadel.xyz")).ok().unwrap();
    assert_eq!(m.from, "napstablook@shadedcitadel.xyz");
    assert_eq!(m.to, "mtt@gmail.com");
    assert_eq!(m.subject, "MTT show");
    assert_eq!(m.body, "Uh...\nHi Mettaton...");
    assert_eq!(m.date, None);
    assert!(m.attachments.is_empty());
    assert!(matches!(build_email(&request("not an address")), Err(SendEmailError::Unknown)));
}

#[test]
fn log_timestamps() {
    assert_eq!(format_log_time(2024, 3, 7, 9, 5, 0, 123), "7-3-2024 09:05:00.123");
    assert_eq!(format_log_time(-44, 12, 31, 23, 59, 59, 0), "31-12--44 23:59:59.0");
}
