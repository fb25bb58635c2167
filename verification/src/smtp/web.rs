//! Decisions of the mail server's web app: its session constants, the
//! outcomes of registering and logging in, and sending an email on behalf
//! of a logged-in user. The caller runs the database, Redis and HTTP work.

use vstd::prelude::*;
use crate::text::{chars_of, eq_str, string_of};
use crate::smtp::delivery::{mailbox_valid, parse_mailbox, MailMessage, MailView};
use crate::smtp::session::Attachment;

verus! {

/// The name of the session cookie.
pub const SSS_COOKIE_NAME: &'static str = "session";

/// The claim of the public session token that holds the session's id.
pub struct SessionPublicToken {
    pub uuid_key: &'static str,
}

/// The claim of the stored session token that holds the user's email.
pub struct SessionDataToken {
    pub session_key: &'static str,
}

/// The public session token's claims.
pub fn sss_pub_tk() -> (r: SessionPublicToken)
    ensures
        r.uuid_key@ == "session_uuid"@,
{
    SessionPublicToken { uuid_key: "session_uuid" }
}

/// The stored session token's claims.
pub fn sss_data_tk() -> (r: SessionDataToken)
    ensures
        r.session_key@ == "session"@,
{
    SessionDataToken { session_key: "session" }
}

/// A registered user.
pub struct User {
    pub email: String,
    pub name: String,
    pub password: String,
}

/// A registration request.
pub struct NewUser {
    pub email: String,
    pub name: String,
    pub password: String,
}

/// A login request.
pub struct LoginUser {
    pub email: String,
    pub password: String,
}

/// Why registering or logging in fails.
#[derive(PartialEq, Eq, Structural, Clone, Copy, Debug)]
pub enum Auth {
    UserAlreadyExists,
    UserNotFound,
    Unknown,
}

/// The message of an authentication error.
pub open spec fn auth_text(a: Auth) -> Seq<char> {
    match a {
        Auth::UserAlreadyExists => "A user with the provided email already exists"@,
        Auth::UserNotFound => "Could not find a user with the provided email"@,
        Auth::Unknown => "An unknown error was produced"@,
    }
}

fn text(s: &str) -> (r: String)
    ensures
        r@ == s@,
{
    string_of(chars_of(s).as_slice())
}

impl Auth {
    /// The error's message.
    pub fn message(&self) -> (r: String)
        ensures
            r@ == auth_text(*self),
    {
        match self {
            Auth::UserAlreadyExists => text("A user with the provided email already exists"),
            Auth::UserNotFound => text("Could not find a user with the provided email"),
            Auth::Unknown => text("An unknown error was produced"),
        }
    }

    /// The HTTP response the error is answered with: 409 with the message,
    /// 404 with the message, or 500 with an empty body.
    pub fn response(&self) -> (r: (u16, String))
        ensures
            *self == Auth::UserAlreadyExists ==> r.0 == 409 && r.1@ == auth_text(*self),
            *self == Auth::UserNotFound ==> r.0 == 404 && r.1@ == auth_text(*self),
            *self == Auth::Unknown ==> r.0 == 500 && r.1@ == Seq::<char>::empty(),
    {
        match self {
            Auth::UserAlreadyExists => (409, self.message()),
            Auth::UserNotFound => (404, self.message()),
            Auth::Unknown => {
                let empty: Vec<char> = Vec::new();
                (500, string_of(empty.as_slice()))
            },
        }
    }
}

/// Registering, once the lookup of the email is known (`None` when the
/// lookup failed, else whether a user has the email): go on to insert the
/// user, or the error.
pub fn register_lookup(found: Option<bool>) -> (r: Result<(), Auth>)
    ensures
        r == (match found {
            None => Err(Auth::Unknown),
            Some(true) => Err(Auth::UserAlreadyExists),
            Some(false) => Ok::<(), Auth>(()),
        }),
{
    match found {
        None => Err(Auth::Unknown),
        Some(true) => Err(Auth::UserAlreadyExists),
        Some(false) => Ok(()),
    }
}

/// Registering, once the insert is known: success (HTTP 200) or the error.
pub fn register_insert(inserted: bool) -> (r: Result<(), Auth>)
    ensures
        r == (if inserted {
            Ok::<(), Auth>(())
        } else {
            Err(Auth::Unknown)
        }),
{
    if inserted {
        Ok(())
    } else {
        Err(Auth::Unknown)
    }
}

/// Logging in, once the lookup of the email is known (`None` when the
/// lookup failed, else whether a user has the email): go on to read the
/// user, or the error.
pub fn login_lookup(found: Option<bool>) -> (r: Result<(), Auth>)
    ensures
        r == (match found {
            None => Err(Auth::Unknown),
            Some(false) => Err(Auth::UserNotFound),
            Some(true) => Ok::<(), Auth>(()),
        }),
{
    match found {
        None => Err(Auth::Unknown),
        Some(false) => Err(Auth::UserNotFound),
        Some(true) => Ok(()),
    }
}

/// The session cookie a successful login sets.
pub struct SessionCookie {
    pub name: String,
    pub value: String,
    pub path: String,
    pub http_only: bool,
}

/// Logging in, once the user row was read (`None` when it could not be)
/// and the session token issued (`None` when that failed): the session
/// cookie to set with HTTP 200, or the error.
pub fn login_cookie(user: Option<User>, token: Option<String>) -> (r: Result<SessionCookie, Auth>)
    ensures
        user is None ==> r == Err::<SessionCookie, Auth>(Auth::Unknown),
        user is Some && token is None ==> r == Err::<SessionCookie, Auth>(Auth::Unknown),
        user is Some && token is Some ==> (r matches Ok(c) && c.name@ == "session"@ && c.value@
            == token.unwrap()@ && c.path@ == "/"@ && c.http_only),
{
    if user.is_none() {
        return Err(Auth::Unknown);
    }
    match token {
        None => Err(Auth::Unknown),
        Some(t) => Ok(
            SessionCookie {
                name: text(SSS_COOKIE_NAME),
                value: t,
                path: text("/"),
                http_only: true,
            },
        ),
    }
}

/// A request to send an email.
pub struct SendEmail {
    pub sender: String,
    pub recipient: String,
    pub subject: String,
    pub body: String,
}

/// Why sending an email through the web app fails.
pub enum SendEmailError {
    /// The session could not be verified.
    Verification,
    /// The sender is not the logged-in user; the server's domain is given.
    InvalidSender(String),
    /// Anything else.
    Unknown,
}

impl SendEmailError {
    /// The HTTP status the error is answered with: 401 when the session
    /// cannot be verified, 400 for an invalid sender, 500 otherwise.
    pub fn status(&self) -> (r: u16)
        ensures
            self is Verification ==> r == 401,
            self is InvalidSender ==> r == 400,
            self is Unknown ==> r == 500,
    {
        match self {
            SendEmailError::Verification => 401,
            SendEmailError::InvalidSender(_) => 400,
            SendEmailError::Unknown => 500,
        }
    }
}

/// Sending an email, once the session's email (`None` when the session
/// cannot be verified) and the server's domain (`None` when the settings
/// cannot be read) are known: go on only when the sender is the logged-in
/// user.
pub fn check_sender(session_email: Option<String>, domain: Option<String>, email: &SendEmail) -> (r: Result<
    (),
    SendEmailError,
>)
    ensures
        session_email is None ==> r is Err && r->Err_0 is Verification,
        session_email is Some && domain is None ==> r is Err && r->Err_0 is Unknown,
        session_email is Some && domain is Some ==> (if session_email.unwrap()@ == email.sender@ {
            r is Ok
        } else {
            (r matches Err(SendEmailError::InvalidSender(x)) && x@ == domain.unwrap()@)
        }),
{
    let s = match session_email {
        None => {
            return Err(SendEmailError::Verification);
        },
        Some(s) => s,
    };
    let d = match domain {
        None => {
            return Err(SendEmailError::Unknown);
        },
        Some(d) => d,
    };
    let sv = chars_of(s.as_str());
    if eq_str(&sv, email.sender.as_str()) {
        Ok(())
    } else {
        Err(SendEmailError::InvalidSender(d))
    }
}

/// Builds the email to send: from the sender to the recipient with the
/// subject and the body as its text, no attachments and no date of its own
/// (it is dated when sent); `Unknown` when lettre refuses an address.
pub fn build_email(email: &SendEmail) -> (r: Result<MailMessage, SendEmailError>)
    ensures
        mailbox_valid(email.sender@) && mailbox_valid(email.recipient@) ==> (r matches Ok(m)
            && m@ == (MailView {
            from: email.sender@,
            to: email.recipient@,
            subject: email.subject@,
            date: None,
            body: email.body@,
            attachments: Seq::empty(),
        })),
        !mailbox_valid(email.sender@) || !mailbox_valid(email.recipient@) ==> (r matches Err(e)
            && e is Unknown),
{
    if !parse_mailbox(email.sender.as_str()) || !parse_mailbox(email.recipient.as_str()) {
        return Err(SendEmailError::Unknown);
    }
    let attachments: Vec<Attachment> = Vec::new();
    let m = MailMessage {
        from: string_of(chars_of(email.sender.as_str()).as_slice()),
        to: string_of(chars_of(email.recipient.as_str()).as_slice()),
        subject: string_of(chars_of(email.subject.as_str()).as_slice()),
        date: None,
        body: string_of(chars_of(email.body.as_str()).as_slice()),
        attachments,
    };
    assert(m@.attachments =~= Seq::<(Seq<char>, Seq<u8>)>::empty());
    Ok(m)
}

} // verus!
