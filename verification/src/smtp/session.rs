//! The SMTP server and its sessions: the command state machine (`HELO`,
//! `EHLO`, `MAIL`, `RCPT`, `DATA`, `QUIT`) and the steps of reading a
//! message after `DATA`: header lines, the body, and multipart bodies with
//! their attachments. The caller reads lines and writes replies.

use vstd::prelude::*;
use crate::text::{
    chars_of, dec, drop_leading, drop_trailing, eq_str, is_ws, has_prefix, push_chars, push_dec, push_str,
    split_once, split_once_chars, split_once_str, split_once_str_chars, starts_with, string_of,
    strip_prefixes, strip_suffixes, trim, trim_char, trim_chars, trim_end_str, trim_start_str,
};
use crate::ftp::{join_path, parent_path, path_join, path_parent};
use crate::smtp::settings::Settings;
use crate::ftpebbles::{lemma_request_parts, lemma_request_word};
use mailparse::MailHeaderMap;

verus! {

// ---------------------------------------------------------------------------
// Trusted items
// ---------------------------------------------------------------------------

/// The instant an RFC 2822 date denotes, as UTC seconds and nanoseconds
/// since the Unix epoch, or `None` when chrono refuses the text.
pub uninterp spec fn rfc2822_utc(s: Seq<char>) -> Option<(i64, u32)>;

/// Calls `chrono::DateTime::parse_from_rfc2822` and reads the instant in
/// UTC (`with_timezone(&Utc)`, `timestamp`, `timestamp_subsec_nanos`); the
/// contract only names the result.
#[verifier::external_body]
fn parse_rfc2822(s: &str) -> (r: Option<(i64, u32)>)
    ensures
        r == rfc2822_utc(s@),
{
    match chrono::DateTime::parse_from_rfc2822(s) {
        Ok(d) => {
            let u = d.with_timezone(&chrono::Utc);
            Some((u.timestamp(), u.timestamp_subsec_nanos()))
        },
        Err(_) => None,
    }
}

/// One part of a parsed multipart message: its first `Content-Disposition`
/// header, its body decoded to bytes, and its body decoded to text (each
/// `None` when it is missing or cannot be decoded).
pub struct MailPart {
    pub disposition: Option<String>,
    pub raw_body: Option<Vec<u8>>,
    pub text_body: Option<String>,
}

/// One part of a parsed multipart message, as values: its first
/// `Content-Disposition` header, its body decoded to bytes, and its body
/// decoded to text (each `None` when mailparse fails to decode it).
pub open spec fn part_view(p: MailPart) -> (Option<Seq<char>>, Option<Seq<u8>>, Option<Seq<char>>) {
    (
        match p.disposition {
            Some(d) => Some(d@),
            None => None,
        },
        match p.raw_body {
            Some(b) => Some(b@),
            None => None,
        },
        match p.text_body {
            Some(t) => Some(t@),
            None => None,
        },
    )
}

/// The subparts mailparse finds in a message, or `None` when it refuses
/// the message.
pub uninterp spec fn mail_parts(raw: Seq<char>) -> Option<
    Seq<(Option<Seq<char>>, Option<Seq<u8>>, Option<Seq<char>>)>,
>;

/// Calls `mailparse::parse_mail` on the message's bytes and, for each
/// subpart, `get_headers().get_first_value("Content-Disposition")`,
/// `get_body_raw()` and `get_body()`; the contract only names the result.
#[verifier::external_body]
fn parse_mail_parts(raw: &str) -> (r: Option<Vec<MailPart>>)
    ensures
        match (r, mail_parts(raw@)) {
            (Some(v), Some(s)) => v@.map_values(|p: MailPart| part_view(p)) == s,
            (None, None) => true,
            _ => false,
        },
{
    let mail = mailparse::parse_mail(raw.as_bytes()).ok()?;
    Some(mail.subparts.iter().map(|p| MailPart {
        disposition: p.get_headers().get_first_value("Content-Disposition"),
        raw_body: p.get_body_raw().ok(),
        text_body: p.get_body().ok(),
    }).collect())
}

/// The file-name stem `std::path::Path::file_stem` gives for a path.
pub uninterp spec fn path_file_stem(p: Seq<char>) -> Option<Seq<char>>;

/// Calls `Path::file_stem`; the contract only names the result.
#[verifier::external_body]
fn file_stem(p: &str) -> (r: Option<String>)
    ensures
        r is Some == path_file_stem(p@) is Some,
        r matches Some(q) ==> q@ == path_file_stem(p@).unwrap(),
{
    std::path::Path::new(p).file_stem().map(|q| q.to_string_lossy().into_owned())
}

/// The extension `std::path::Path::extension` gives for a path.
pub uninterp spec fn path_extension(p: Seq<char>) -> Option<Seq<char>>;

/// Calls `Path::extension`; the contract only names the result.
#[verifier::external_body]
fn extension(p: &str) -> (r: Option<String>)
    ensures
        r is Some == path_extension(p@) is Some,
        r matches Some(q) ==> q@ == path_extension(p@).unwrap(),
{
    std::path::Path::new(p).extension().map(|q| q.to_string_lossy().into_owned())
}

// ---------------------------------------------------------------------------
// The server
// ---------------------------------------------------------------------------

/// The SMTP server's address.
pub struct SmtpServer {
    pub host: String,
    pub port: u16,
}

/// Why the server cannot be built.
#[derive(PartialEq, Eq, Structural, Clone, Copy, Debug)]
pub enum ServerError {
    /// The host is `0.0.0.0` and the machine's IPv4 address is unknown.
    NoLocalAddress,
}

impl ServerError {
    /// The error's message.
    pub fn message(&self) -> (r: String)
        ensures
            r@ == "Failed to get the local IPv4 address"@,
    {
        text("Failed to get the local IPv4 address")
    }
}

impl SmtpServer {
    /// Describes the server from the settings; `local_ip` is the machine's
    /// IPv4 address, which replaces a host of `0.0.0.0`.
    pub fn new(settings: &Settings, local_ip: Option<String>) -> (r: Result<SmtpServer, ServerError>)
        ensures
            settings.smtp.host@ == "0.0.0.0"@ && local_ip is None ==> r == Err::<
                SmtpServer,
                ServerError,
            >(ServerError::NoLocalAddress),
            settings.smtp.host@ != "0.0.0.0"@ || local_ip is Some ==> r is Ok,
            r matches Ok(s) ==> {
                &&& s.host@ == (if settings.smtp.host@ == "0.0.0.0"@ {
                    local_ip.unwrap()@
                } else {
                    settings.smtp.host@
                })
                &&& s.port == settings.smtp.port
            },
    {
        let h = chars_of(settings.smtp.host.as_str());
        let host = if eq_str(&h, "0.0.0.0") {
            match local_ip {
                Some(ip) => ip,
                None => {
                    return Err(ServerError::NoLocalAddress);
                },
            }
        } else {
            string_of(h.as_slice())
        };
        Ok(SmtpServer { host, port: settings.smtp.port })
    }

    /// The address the server listens on: `host:port`.
    pub fn addr(&self) -> (r: String)
        ensures
            r@ == self.host@ + ":"@ + dec(self.port as nat),
    {
        let mut m: Vec<char> = Vec::new();
        push_str(&mut m, self.host.as_str());
        push_str(&mut m, ":");
        push_dec(&mut m, self.port as u64);
        string_of(m.as_slice())
    }
}

// ---------------------------------------------------------------------------
// Emails
// ---------------------------------------------------------------------------

/// A file attached to an email.
pub struct Attachment {
    pub filename: String,
    pub body: Vec<u8>,
}

impl View for Attachment {
    type V = (Seq<char>, Seq<u8>);

    open spec fn view(&self) -> (Seq<char>, Seq<u8>) {
        (self.filename@, self.body@)
    }
}

impl Attachment {
    /// An attachment with this name and content.
    pub fn new(filename: String, body: Vec<u8>) -> (r: Attachment)
        ensures
            r@ == (filename@, body@),
    {
        Attachment { filename, body }
    }
}

/// What the `DATA` phase learns of a message. `date` is the instant as UTC
/// seconds and nanoseconds since the Unix epoch.
pub struct EmailData {
    pub from: Option<String>,
    pub to: Option<String>,
    pub subject: Option<String>,
    pub date: Option<(i64, u32)>,
    pub content: Option<String>,
    pub attachments: Vec<Attachment>,
}

/// The message being received: the envelope sender and recipient, and the
/// data once `DATA` has begun.
pub struct Email {
    pub sender: Option<String>,
    pub recipient: Option<String>,
    pub data: Option<EmailData>,
}

/// The text of an optional string.
pub open spec fn opt_text(o: Option<String>) -> Option<Seq<char>> {
    match o {
        Some(s) => Some(s@),
        None => None,
    }
}

/// Message data as values.
pub struct DataView {
    pub from: Option<Seq<char>>,
    pub to: Option<Seq<char>>,
    pub subject: Option<Seq<char>>,
    pub date: Option<(i64, u32)>,
    pub content: Option<Seq<char>>,
    pub attachments: Seq<(Seq<char>, Seq<u8>)>,
}

/// An email as values.
pub struct EmailView {
    pub sender: Option<Seq<char>>,
    pub recipient: Option<Seq<char>>,
    pub data: Option<DataView>,
}

impl View for EmailData {
    type V = DataView;

    open spec fn view(&self) -> DataView {
        DataView {
            from: opt_text(self.from),
            to: opt_text(self.to),
            subject: opt_text(self.subject),
            date: self.date,
            content: opt_text(self.content),
            attachments: self.attachments@.map_values(|a: Attachment| a@),
        }
    }
}

impl View for Email {
    type V = EmailView;

    open spec fn view(&self) -> EmailView {
        EmailView {
            sender: opt_text(self.sender),
            recipient: opt_text(self.recipient),
            data: match self.data {
                Some(d) => Some(d@),
                None => None,
            },
        }
    }
}

/// The data of a message whose `DATA` phase has just begun.
pub open spec fn empty_data() -> DataView {
    DataView {
        from: None,
        to: None,
        subject: None,
        date: None,
        content: None,
        attachments: Seq::empty(),
    }
}

// ---------------------------------------------------------------------------
// Commands
// ---------------------------------------------------------------------------

/// What a command asks of the session loop.
#[derive(PartialEq, Eq, Structural, Clone, Copy, Debug)]
pub enum CommandResult {
    Continue,
    Exit,
}

/// A command error, which the session loop logs before reading on.
#[derive(PartialEq, Eq, Structural, Clone, Copy, Debug)]
pub enum Error {
    /// `MAIL` or `RCPT` came without a parameter.
    MissingParam,
}

impl Error {
    /// The error's message.
    pub fn message(&self) -> (r: String)
        ensures
            r@ == "Parameter is missing"@,
    {
        text("Parameter is missing")
    }
}

/// What the caller does after a command.
pub enum SmtpAction {
    /// Send the reply and read the next command.
    Reply(String),
    /// Send the reply; the command fails with the error.
    ReplyThenError(String, Error),
    /// Send the reply and close the session.
    Quit(String),
    /// Send the reply and read the message (see `DataPhase`).
    StartData(String),
}

/// An action as values.
pub enum SmtpActionView {
    Reply(Seq<char>),
    ReplyThenError(Seq<char>, Error),
    Quit(Seq<char>),
    StartData(Seq<char>),
}

impl View for SmtpAction {
    type V = SmtpActionView;

    open spec fn view(&self) -> SmtpActionView {
        match self {
            SmtpAction::Reply(s) => SmtpActionView::Reply(s@),
            SmtpAction::ReplyThenError(s, e) => SmtpActionView::ReplyThenError(s@, *e),
            SmtpAction::Quit(s) => SmtpActionView::Quit(s@),
            SmtpAction::StartData(s) => SmtpActionView::StartData(s@),
        }
    }
}

/// What the session loop does after an action: read on, close, or log the
/// error and read on.
pub fn command_result(a: &SmtpAction) -> (r: Result<CommandResult, Error>)
    ensures
        r == (match a@ {
            SmtpActionView::Quit(_) => Ok(CommandResult::Exit),
            SmtpActionView::ReplyThenError(_, e) => Err(e),
            _ => Ok::<CommandResult, Error>(CommandResult::Continue),
        }),
{
    match a {
        SmtpAction::Quit(_) => Ok(CommandResult::Exit),
        SmtpAction::ReplyThenError(_, e) => Err(*e),
        _ => Ok(CommandResult::Continue),
    }
}

/// The reply to a badly formed `MAIL` or `RCPT` parameter.
pub open spec fn syntax_reply() -> Seq<char> {
    "501 I may have been too rash in bestowing the mark of communication upon you. (Syntax error in parameters or arguments)\r\n"@
}

/// The reply to a command out of sequence.
pub open spec fn sequence_reply() -> Seq<char> {
    "503 Is this some kind of joke? (Bad sequence of commands)\r\n"@
}

/// The address in a `MAIL FROM:` or `RCPT TO:` parameter: the prefix
/// stripped (as often as it repeats), white space trimmed, then `<` and `>`
/// trimmed from both ends.
pub open spec fn address_of(param: Seq<char>, prefix: Seq<char>) -> Seq<char> {
    let t = trim(strip_prefixes(param, prefix));
    let a = drop_trailing(drop_leading(t, |c: char| c == '<'), |c: char| c == '<');
    drop_trailing(drop_leading(a, |c: char| c == '>'), |c: char| c == '>')
}

/// How a session answers `MAIL param`.
pub open spec fn mail_step(e: Option<EmailView>, param: Seq<char>) -> (Option<EmailView>, Seq<char>) {
    if !has_prefix(param, "FROM:"@) {
        (e, syntax_reply())
    } else if e is Some {
        (e, sequence_reply())
    } else {
        (
            Some(EmailView { sender: Some(address_of(param, "FROM:"@)), recipient: None, data: None }),
            "250 OK: I assume you have come here because you want a way out.\r\n"@,
        )
    }
}

/// How a session answers `RCPT param`.
pub open spec fn rcpt_step(e: Option<EmailView>, param: Seq<char>) -> (Option<EmailView>, Seq<char>) {
    if !has_prefix(param, "TO:"@) {
        (e, syntax_reply())
    } else {
        match e {
            None => (e, sequence_reply()),
            Some(m) => if m.recipient is Some || m.data is Some {
                (e, sequence_reply())
            } else {
                (
                    Some(EmailView { recipient: Some(address_of(param, "TO:"@)), ..m }),
                    "250 OK: However, it seems this delivery was not intended for me.\r\n"@,
                )
            },
        }
    }
}

/// The reply that starts the `DATA` phase.
pub open spec fn data_reply() -> Seq<char> {
    "354 Let us see if there is anything important written on this. (Start mail input; end with <CRLF>.<CRLF>)\r\n"@
}

/// How a session answers `DATA`.
pub open spec fn data_step(e: Option<EmailView>) -> (Option<EmailView>, SmtpActionView) {
    match e {
        None => (e, SmtpActionView::Reply(sequence_reply())),
        Some(m) => if m.data is Some {
            (e, SmtpActionView::Reply(sequence_reply()))
        } else {
            (Some(EmailView { data: Some(empty_data()), ..m }), SmtpActionView::StartData(data_reply()))
        },
    }
}

/// How a session answers a request: its next email and the action.
pub open spec fn smtp_step(e: Option<EmailView>, req: Seq<char>) -> (Option<EmailView>, SmtpActionView) {
    let cmd = split_once(req, ' ').0;
    let param = split_once(req, ' ').1;
    let missing = (
        e,
        SmtpActionView::ReplyThenError(
            "501 Syntax error in parameters or arguments\r\n"@,
            Error::MissingParam,
        ),
    );
    if cmd == "HELO"@ {
        (e, SmtpActionView::Reply("250 A little animal, on the floor of my chamber.\r\n"@))
    } else if cmd == "EHLO"@ {
        (
            e,
            SmtpActionView::Reply(
                "250-A little animal, on the floor of my chamber. I think I know what you are looking for.\r\n250 HELP\r\n"@,
            ),
        )
    } else if cmd == "MAIL"@ {
        match param {
            None => missing,
            Some(p) => {
                let (e1, m) = mail_step(e, p);
                (e1, SmtpActionView::Reply(m))
            },
        }
    } else if cmd == "RCPT"@ {
        match param {
            None => missing,
            Some(p) => {
                let (e1, m) = rcpt_step(e, p);
                (e1, SmtpActionView::Reply(m))
            },
        }
    } else if cmd == "DATA"@ {
        data_step(e)
    } else if cmd == "QUIT"@ {
        (
            e,
            SmtpActionView::Quit(
                "221 Best of luck to you, little creature. I must resume my work. (Service closing transmission channel)\r\n"@,
            ),
        )
    } else {
        (
            e,
            SmtpActionView::Reply(
                "500 Perhaps this is fate. Karma recounting my deeds and bearing its fangs at me in the most ironic fashion. (Syntax error, command unrecognized)\r\n"@,
            ),
        )
    }
}

fn text(s: &str) -> (r: String)
    ensures
        r@ == s@,
{
    string_of(chars_of(s).as_slice())
}

/// Executable `address_of`.
fn address(param: &Vec<char>, prefix: &str) -> (r: String)
    ensures
        r@ == address_of(param@, prefix@),
{
    let a = trim_start_str(param, prefix);
    let t = trim_chars(&a);
    let b = trim_char(&t, '<');
    let c = trim_char(&b, '>');
    string_of(c.as_slice())
}

/// An SMTP session: the message being received, if any.
pub struct SmtpSession {
    pub email: Option<Email>,
}

impl View for SmtpSession {
    type V = Option<EmailView>;

    open spec fn view(&self) -> Option<EmailView> {
        match self.email {
            Some(e) => Some(e@),
            None => None,
        }
    }
}

impl SmtpSession {
    /// A new session, with no message.
    pub fn new() -> (r: SmtpSession)
        ensures
            r@ is None,
    {
        SmtpSession { email: None }
    }

    /// Answers one request (already trimmed).
    pub fn process_command(&mut self, request: &str) -> (r: SmtpAction)
        ensures
            (final(self)@, r@) == smtp_step(old(self)@, request@),
    {
        let req = chars_of(request);
        let (command, param) = split_once_chars(&req, ' ');
        if eq_str(&command, "HELO") {
            SmtpAction::Reply(text("250 A little animal, on the floor of my chamber.\r\n"))
        } else if eq_str(&command, "EHLO") {
            SmtpAction::Reply(
                text(
                    "250-A little animal, on the floor of my chamber. I think I know what you are looking for.\r\n250 HELP\r\n",
                ),
            )
        } else if eq_str(&command, "MAIL") {
            match param {
                None => SmtpAction::ReplyThenError(
                    text("501 Syntax error in parameters or arguments\r\n"),
                    Error::MissingParam,
                ),
                Some(p) => SmtpAction::Reply(self.mail(string_of(p.as_slice()))),
            }
        } else if eq_str(&command, "RCPT") {
            match param {
                None => SmtpAction::ReplyThenError(
                    text("501 Syntax error in parameters or arguments\r\n"),
                    Error::MissingParam,
                ),
                Some(p) => SmtpAction::Reply(self.rcpt(string_of(p.as_slice()))),
            }
        } else if eq_str(&command, "DATA") {
            self.data()
        } else if eq_str(&command, "QUIT") {
            SmtpAction::Quit(
                text(
                    "221 Best of luck to you, little creature. I must resume my work. (Service closing transmission channel)\r\n",
                ),
            )
        } else {
            SmtpAction::Reply(
                text(
                    "500 Perhaps this is fate. Karma recounting my deeds and bearing its fangs at me in the most ironic fashion. (Syntax error, command unrecognized)\r\n",
                ),
            )
        }
    }

    /// Answers `MAIL param`: starts a message from the sender it names.
    pub fn mail(&mut self, param: String) -> (r: String)
        ensures
            (final(self)@, r@) == mail_step(old(self)@, param@),
    {
        let p = chars_of(param.as_str());
        if !starts_with(&p, "FROM:") {
            return text(
                "501 I may have been too rash in bestowing the mark of communication upon you. (Syntax error in parameters or arguments)\r\n",
            );
        }
        let sender = address(&p, "FROM:");
        if self.email.is_some() {
            return text("503 Is this some kind of joke? (Bad sequence of commands)\r\n");
        }
        self.email = Some(Email { sender: Some(sender), recipient: None, data: None });
        text("250 OK: I assume you have come here because you want a way out.\r\n")
    }

    /// Answers `RCPT param`: names the message's recipient.
    pub fn rcpt(&mut self, param: String) -> (r: String)
        ensures
            (final(self)@, r@) == rcpt_step(old(self)@, param@),
    {
        let p = chars_of(param.as_str());
        if !starts_with(&p, "TO:") {
            return text(
                "501 I may have been too rash in bestowing the mark of communication upon you. (Syntax error in parameters or arguments)\r\n",
            );
        }
        let recipient = address(&p, "TO:");
        match self.email.take() {
            None => text("503 Is this some kind of joke? (Bad sequence of commands)\r\n"),
            Some(mut e) => {
                if e.recipient.is_some() || e.data.is_some() {
                    self.email = Some(e);
                    text("503 Is this some kind of joke? (Bad sequence of commands)\r\n")
                } else {
                    e.recipient = Some(recipient);
                    self.email = Some(e);
                    text("250 OK: However, it seems this delivery was not intended for me.\r\n")
                }
            },
        }
    }

    /// Answers `DATA`: starts reading the message, unless no message was
    /// started or its data was already read.
    pub fn data(&mut self) -> (r: SmtpAction)
        ensures
            (final(self)@, r@) == data_step(old(self)@),
    {
        match self.email.take() {
            None => SmtpAction::Reply(
                text("503 Is this some kind of joke? (Bad sequence of commands)\r\n"),
            ),
            Some(mut e) => {
                if e.data.is_some() {
                    self.email = Some(e);
                    SmtpAction::Reply(
                        text("503 Is this some kind of joke? (Bad sequence of commands)\r\n"),
                    )
                } else {
                    let d = EmailData {
                        from: None,
                        to: None,
                        subject: None,
                        date: None,
                        content: None,
                        attachments: Vec::new(),
                    };
                    assert(d@.attachments =~= Seq::<(Seq<char>, Seq<u8>)>::empty());
                    e.data = Some(d);
                    self.email = Some(e);
                    SmtpAction::StartData(
                        text(
                            "354 Let us see if there is anything important written on this. (Start mail input; end with <CRLF>.<CRLF>)\r\n",
                        ),
                    )
                }
            },
        }
    }
}

// ---------------------------------------------------------------------------
// Reading a message
// ---------------------------------------------------------------------------

/// Why reading a message ends the session.
#[derive(PartialEq, Eq, Structural, Clone, Copy, Debug)]
pub enum DataError {
    /// A `Date:` header that is not an RFC 2822 date.
    BadDate,
    /// The sender address has no `@`.
    MalformedSender,
    /// The recipient address has no `@`.
    MalformedRecipient,
    /// The multipart message cannot be parsed.
    BadMail,
    /// A part's body cannot be decoded.
    BadPart,
}

impl DataError {
    /// The error's message.
    pub fn message(&self) -> (r: String)
        ensures
            r@ == (match *self {
                DataError::BadDate => "Invalid Date header"@,
                DataError::MalformedSender => "Malformed sender address"@,
                DataError::MalformedRecipient => "Malformed recipient address"@,
                DataError::BadMail => "Malformed multipart message"@,
                DataError::BadPart => "Malformed message part"@,
            }),
    {
        match self {
            DataError::BadDate => text("Invalid Date header"),
            DataError::MalformedSender => text("Malformed sender address"),
            DataError::MalformedRecipient => text("Malformed recipient address"),
            DataError::BadMail => text("Malformed multipart message"),
            DataError::BadPart => text("Malformed message part"),
        }
    }
}

/// What has been read of a message's text: the header lines (each followed
/// by `\n`), the `Content-Type` header, and the body read so far.
pub struct DataPhase {
    pub raw_headers: String,
    pub content_type: Option<String>,
    pub body: String,
}

/// A data phase as values.
pub struct PhaseView {
    pub raw_headers: Seq<char>,
    pub content_type: Option<Seq<char>>,
    pub body: Seq<char>,
}

impl View for DataPhase {
    type V = PhaseView;

    open spec fn view(&self) -> PhaseView {
        PhaseView {
            raw_headers: self.raw_headers@,
            content_type: opt_text(self.content_type),
            body: self.body@,
        }
    }
}

/// A line as read, without its trailing line breaks (`\r\n`, as often as
/// they repeat).
pub open spec fn line_text(line: Seq<char>) -> Seq<char> {
    strip_suffixes(line, "\r\n"@)
}

/// The value of a header line: what follows the first `": "`, trimmed.
pub open spec fn header_value(l: Seq<char>) -> Seq<char> {
    trim(split_once_str(l, ": "@).1.unwrap())
}

/// How one header line changes the message data and the data phase, and
/// whether it ends the headers; or the error that ends the session.
pub open spec fn header_step(d: DataView, ph: PhaseView, line: Seq<char>) -> Result<
    (DataView, PhaseView, bool),
    DataError,
> {
    let l = line_text(line);
    let v = header_value(l);
    let ph1 = PhaseView { raw_headers: ph.raw_headers + l + "\n"@, ..ph };
    if has_prefix(l, "From: "@) {
        Ok((DataView { from: Some(v), ..d }, ph1, false))
    } else if has_prefix(l, "To: "@) {
        Ok((DataView { to: Some(v), ..d }, ph1, false))
    } else if has_prefix(l, "Subject: "@) {
        Ok((DataView { subject: Some(v), ..d }, ph1, false))
    } else if has_prefix(l, "Date: "@) {
        match rfc2822_utc(v) {
            Some(t) => Ok((DataView { date: Some(t), ..d }, ph1, false)),
            None => Err(DataError::BadDate),
        }
    } else if has_prefix(l, "Content-Type: "@) {
        Ok((d, PhaseView { content_type: Some(v), ..ph1 }, false))
    } else if trim(l).len() == 0 {
        Ok((d, ph1, true))
    } else {
        Ok((d, ph1, false))
    }
}

/// The session is reading a message's data.
pub open spec fn in_data(e: Option<EmailView>) -> bool {
    e matches Some(m) && m.data is Some
}

/// The session with its message data replaced.
pub open spec fn with_data(e: Option<EmailView>, d: DataView) -> Option<EmailView> {
    Some(EmailView { data: Some(d), ..e.unwrap() })
}

/// The text of an optional line (`None` at the end of input).
pub open spec fn opt_line(line: Option<&str>) -> Option<Seq<char>> {
    match line {
        Some(l) => Some(l@),
        None => None,
    }
}

/// The line ends the message text: the input ended, or the line is `.`
/// (around white space).
pub open spec fn is_end_line(line: Option<Seq<char>>) -> bool {
    match line {
        None => true,
        Some(l) => trim(line_text(l)) == "."@,
    }
}

/// How the body is read after the headers: as plain text, or as a
/// multipart message for the server's local user (if any).
pub enum BodyMode {
    Plain,
    Multipart(Option<String>),
}

/// The domain of an address: what follows its first `@`.
pub open spec fn domain_of(a: Seq<char>) -> Option<Seq<char>> {
    split_once(a, '@').1
}

/// The address of the server's own user in a message: the sender when the
/// server's domain is the sender's, else the recipient when it is the
/// recipient's.
pub open spec fn local_user_address(
    e: EmailView,
    domain: Seq<char>,
    sender_domain: Seq<char>,
    recipient_domain: Seq<char>,
) -> Option<Seq<char>> {
    if domain == sender_domain {
        e.sender
    } else if domain == recipient_domain {
        e.recipient
    } else {
        None
    }
}

/// Where a received message goes: sent on when the server's domain is the
/// sender's, stored when it is the recipient's, else nowhere.
#[derive(PartialEq, Eq, Structural, Clone, Copy, Debug)]
pub enum Route {
    Send,
    Receive,
    Keep,
}

/// The route for the domains.
pub open spec fn route_of(domain: Seq<char>, sender_domain: Seq<char>, recipient_domain: Seq<char>) -> Route {
    if domain == sender_domain {
        Route::Send
    } else if domain == recipient_domain {
        Route::Receive
    } else {
        Route::Keep
    }
}

/// Picks the route for a message.
pub fn route(domain: &str, sender_domain: &str, recipient_domain: &str) -> (r: Route)
    ensures
        r == route_of(domain@, sender_domain@, recipient_domain@),
{
    let d = chars_of(domain);
    if eq_str(&d, sender_domain) {
        Route::Send
    } else if eq_str(&d, recipient_domain) {
        Route::Receive
    } else {
        Route::Keep
    }
}

/// Which header a line of the message's text is.
#[derive(PartialEq, Eq, Structural, Clone, Copy)]
enum HeaderKind {
    From,
    To,
    Subject,
    Date,
    ContentType,
    Blank,
    Other,
}

/// The value of a header line that begins with `prefix`, which ends in
/// `": "`.
fn header_value_after(l: &Vec<char>, prefix: &str) -> (r: String)
    requires
        has_prefix(l@, prefix@),
        prefix@.len() >= 2,
        prefix@[prefix@.len() - 2] == ':',
        prefix@[prefix@.len() - 1] == ' ',
    ensures
        r@ == header_value(l@),
{
    proof {
        reveal_strlit(": ");
        let k = prefix@.len() - 2;
        assert(l@[k] == prefix@[k]);
        assert(l@[k + 1] == prefix@[k + 1]);
        assert(l@.subrange(k, k + 2) =~= ": "@);
        occurs_at_witness(l@, k);
    }
    let (_, rest) = split_once_str_chars(l, ": ");
    let rest = rest.unwrap();
    let t = trim_chars(&rest);
    string_of(t.as_slice())
}

proof fn occurs_at_witness(l: Seq<char>, k: int)
    requires
        0 <= k,
        k + 2 <= l.len(),
        l.subrange(k, k + 2) == ": "@,
    ensures
        exists|j: int| crate::text::occurs_at(l, ": "@, j),
{
    reveal_strlit(": ");
    assert(crate::text::occurs_at(l, ": "@, k));
}

impl DataPhase {
    /// Nothing read yet.
    pub fn new() -> (r: DataPhase)
        ensures
            r@ == (PhaseView { raw_headers: Seq::empty(), content_type: None, body: Seq::empty() }),
    {
        let empty: Vec<char> = Vec::new();
        let raw_headers = string_of(empty.as_slice());
        let body = string_of(empty.as_slice());
        DataPhase { raw_headers, content_type: None, body }
    }

    /// Reads one line of a plain body: the body is the lines without their
    /// line breaks, run together. Returns whether the line ends the body.
    pub fn plain_line(&mut self, line: Option<&str>) -> (ended: bool)
        ensures
            ended == is_end_line(opt_line(line)),
            ended ==> final(self)@ == old(self)@,
            !ended ==> final(self)@ == (PhaseView {
                body: old(self)@.body + line_text(opt_line(line).unwrap()),
                ..old(self)@
            }),
    {
        match line {
            None => true,
            Some(l) => {
                let lv = chars_of(l);
                let t = trim_end_str(&lv, "\r\n");
                let tt = trim_chars(&t);
                if eq_str(&tt, ".") {
                    true
                } else {
                    let mut b = chars_of(self.body.as_str());
                    push_chars(&mut b, &t);
                    self.body = string_of(b.as_slice());
                    false
                }
            },
        }
    }

    /// Reads one line of a multipart body: each line is kept with a `\n`
    /// after it. Returns whether the line ends the body.
    pub fn multipart_line(&mut self, line: Option<&str>) -> (ended: bool)
        ensures
            ended == is_end_line(opt_line(line)),
            ended ==> final(self)@ == old(self)@,
            !ended ==> final(self)@ == (PhaseView {
                body: old(self)@.body + line_text(opt_line(line).unwrap()) + "\n"@,
                ..old(self)@
            }),
    {
        match line {
            None => true,
            Some(l) => {
                let lv = chars_of(l);
                let t = trim_end_str(&lv, "\r\n");
                let tt = trim_chars(&t);
                if eq_str(&tt, ".") {
                    true
                } else {
                    let mut b = chars_of(self.body.as_str());
                    push_chars(&mut b, &t);
                    push_str(&mut b, "\n");
                    self.body = string_of(b.as_slice());
                    false
                }
            },
        }
    }
}

impl SmtpSession {
    /// Reads one header line of the message: `From`, `To`, `Subject` and
    /// `Date` fill the message data, `Content-Type` is kept for the body,
    /// and a blank line ends the headers (returns `true`). Every line is
    /// kept in the raw headers. A `Date` that does not parse ends the
    /// session and changes nothing.
    pub fn header_line(&mut self, phase: &mut DataPhase, line: &str) -> (r: Result<bool, DataError>)
        requires
            in_data(old(self)@),
        ensures
            match header_step(old(self)@.unwrap().data.unwrap(), old(phase)@, line@) {
                Ok((d, ph, done)) => {
                    &&& r == Ok::<bool, DataError>(done)
                    &&& final(phase)@ == ph
                    &&& final(self)@ == with_data(old(self)@, d)
                },
                Err(err) => {
                    &&& r == Err::<bool, DataError>(err)
                    &&& final(phase)@ == old(phase)@
                    &&& final(self)@ == old(self)@
                },
            },
    {
        proof {
            reveal_strlit("From: ");
            reveal_strlit("To: ");
            reveal_strlit("Subject: ");
            reveal_strlit("Date: ");
            reveal_strlit("Content-Type: ");
        }
        let lv = chars_of(line);
        let l = trim_end_str(&lv, "\r\n");
        let kind = if starts_with(&l, "From: ") {
            HeaderKind::From
        } else if starts_with(&l, "To: ") {
            HeaderKind::To
        } else if starts_with(&l, "Subject: ") {
            HeaderKind::Subject
        } else if starts_with(&l, "Date: ") {
            HeaderKind::Date
        } else if starts_with(&l, "Content-Type: ") {
            HeaderKind::ContentType
        } else if trim_chars(&l).len() == 0 {
            HeaderKind::Blank
        } else {
            HeaderKind::Other
        };
        let value = match kind {
            HeaderKind::From => Some(header_value_after(&l, "From: ")),
            HeaderKind::To => Some(header_value_after(&l, "To: ")),
            HeaderKind::Subject => Some(header_value_after(&l, "Subject: ")),
            HeaderKind::Date => Some(header_value_after(&l, "Date: ")),
            HeaderKind::ContentType => Some(header_value_after(&l, "Content-Type: ")),
            _ => None,
        };
        let date = match (kind, &value) {
            (HeaderKind::Date, Some(v)) => match parse_rfc2822(v.as_str()) {
                Some(t) => Some(t),
                None => {
                    return Err(DataError::BadDate);
                },
            },
            _ => None,
        };
        let mut raw = chars_of(phase.raw_headers.as_str());
        push_chars(&mut raw, &l);
        push_str(&mut raw, "\n");
        phase.raw_headers = string_of(raw.as_slice());
        match kind {
            HeaderKind::ContentType => {
                phase.content_type = value;
                Ok(false)
            },
            HeaderKind::Blank => Ok(true),
            HeaderKind::Other => Ok(false),
            _ => {
                let mut e = self.email.take().unwrap();
                let mut d = e.data.take().unwrap();
                match kind {
                    HeaderKind::From => d.from = value,
                    HeaderKind::To => d.to = value,
                    HeaderKind::Subject => d.subject = value,
                    _ => d.date = date,
                }
                e.data = Some(d);
                self.email = Some(e);
                Ok(false)
            },
        }
    }

    /// The domains of the sender and the recipient, once the headers are
    /// read.
    pub fn address_domains(&self) -> (r: Result<(String, String), DataError>)
        requires
            self@ matches Some(e) && e.sender is Some && e.recipient is Some,
        ensures
            ({
                let e = self@.unwrap();
                match (domain_of(e.sender.unwrap()), domain_of(e.recipient.unwrap())) {
                    (None, _) => r == Err::<(String, String), DataError>(DataError::MalformedSender),
                    (Some(_), None) => r == Err::<(String, String), DataError>(
                        DataError::MalformedRecipient,
                    ),
                    (Some(a), Some(b)) => r matches Ok((x, y)) && x@ == a && y@ == b,
                }
            }),
    {
        let e = self.email.as_ref().unwrap();
        let s = chars_of(e.sender.as_ref().unwrap().as_str());
        let t = chars_of(e.recipient.as_ref().unwrap().as_str());
        let (_, sd) = split_once_chars(&s, '@');
        let (_, td) = split_once_chars(&t, '@');
        match sd {
            None => Err(DataError::MalformedSender),
            Some(a) => match td {
                None => Err(DataError::MalformedRecipient),
                Some(b) => Ok((string_of(a.as_slice()), string_of(b.as_slice()))),
            },
        }
    }

    /// How the body is read: as a multipart message when the `Content-Type`
    /// begins with `multipart`, with the server's own user (see
    /// `local_user_address`); otherwise as plain text.
    pub fn body_mode(
        &self,
        phase: &DataPhase,
        domain: &str,
        sender_domain: &str,
        recipient_domain: &str,
    ) -> (r: BodyMode)
        requires
            self@ is Some,
        ensures
            match phase@.content_type {
                Some(ct) => if has_prefix(ct, "multipart"@) {
                    r matches BodyMode::Multipart(u) && opt_text(u) == local_user_address(
                        self@.unwrap(),
                        domain@,
                        sender_domain@,
                        recipient_domain@,
                    )
                } else {
                    r is Plain
                },
                None => r is Plain,
            },
    {
        match &phase.content_type {
            None => BodyMode::Plain,
            Some(ct) => {
                let c = chars_of(ct.as_str());
                if !starts_with(&c, "multipart") {
                    return BodyMode::Plain;
                }
                let e = self.email.as_ref().unwrap();
                let d = chars_of(domain);
                let user = if eq_str(&d, sender_domain) {
                    copy_opt(&e.sender)
                } else if eq_str(&d, recipient_domain) {
                    copy_opt(&e.recipient)
                } else {
                    None
                };
                BodyMode::Multipart(user)
            },
        }
    }

    /// Stores a plain body as the message content.
    pub fn finish_plain(&mut self, phase: &DataPhase)
        requires
            in_data(old(self)@),
        ensures
            final(self)@ == with_data(
                old(self)@,
                DataView { content: Some(phase@.body), ..old(self)@.unwrap().data.unwrap() },
            ),
    {
        let mut e = self.email.take().unwrap();
        let mut d = e.data.take().unwrap();
        d.content = Some(string_of(chars_of(phase.body.as_str()).as_slice()));
        e.data = Some(d);
        self.email = Some(e);
    }

    /// Stores a multipart body's text and its saved attachments.
    pub fn finish_multipart(&mut self, content: String, attachments: Vec<Attachment>)
        requires
            in_data(old(self)@),
        ensures
            final(self)@ == with_data(
                old(self)@,
                DataView {
                    content: Some(content@),
                    attachments: attachments@.map_values(|a: Attachment| a@),
                    ..old(self)@.unwrap().data.unwrap()
                },
            ),
    {
        let mut e = self.email.take().unwrap();
        let mut d = e.data.take().unwrap();
        d.content = Some(content);
        d.attachments = attachments;
        e.data = Some(d);
        self.email = Some(e);
    }

    /// Completes the message: a missing `To` becomes `<>`, a missing `From`
    /// becomes `undisclosed-recipients`, a missing subject becomes empty and
    /// a missing date becomes `now`. Returns the reply.
    pub fn finish_data(&mut self, now: (i64, u32)) -> (r: String)
        requires
            in_data(old(self)@),
        ensures
            r@ == "250 OK: Not that it solves anyone's problem but yours.\r\n"@,
            ({
                let d = old(self)@.unwrap().data.unwrap();
                final(self)@ == with_data(
                    old(self)@,
                    DataView {
                        to: Some(d.to.unwrap_or("<>"@)),
                        from: Some(d.from.unwrap_or("undisclosed-recipients"@)),
                        subject: Some(d.subject.unwrap_or(""@)),
                        date: Some(d.date.unwrap_or(now)),
                        ..d
                    },
                )
            }),
    {
        let mut e = self.email.take().unwrap();
        let mut d = e.data.take().unwrap();
        if d.to.is_none() {
            d.to = Some(text("<>"));
        }
        if d.from.is_none() {
            d.from = Some(text("undisclosed-recipients"));
        }
        if d.subject.is_none() {
            d.subject = Some(text(""));
        }
        if d.date.is_none() {
            d.date = Some(now);
        }
        e.data = Some(d);
        self.email = Some(e);
        text("250 OK: Not that it solves anyone's problem but yours.\r\n")
    }
}

fn copy_opt(o: &Option<String>) -> (r: Option<String>)
    ensures
        opt_text(r) == opt_text(*o),
{
    match o {
        Some(s) => Some(string_of(chars_of(s.as_str()).as_slice())),
        None => None,
    }
}

// ---------------------------------------------------------------------------
// Multipart messages
// ---------------------------------------------------------------------------

/// The file name an attachment's `Content-Disposition` gives: what follows
/// the first `filename=` (or `unknown_file`), with `"` trimmed from both
/// ends.
pub open spec fn attachment_filename(disp: Seq<char>) -> Seq<char> {
    let n = match split_once_str(disp, "filename="@).1 {
        Some(f) => f,
        None => "unknown_file"@,
    };
    drop_trailing(drop_leading(n, |c: char| c == '"'), |c: char| c == '"')
}

/// The result of reading parts: the text so far, the attachments to save,
/// and the error that stopped the reading.
pub open spec fn part_step(
    acc: (Seq<char>, Seq<(Seq<char>, Seq<u8>)>, Option<DataError>),
    p: (Option<Seq<char>>, Option<Seq<u8>>, Option<Seq<char>>),
    keep: bool,
) -> (Seq<char>, Seq<(Seq<char>, Seq<u8>)>, Option<DataError>) {
    let (c, sv, err) = acc;
    let disp = match p.0 {
        Some(d) => d,
        None => "inline"@,
    };
    if err is Some {
        acc
    } else if has_prefix(disp, "attachment"@) {
        match p.1 {
            None => (c, sv, Some(DataError::BadPart)),
            Some(b) => if keep {
                (c, sv.push((attachment_filename(disp), b)), None)
            } else {
                (c, sv, None)
            },
        }
    } else {
        match p.2 {
            None => (c, sv, Some(DataError::BadPart)),
            Some(t) => (c + t, sv, None),
        }
    }
}

/// Reading the parts in order: text parts are appended to the content;
/// attachments are saved when there is a local user (`keep`); the first
/// part that cannot be decoded stops the reading.
pub open spec fn parts_plan(
    parts: Seq<(Option<Seq<char>>, Option<Seq<u8>>, Option<Seq<char>>)>,
    keep: bool,
) -> (Seq<char>, Seq<(Seq<char>, Seq<u8>)>, Option<DataError>)
    decreases parts.len(),
{
    if parts.len() == 0 {
        (Seq::empty(), Seq::empty(), None)
    } else {
        part_step(parts_plan(parts.drop_last(), keep), parts.last(), keep)
    }
}

/// The local part of the server user's address: what comes before its
/// first `@`.
pub open spec fn server_user_of(email: Option<Seq<char>>) -> Option<Seq<char>> {
    match email {
        Some(a) => Some(split_once(a, '@').0),
        None => None,
    }
}

/// What reading a multipart body gives: the server's local user, the text
/// content, the attachments to save under the user's directory, and the
/// error that ends the session, if any (the attachments before it are still
/// saved).
pub struct MultipartPlan {
    pub user: Option<String>,
    pub content: String,
    pub saves: Vec<Attachment>,
    pub error: Option<DataError>,
}

fn copy_bytes(b: &Vec<u8>) -> (r: Vec<u8>)
    ensures
        r@ == b@,
{
    let mut r: Vec<u8> = Vec::new();
    for i in 0..b.len()
        invariant
            r@ == b@.take(i as int),
    {
        r.push(b[i]);
        assert(r@ =~= b@.take(i + 1));
    }
    assert(b@.take(b.len() as int) =~= b@);
    r
}

/// Executable `attachment_filename`.
fn attachment_name(disp: &Vec<char>) -> (r: String)
    ensures
        r@ == attachment_filename(disp@),
{
    proof {
        reveal_strlit("filename=");
    }
    let (_, rest) = split_once_str_chars(disp, "filename=");
    let n = match rest {
        Some(f) => f,
        None => chars_of("unknown_file"),
    };
    let t = trim_char(&n, '"');
    string_of(t.as_slice())
}

/// Reads the parts of a multipart message (as mailparse gave them) for the
/// server user's address, if any.
pub fn plan_parts(parts: &Vec<MailPart>, server_user_email: Option<String>) -> (r: MultipartPlan)
    ensures
        opt_text(r.user) == server_user_of(opt_text(server_user_email)),
        (r.content@, r.saves@.map_values(|a: Attachment| a@), r.error) == parts_plan(
            parts@.map_values(|p: MailPart| part_view(p)),
            server_user_email is Some,
        ),
{
    let user = match &server_user_email {
        Some(a) => {
            let v = chars_of(a.as_str());
            let (local, _) = split_once_chars(&v, '@');
            Some(string_of(local.as_slice()))
        },
        None => None,
    };
    let keep = server_user_email.is_some();
    let ghost ps = parts@.map_values(|p: MailPart| part_view(p));
    let mut content: Vec<char> = Vec::new();
    let mut saves: Vec<Attachment> = Vec::new();
    let mut error: Option<DataError> = None;
    assert(ps.take(0) =~= Seq::<(Option<Seq<char>>, Option<Seq<u8>>, Option<Seq<char>>)>::empty());
    assert(saves@.map_values(|a: Attachment| a@) =~= Seq::<(Seq<char>, Seq<u8>)>::empty());
    for i in 0..parts.len()
        invariant
            ps == parts@.map_values(|p: MailPart| part_view(p)),
            keep == server_user_email is Some,
            (content@, saves@.map_values(|a: Attachment| a@), error) == parts_plan(
                ps.take(i as int),
                keep,
            ),
    {
        assert(ps.take(i + 1).drop_last() =~= ps.take(i as int));
        assert(ps.take(i + 1).last() == part_view(parts@[i as int]));
        let ghost before = saves@.map_values(|a: Attachment| a@);
        if error.is_none() {
            let p = &parts[i];
            let disp: Vec<char> = match &p.disposition {
                Some(d) => chars_of(d.as_str()),
                None => chars_of("inline"),
            };
            if starts_with(&disp, "attachment") {
                match &p.raw_body {
                    None => {
                        error = Some(DataError::BadPart);
                    },
                    Some(b) => {
                        if keep {
                            let f = attachment_name(&disp);
                            let a = Attachment::new(f, copy_bytes(b));
                            saves.push(a);
                            assert(saves@.map_values(|a: Attachment| a@) =~= before.push(a@));
                        }
                    },
                }
            } else {
                match &p.text_body {
                    None => {
                        error = Some(DataError::BadPart);
                    },
                    Some(t) => {
                        push_str(&mut content, t.as_str());
                    },
                }
            }
        }
    }
    assert(ps.take(parts.len() as int) =~= ps);
    MultipartPlan { user, content: string_of(content.as_slice()), saves, error }
}

/// Reads a multipart body: the raw headers and body are parsed as one
/// message by mailparse, and its parts read by `plan_parts`.
pub fn process_mail_multipart(phase: &DataPhase, server_user_email: Option<String>) -> (r: MultipartPlan)
    ensures
        opt_text(r.user) == server_user_of(opt_text(server_user_email)),
        match mail_parts(phase@.raw_headers + phase@.body) {
            None => r.error == Some(DataError::BadMail) && r.saves@.len() == 0,
            Some(ps) => (r.content@, r.saves@.map_values(|a: Attachment| a@), r.error)
                == parts_plan(ps, server_user_email is Some),
        },
{
    let mut raw = chars_of(phase.raw_headers.as_str());
    push_str(&mut raw, phase.body.as_str());
    let raw = string_of(raw.as_slice());
    match parse_mail_parts(raw.as_str()) {
        Some(parts) => plan_parts(&parts, server_user_email),
        None => {
            let user = match &server_user_email {
                Some(a) => {
                    let v = chars_of(a.as_str());
                    let (local, _) = split_once_chars(&v, '@');
                    Some(string_of(local.as_slice()))
                },
                None => None,
            };
            let empty: Vec<char> = Vec::new();
            MultipartPlan {
                user,
                content: string_of(empty.as_slice()),
                saves: Vec::new(),
                error: Some(DataError::BadMail),
            }
        },
    }
}

/// Where the attachment is saved on its `copy`-th try: first
/// `./attachments/<user>/<filename>`; on later tries, while the path is
/// taken, `<stem>-<copy>.<extension>` in the same directory.
pub open spec fn attachment_path_text(user: Seq<char>, filename: Seq<char>, copy: nat) -> Seq<char> {
    let base = "./attachments/"@ + user + "/"@ + filename;
    if copy == 0 {
        base
    } else {
        let dir = match path_parent(base) {
            Some(p) => p,
            None => ""@,
        };
        let stem = match path_file_stem(base) {
            Some(p) => p,
            None => ""@,
        };
        let ext = match path_extension(base) {
            Some(p) => p,
            None => ""@,
        };
        path_join(dir, stem + "-"@ + dec(copy) + "."@ + ext)
    }
}

/// The path for an attachment on its `copy`-th try.
pub fn attachment_path(user: &str, filename: &str, copy: u64) -> (r: String)
    ensures
        r@ == attachment_path_text(user@, filename@, copy as nat),
{
    let mut b: Vec<char> = Vec::new();
    push_str(&mut b, "./attachments/");
    push_str(&mut b, user);
    push_str(&mut b, "/");
    push_str(&mut b, filename);
    let base = string_of(b.as_slice());
    if copy == 0 {
        return base;
    }
    let dir = match parent_path(base.as_str()) {
        Some(p) => p,
        None => text(""),
    };
    let mut n: Vec<char> = match file_stem(base.as_str()) {
        Some(p) => chars_of(p.as_str()),
        None => Vec::new(),
    };
    push_str(&mut n, "-");
    push_dec(&mut n, copy);
    push_str(&mut n, ".");
    match extension(base.as_str()) {
        Some(p) => push_str(&mut n, p.as_str()),
        None => {},
    }
    let n = string_of(n.as_slice());
    proof {
        reveal_strlit("");
    }
    join_path(dir.as_str(), n.as_str())
}

/// One step of finding where an attachment is saved without overwriting a
/// file: the caller tries `copy = 0, 1, 2, ...`, telling whether the path of
/// that try exists; an existing path gives nothing (try the next copy), a
/// free one gives the path to write.
pub fn next_copy(user: &str, filename: &str, copy: u64, exists: bool) -> (r: Option<String>)
    ensures
        exists ==> r is None,
        !exists ==> (r matches Some(p) && p@ == attachment_path_text(user@, filename@, copy as nat)),
{
    if exists {
        None
    } else {
        Some(attachment_path(user, filename, copy))
    }
}

/// Trying copies in order and stopping at the first free one picks the
/// least free copy number, a path that is not taken.
pub proof fn lemma_first_free(taken: spec_fn(nat) -> bool, k: nat)
    requires
        forall|j: nat| j < k ==> #[trigger] taken(j),
        !taken(k),
    ensures
        forall|j: nat| !#[trigger] taken(j) ==> k <= j,
{
}

// ---------------------------------------------------------------------------
// Laws
// ---------------------------------------------------------------------------

proof fn lemma_no_space(w: Seq<char>)
    requires
        forall|i: int| 0 <= i < w.len() ==> w[i] != ' ',
    ensures
        !w.contains(' '),
{
}

/// The command words differ from one another.
proof fn lemma_words()
    ensures
        !"HELO"@.contains(' '),
        !"EHLO"@.contains(' '),
        !"MAIL"@.contains(' '),
        !"RCPT"@.contains(' '),
        !"DATA"@.contains(' '),
        !"QUIT"@.contains(' '),
        "MAIL"@ != "HELO"@ && "MAIL"@ != "EHLO"@,
        "RCPT"@ != "HELO"@ && "RCPT"@ != "EHLO"@ && "RCPT"@ != "MAIL"@,
        "DATA"@ != "HELO"@ && "DATA"@ != "EHLO"@ && "DATA"@ != "MAIL"@ && "DATA"@ != "RCPT"@,
        "QUIT"@ != "HELO"@ && "QUIT"@ != "EHLO"@ && "QUIT"@ != "MAIL"@ && "QUIT"@ != "RCPT"@
            && "QUIT"@ != "DATA"@,
{
    reveal_strlit("HELO");
    reveal_strlit("EHLO");
    reveal_strlit("MAIL");
    reveal_strlit("RCPT");
    reveal_strlit("DATA");
    reveal_strlit("QUIT");
    lemma_no_space("HELO"@);
    lemma_no_space("EHLO"@);
    lemma_no_space("MAIL"@);
    lemma_no_space("RCPT"@);
    lemma_no_space("DATA"@);
    lemma_no_space("QUIT"@);
    assert("HELO"@[0] == 'H' && "EHLO"@[0] == 'E' && "MAIL"@[0] == 'M' && "RCPT"@[0] == 'R'
        && "DATA"@[0] == 'D' && "QUIT"@[0] == 'Q');
}

/// A `MAIL FROM:` request splits into `MAIL` and its parameter.
proof fn lemma_mail_request(a: Seq<char>)
    ensures
        split_once("MAIL FROM:"@ + a, ' ').0 == "MAIL"@,
        split_once("MAIL FROM:"@ + a, ' ').1 == Some("FROM:"@ + a),
        has_prefix("FROM:"@ + a, "FROM:"@),
{
    reveal_strlit("MAIL FROM:");
    reveal_strlit("MAIL");
    reveal_strlit("FROM:");
    lemma_words();
    assert("MAIL FROM:"@ + a =~= "MAIL"@ + seq![' '] + ("FROM:"@ + a));
    lemma_request_parts("MAIL"@, "FROM:"@ + a);
    assert(("FROM:"@ + a).take(5) =~= "FROM:"@);
}

/// A `RCPT TO:` request splits into `RCPT` and its parameter.
proof fn lemma_rcpt_request(b: Seq<char>)
    ensures
        split_once("RCPT TO:"@ + b, ' ').0 == "RCPT"@,
        split_once("RCPT TO:"@ + b, ' ').1 == Some("TO:"@ + b),
        has_prefix("TO:"@ + b, "TO:"@),
{
    reveal_strlit("RCPT TO:");
    reveal_strlit("RCPT");
    reveal_strlit("TO:");
    lemma_words();
    assert("RCPT TO:"@ + b =~= "RCPT"@ + seq![' '] + ("TO:"@ + b));
    lemma_request_parts("RCPT"@, "TO:"@ + b);
    assert(("TO:"@ + b).take(3) =~= "TO:"@);
}

/// `MAIL FROM:`, `RCPT TO:` and `DATA` in a fresh session are accepted in
/// turn: the envelope holds the two addresses and the data phase begins
/// with empty data.
pub proof fn lemma_transaction(a: Seq<char>, b: Seq<char>)
    ensures
        ({
            let (e1, r1) = smtp_step(None, "MAIL FROM:"@ + a);
            let (e2, r2) = smtp_step(e1, "RCPT TO:"@ + b);
            let (e3, r3) = smtp_step(e2, "DATA"@);
            &&& r1 == SmtpActionView::Reply(
                "250 OK: I assume you have come here because you want a way out.\r\n"@,
            )
            &&& r2 == SmtpActionView::Reply(
                "250 OK: However, it seems this delivery was not intended for me.\r\n"@,
            )
            &&& r3 == SmtpActionView::StartData(data_reply())
            &&& e3 == Some(
                EmailView {
                    sender: Some(address_of("FROM:"@ + a, "FROM:"@)),
                    recipient: Some(address_of("TO:"@ + b, "TO:"@)),
                    data: Some(empty_data()),
                },
            )
        }),
{
    lemma_words();
    lemma_mail_request(a);
    lemma_rcpt_request(b);
    lemma_request_word("DATA"@);
}

/// A second `MAIL FROM:` is refused as out of sequence and changes nothing.
pub proof fn lemma_mail_twice(a: Seq<char>, b: Seq<char>)
    ensures
        ({
            let (e1, _) = smtp_step(None, "MAIL FROM:"@ + a);
            smtp_step(e1, "MAIL FROM:"@ + b) == (e1, SmtpActionView::Reply(sequence_reply()))
        }),
{
    lemma_words();
    lemma_mail_request(a);
    lemma_mail_request(b);
}

/// Without a `MAIL`, `RCPT TO:` and `DATA` are refused as out of sequence
/// and change nothing.
pub proof fn lemma_needs_mail(b: Seq<char>)
    ensures
        smtp_step(None, "RCPT TO:"@ + b) == (
            None::<EmailView>,
            SmtpActionView::Reply(sequence_reply()),
        ),
        smtp_step(None, "DATA"@) == (None::<EmailView>, SmtpActionView::Reply(sequence_reply())),
{
    lemma_words();
    lemma_rcpt_request(b);
    lemma_request_word("DATA"@);
}

/// Once a message's data has begun, no request changes the session or
/// starts another data phase.
pub proof fn lemma_data_once(e: Option<EmailView>, req: Seq<char>)
    requires
        in_data(e),
    ensures
        smtp_step(e, req).0 == e,
        !(smtp_step(e, req).1 is StartData),
{
}

/// `QUIT` ends the session whatever its state, changing nothing.
pub proof fn lemma_quit(e: Option<EmailView>)
    ensures
        smtp_step(e, "QUIT"@) == (
            e,
            SmtpActionView::Quit(
                "221 Best of luck to you, little creature. I must resume my work. (Service closing transmission channel)\r\n"@,
            ),
        ),
{
    lemma_words();
    lemma_request_word("QUIT"@);
}

/// A blank line ends the headers and changes nothing but the raw headers.
pub proof fn lemma_blank_line(d: DataView, ph: PhaseView)
    ensures
        header_step(d, ph, "\r\n"@) == Ok::<(DataView, PhaseView, bool), DataError>(
            (d, PhaseView { raw_headers: ph.raw_headers + "\n"@, ..ph }, true),
        ),
{
    reveal_strlit("\r\n");
    reveal_strlit("From: ");
    reveal_strlit("To: ");
    reveal_strlit("Subject: ");
    reveal_strlit("Date: ");
    reveal_strlit("Content-Type: ");
    let crlf = "\r\n"@;
    let l = line_text(crlf);
    assert(crlf.len() == 2);
    assert(crlf.skip(0) =~= crlf);
    assert(crate::text::has_suffix(crlf, crlf));
    assert(crlf.take(0) =~= Seq::<char>::empty());
    assert(strip_suffixes(Seq::<char>::empty(), crlf) == Seq::<char>::empty());
    assert(l =~= Seq::<char>::empty());
    assert(trim(l) =~= Seq::<char>::empty());
    assert(ph.raw_headers + l + "\n"@ =~= ph.raw_headers + "\n"@);
}

/// Without a local user, reading a multipart message saves no attachment.
pub proof fn lemma_no_user_no_saves(
    parts: Seq<(Option<Seq<char>>, Option<Seq<u8>>, Option<Seq<char>>)>,
)
    ensures
        parts_plan(parts, false).1.len() == 0,
    decreases parts.len(),
{
    if parts.len() > 0 {
        lemma_no_user_no_saves(parts.drop_last());
    }
}

/// A line `name: v`, where the name holds no `:`, begins with `name: ` and
/// has the value `v`, trimmed.
proof fn lemma_prefixed_value(p: Seq<char>, v: Seq<char>)
    requires
        p.len() >= 2,
        p[p.len() - 2] == ':',
        p[p.len() - 1] == ' ',
        forall|i: int| 0 <= i < p.len() - 2 ==> p[i] != ':',
    ensures
        has_prefix(p + v, p),
        header_value(p + v) == trim(v),
{
    reveal_strlit(": ");
    let l = p + v;
    let k = p.len() - 2;
    assert(l.take(p.len() as int) =~= p);
    assert(l.subrange(k, k + 2) =~= ": "@);
    assert(crate::text::occurs_at(l, ": "@, k));
    assert forall|j: int| 0 <= j < k implies !crate::text::occurs_at(l, ": "@, j) by {
        if crate::text::occurs_at(l, ": "@, j) {
            assert(l.subrange(j, j + 2)[0] == l[j]);
            assert(l[j] == p[j]);
            assert(": "@[0] == ':');
        }
    }
    assert(crate::text::is_first_occurrence(l, ": "@, k));
    let c = choose|c: int| crate::text::is_first_occurrence(l, ": "@, c);
    assert(c == k) by {
        if c < k {
        } else if c > k {
            assert(!crate::text::occurs_at(l, ": "@, k));
        }
    }
    assert(l.skip(k + 2) =~= v);
}

/// The header prefixes, character by character as far as they differ.
proof fn lemma_header_prefixes()
    ensures
        "From: "@.len() == 6 && "From: "@[0] == 'F' && "From: "@[4] == ':' && "From: "@[5] == ' '
            && "From: "@[1] != ':' && "From: "@[2] != ':' && "From: "@[3] != ':',
        "To: "@.len() == 4 && "To: "@[0] == 'T' && "To: "@[2] == ':' && "To: "@[3] == ' '
            && "To: "@[1] != ':',
        "Subject: "@.len() == 9 && "Subject: "@[0] == 'S' && "Subject: "@[7] == ':'
            && "Subject: "@[8] == ' ' && (forall|i: int| 0 <= i < 7 ==> "Subject: "@[i] != ':'),
        "Date: "@.len() == 6 && "Date: "@[0] == 'D' && "Date: "@[4] == ':' && "Date: "@[5] == ' '
            && "Date: "@[1] != ':' && "Date: "@[2] != ':' && "Date: "@[3] != ':',
        "Content-Type: "@.len() == 14 && "Content-Type: "@[0] == 'C' && "Content-Type: "@[12]
            == ':' && "Content-Type: "@[13] == ' ' && (forall|i: int|
            0 <= i < 12 ==> "Content-Type: "@[i] != ':'),
{
    reveal_strlit("From: ");
    reveal_strlit("To: ");
    reveal_strlit("Subject: ");
    reveal_strlit("Date: ");
    reveal_strlit("Content-Type: ");
}

/// A line that begins with one header prefix does not begin with a
/// prefix whose first character differs.
proof fn lemma_other_prefix(l: Seq<char>, p: Seq<char>, q: Seq<char>)
    requires
        p.len() > 0,
        q.len() > 0,
        p[0] != q[0],
        has_prefix(l, p),
    ensures
        !has_prefix(l, q),
{
    assert(l.take(p.len() as int)[0] == l[0]);
    if has_prefix(l, q) {
        assert(l.take(q.len() as int)[0] == l[0]);
    }
}

/// Each header line sets its own field of the message data to its value
/// (the text after `: `, trimmed) and leaves every other field as it was: a
/// `From:` line sets the author, `To:` the addressee, `Subject:` the subject,
/// `Date:` the date it denotes (a date that does not parse ends the session
/// with `BadDate`), and `Content-Type:` the content type of the data phase.
/// The line is kept in the raw headers and does not end them.
pub proof fn lemma_header_fields(d: DataView, ph: PhaseView, line: Seq<char>, v: Seq<char>)
    ensures
        ({
            let l = line_text(line);
            let ph1 = PhaseView { raw_headers: ph.raw_headers + l + "\n"@, ..ph };
            &&& l == "From: "@ + v ==> header_step(d, ph, line) == Ok::<
                (DataView, PhaseView, bool),
                DataError,
            >((DataView { from: Some(trim(v)), ..d }, ph1, false))
            &&& l == "To: "@ + v ==> header_step(d, ph, line) == Ok::<
                (DataView, PhaseView, bool),
                DataError,
            >((DataView { to: Some(trim(v)), ..d }, ph1, false))
            &&& l == "Subject: "@ + v ==> header_step(d, ph, line) == Ok::<
                (DataView, PhaseView, bool),
                DataError,
            >((DataView { subject: Some(trim(v)), ..d }, ph1, false))
            &&& l == "Date: "@ + v ==> header_step(d, ph, line) == match rfc2822_utc(trim(v)) {
                Some(t) => Ok::<(DataView, PhaseView, bool), DataError>(
                    (DataView { date: Some(t), ..d }, ph1, false),
                ),
                None => Err::<(DataView, PhaseView, bool), DataError>(DataError::BadDate),
            }
            &&& l == "Content-Type: "@ + v ==> header_step(d, ph, line) == Ok::<
                (DataView, PhaseView, bool),
                DataError,
            >((d, PhaseView { content_type: Some(trim(v)), ..ph1 }, false))
        }),
{
    lemma_header_prefixes();
    let l = line_text(line);
    let f = "From: "@;
    let t = "To: "@;
    let sj = "Subject: "@;
    let dt = "Date: "@;
    let ct = "Content-Type: "@;
    if l == f + v {
        lemma_prefixed_value(f, v);
    }
    if l == t + v {
        lemma_prefixed_value(t, v);
        lemma_other_prefix(l, t, f);
    }
    if l == sj + v {
        lemma_prefixed_value(sj, v);
        lemma_other_prefix(l, sj, f);
        lemma_other_prefix(l, sj, t);
    }
    if l == dt + v {
        lemma_prefixed_value(dt, v);
        lemma_other_prefix(l, dt, f);
        lemma_other_prefix(l, dt, t);
        lemma_other_prefix(l, dt, sj);
    }
    if l == ct + v {
        lemma_prefixed_value(ct, v);
        lemma_other_prefix(l, ct, f);
        lemma_other_prefix(l, ct, t);
        lemma_other_prefix(l, ct, sj);
        lemma_other_prefix(l, ct, dt);
    }
}

/// The server's own user in a multipart message: the envelope sender when
/// the server's domain is the sender's (the message is sent on), else the
/// envelope recipient when it is the recipient's (the message is stored),
/// else nobody (attachments are then not saved).
pub proof fn lemma_local_user(e: EmailView, domain: Seq<char>, sender_domain: Seq<char>, recipient_domain: Seq<char>)
    ensures
        domain == sender_domain ==> local_user_address(e, domain, sender_domain, recipient_domain)
            == e.sender,
        domain != sender_domain && domain == recipient_domain ==> local_user_address(
            e,
            domain,
            sender_domain,
            recipient_domain,
        ) == e.recipient,
        domain != sender_domain && domain != recipient_domain ==> local_user_address(
            e,
            domain,
            sender_domain,
            recipient_domain,
        ) is None,
        route_of(domain, sender_domain, recipient_domain) == Route::Send ==> local_user_address(
            e,
            domain,
            sender_domain,
            recipient_domain,
        ) == e.sender,
        route_of(domain, sender_domain, recipient_domain) == Route::Receive ==> local_user_address(
            e,
            domain,
            sender_domain,
            recipient_domain,
        ) == e.recipient,
        route_of(domain, sender_domain, recipient_domain) == Route::Keep <==> (domain
            != sender_domain && domain != recipient_domain),
{
}

/// A line that is none of the five headers changes nothing but the raw
/// headers, and ends the headers exactly when it is blank once trimmed.
pub proof fn lemma_header_other(d: DataView, ph: PhaseView, line: Seq<char>)
    requires
        !has_prefix(line_text(line), "From: "@),
        !has_prefix(line_text(line), "To: "@),
        !has_prefix(line_text(line), "Subject: "@),
        !has_prefix(line_text(line), "Date: "@),
        !has_prefix(line_text(line), "Content-Type: "@),
    ensures
        header_step(d, ph, line) == Ok::<(DataView, PhaseView, bool), DataError>(
            (
                d,
                PhaseView { raw_headers: ph.raw_headers + line_text(line) + "\n"@, ..ph },
                trim(line_text(line)).len() == 0,
            ),
        ),
{
}

/// A line read with its `\r\n` has the text before it (when that text does
/// not itself end in `\r\n`); a line without one is its own text.
pub proof fn lemma_line_text(v: Seq<char>)
    requires
        !crate::text::has_suffix(v, "\r\n"@),
    ensures
        line_text(v + "\r\n"@) == v,
        line_text(v) == v,
{
    reveal_strlit("\r\n");
    let crlf = "\r\n"@;
    let l = v + crlf;
    assert(l.skip(l.len() - 2) =~= crlf);
    assert(l.take(l.len() - 2) =~= v);
    assert(strip_suffixes(v, crlf) == v);
    assert(strip_suffixes(l, crlf) == strip_suffixes(v, crlf));
}

/// The address in `prefix<a>` is `a`, when `a` holds no angle brackets and
/// the prefix does not begin with `<`: so `MAIL FROM:<a>` records the sender
/// `a` and `RCPT TO:<b>` the recipient `b`.
pub proof fn lemma_address_in_brackets(prefix: Seq<char>, a: Seq<char>)
    requires
        prefix.len() > 0,
        prefix[0] != '<',
        !a.contains('<'),
        !a.contains('>'),
    ensures
        address_of(prefix + seq!['<'] + a + seq!['>'], prefix) == a,
{
    let x = seq!['<'] + a + seq!['>'];
    let p = prefix + x;
    assert(p =~= prefix + seq!['<'] + a + seq!['>']);
    assert(has_prefix(p, prefix)) by {
        assert(p.take(prefix.len() as int) =~= prefix);
    }
    assert(p.skip(prefix.len() as int) =~= x);
    assert(!has_prefix(x, prefix)) by {
        if has_prefix(x, prefix) {
            assert(x.take(prefix.len() as int)[0] == x[0]);
        }
    }
    assert(strip_prefixes(x, prefix) == x);
    assert(strip_prefixes(p, prefix) == x);
    let ws = |c: char| is_ws(c);
    assert(!is_ws('<') && !is_ws('>'));
    assert(x[0] == '<');
    assert(x.last() == '>');
    assert(drop_leading(x, ws) == x);
    assert(drop_trailing(x, ws) == x);
    assert(trim(x) == x);
    let lt = |c: char| c == '<';
    let gt = |c: char| c == '>';
    let y = a + seq!['>'];
    assert(x.drop_first() =~= y);
    assert(y.len() > 0 && !lt(y[0])) by {
        if a.len() > 0 {
            assert(y[0] == a[0]);
            assert(a.contains(a[0]));
        }
    }
    assert(drop_leading(y, lt) == y);
    assert(drop_leading(x, lt) == y);
    assert(y.last() == '>');
    assert(drop_trailing(y, lt) == y);
    assert(y.drop_last() =~= a);
    assert(drop_trailing(a, gt) == a) by {
        if a.len() > 0 {
            assert(a.contains(a.last()));
        }
    }
    assert(drop_trailing(y, gt) == a);
    if a.len() > 0 {
        assert(y[0] == a[0]);
        assert(a.contains(a[0]));
        assert(drop_leading(y, gt) == y);
    } else {
        assert(y =~= seq!['>']);
        assert(y.drop_first() =~= Seq::<char>::empty());
        assert(drop_leading(Seq::<char>::empty(), gt) == Seq::<char>::empty());
        assert(drop_leading(y, gt) == Seq::<char>::empty());
        assert(drop_trailing(Seq::<char>::empty(), gt) == Seq::<char>::empty());
        assert(a =~= Seq::<char>::empty());
    }
}

/// `MAIL FROM:<a>`, `RCPT TO:<b>` and `DATA` in a fresh session leave the
/// envelope with sender `a` and recipient `b` (addresses without angle
/// brackets) and an empty message.
pub proof fn lemma_envelope_addresses(a: Seq<char>, b: Seq<char>)
    requires
        !a.contains('<') && !a.contains('>'),
        !b.contains('<') && !b.contains('>'),
    ensures
        ({
            let (e1, _) = smtp_step(None, "MAIL FROM:<"@ + a + ">"@);
            let (e2, _) = smtp_step(e1, "RCPT TO:<"@ + b + ">"@);
            let (e3, r3) = smtp_step(e2, "DATA"@);
            &&& e1 == Some(EmailView { sender: Some(a), recipient: None, data: None })
            &&& e2 == Some(EmailView { sender: Some(a), recipient: Some(b), data: None })
            &&& r3 == SmtpActionView::StartData(data_reply())
            &&& e3 == Some(EmailView { sender: Some(a), recipient: Some(b), data: Some(empty_data()) })
        }),
{
    reveal_strlit("MAIL FROM:<");
    reveal_strlit("MAIL FROM:");
    reveal_strlit("RCPT TO:<");
    reveal_strlit("RCPT TO:");
    reveal_strlit("FROM:");
    reveal_strlit("TO:");
    reveal_strlit(">");
    let pa = seq!['<'] + a + seq!['>'];
    let pb = seq!['<'] + b + seq!['>'];
    assert("MAIL FROM:<"@ + a + ">"@ =~= "MAIL FROM:"@ + pa);
    assert("RCPT TO:<"@ + b + ">"@ =~= "RCPT TO:"@ + pb);
    lemma_transaction(pa, pb);
    lemma_address_in_brackets("FROM:"@, a);
    lemma_address_in_brackets("TO:"@, b);
    assert("FROM:"@ + pa =~= "FROM:"@ + seq!['<'] + a + seq!['>']);
    assert("TO:"@ + pb =~= "TO:"@ + seq!['<'] + b + seq!['>']);
}

/// The domain of `user@domain` (a user part without `@`) is `domain`; an
/// address without `@` has none.
pub proof fn lemma_domain_of(user: Seq<char>, domain: Seq<char>)
    requires
        !user.contains('@'),
    ensures
        domain_of(user + seq!['@'] + domain) == Some(domain),
        domain_of(user) is None,
{
    crate::text::lemma_split_once_at(user, '@', domain);
    crate::text::lemma_split_once_none(user, '@');
}

} // verus!
