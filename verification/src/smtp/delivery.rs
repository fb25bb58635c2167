//! Delivering a received message: the fields an outgoing message is sent
//! with and the message built from them, the choice of the mail
//! exchanger, and the fields an incoming message is stored with.

use vstd::prelude::*;
use crate::text::{
    chars_of, push_str, split_once_chars, string_of,
};
use crate::smtp::session::{
    domain_of, Attachment, EmailView, SmtpSession,
};

verus! {

// ---------------------------------------------------------------------------
// Trusted items
// ---------------------------------------------------------------------------

/// Whether lettre reads the text as a mailbox.
pub uninterp spec fn mailbox_valid(s: Seq<char>) -> bool;

/// Calls `str::parse::<lettre::message::Mailbox>` (lettre's `FromStr` for
/// `Mailbox`) and tells whether it succeeds; the contract names that.
#[verifier::external_body]
pub(crate) fn parse_mailbox(s: &str) -> (r: bool)
    ensures
        r == mailbox_valid(s@),
{
    s.parse::<lettre::message::Mailbox>().is_ok()
}

// ---------------------------------------------------------------------------
// Outgoing messages
// ---------------------------------------------------------------------------

/// Why a message cannot be delivered.
#[derive(PartialEq, Eq, Structural, Clone, Copy, Debug)]
pub enum DeliveryError {
    MissingEmail,
    MissingSender,
    MissingRecipient,
    /// The recipient has no `@`.
    NoRecipientDomain,
    MissingData,
}

/// The message of a delivery error.
pub open spec fn delivery_error_text(e: DeliveryError) -> Seq<char> {
    match e {
        DeliveryError::MissingEmail => "Missing email"@,
        DeliveryError::MissingSender => "Missing email sender"@,
        DeliveryError::MissingRecipient => "Missing email recipient"@,
        DeliveryError::NoRecipientDomain => "Recipient doesn't contain an `@` delimiter"@,
        DeliveryError::MissingData => "Missing email data"@,
    }
}

fn text(s: &str) -> (r: String)
    ensures
        r@ == s@,
{
    string_of(chars_of(s).as_slice())
}

impl DeliveryError {
    /// The error's message.
    pub fn message(&self) -> (r: String)
        ensures
            r@ == delivery_error_text(*self),
    {
        match self {
            DeliveryError::MissingEmail => text("Missing email"),
            DeliveryError::MissingSender => text("Missing email sender"),
            DeliveryError::MissingRecipient => text("Missing email recipient"),
            DeliveryError::NoRecipientDomain => text("Recipient doesn't contain an `@` delimiter"),
            DeliveryError::MissingData => text("Missing email data"),
        }
    }
}

/// What an outgoing message is sent and recorded with.
pub struct OutgoingFields {
    pub sender: String,
    pub recipient: String,
    pub recipient_domain: String,
    pub subject: String,
    pub date: (i64, u32),
    pub content: String,
    pub attachments: Vec<Attachment>,
}

/// Outgoing fields as values.
pub struct OutgoingView {
    pub sender: Seq<char>,
    pub recipient: Seq<char>,
    pub recipient_domain: Seq<char>,
    pub subject: Seq<char>,
    pub date: (i64, u32),
    pub content: Seq<char>,
    pub attachments: Seq<(Seq<char>, Seq<u8>)>,
}

impl View for OutgoingFields {
    type V = OutgoingView;

    open spec fn view(&self) -> OutgoingView {
        OutgoingView {
            sender: self.sender@,
            recipient: self.recipient@,
            recipient_domain: self.recipient_domain@,
            subject: self.subject@,
            date: self.date,
            content: self.content@,
            attachments: self.attachments@.map_values(|a: Attachment| a@),
        }
    }
}

/// The message passes every check before its subject, date and content are
/// read, but one of them is missing (reading it panics).
pub open spec fn outgoing_panics(e: Option<EmailView>) -> bool {
    &&& e matches Some(m)
    &&& m.sender is Some
    &&& m.recipient matches Some(r)
    &&& domain_of(r) is Some
    &&& m.data matches Some(d)
    &&& (d.subject is None || d.date is None || d.content is None)
}

/// The fields of an outgoing message, or the first thing missing.
pub open spec fn outgoing_of(e: Option<EmailView>) -> Result<OutgoingView, DeliveryError> {
    match e {
        None => Err(DeliveryError::MissingEmail),
        Some(m) => match m.sender {
            None => Err(DeliveryError::MissingSender),
            Some(s) => match m.recipient {
                None => Err(DeliveryError::MissingRecipient),
                Some(r) => match domain_of(r) {
                    None => Err(DeliveryError::NoRecipientDomain),
                    Some(dom) => match m.data {
                        None => Err(DeliveryError::MissingData),
                        Some(d) => Ok(
                            OutgoingView {
                                sender: s,
                                recipient: r,
                                recipient_domain: dom,
                                subject: d.subject.unwrap(),
                                date: d.date.unwrap(),
                                content: d.content.unwrap(),
                                attachments: d.attachments,
                            },
                        ),
                    },
                },
            },
        },
    }
}

fn copy_text(s: &String) -> (r: String)
    ensures
        r@ == s@,
{
    string_of(chars_of(s.as_str()).as_slice())
}

fn copy_attachments(v: &Vec<Attachment>) -> (r: Vec<Attachment>)
    ensures
        r@.map_values(|a: Attachment| a@) == v@.map_values(|a: Attachment| a@),
{
    let mut r: Vec<Attachment> = Vec::new();
    for i in 0..v.len()
        invariant
            r@.map_values(|a: Attachment| a@) == v@.take(i as int).map_values(|a: Attachment| a@),
    {
        let a = &v[i];
        let mut body: Vec<u8> = Vec::new();
        for j in 0..a.body.len()
            invariant
                body@ == a.body@.take(j as int),
        {
            body.push(a.body[j]);
            assert(body@ =~= a.body@.take(j + 1));
        }
        assert(a.body@.take(a.body.len() as int) =~= a.body@);
        let na = Attachment { filename: copy_text(&a.filename), body };
        assert(na@ == v@[i as int]@);
        let ghost before = r@;
        r.push(na);
        assert(r@ == before.push(na));
        assert(r@.map_values(|a: Attachment| a@) =~= before.map_values(|a: Attachment| a@).push(
            na@,
        ));
        assert(v@.take(i + 1).map_values(|a: Attachment| a@) =~= v@.take(i as int).map_values(
            |a: Attachment| a@,
        ).push(v@[i as int]@));
    }
    assert(v@.take(v.len() as int) =~= v@);
    r
}

impl SmtpSession {
    /// Sending a received message, up to its first I/O: the fields the
    /// message is recorded and sent with (the caller records them, builds
    /// the message with `outgoing_message` and delivers it to the exchanger
    /// `choose_mx` picks), or the first thing missing.
    pub fn send_email(&self) -> (r: Result<OutgoingFields, DeliveryError>)
        requires
            !outgoing_panics(self@),
        ensures
            match (r, outgoing_of(self@)) {
                (Ok(f), Ok(v)) => f@ == v,
                (Err(a), Err(b)) => a == b,
                _ => false,
            },
    {
        let e = match &self.email {
            None => {
                return Err(DeliveryError::MissingEmail);
            },
            Some(e) => e,
        };
        let sender = match &e.sender {
            None => {
                return Err(DeliveryError::MissingSender);
            },
            Some(s) => s,
        };
        let recipient = match &e.recipient {
            None => {
                return Err(DeliveryError::MissingRecipient);
            },
            Some(r) => r,
        };
        let rv = chars_of(recipient.as_str());
        let (_, dom) = split_once_chars(&rv, '@');
        let dom = match dom {
            None => {
                return Err(DeliveryError::NoRecipientDomain);
            },
            Some(d) => d,
        };
        let d = match &e.data {
            None => {
                return Err(DeliveryError::MissingData);
            },
            Some(d) => d,
        };
        Ok(
            OutgoingFields {
                sender: copy_text(sender),
                recipient: copy_text(recipient),
                recipient_domain: string_of(dom.as_slice()),
                subject: copy_text(d.subject.as_ref().unwrap()),
                date: d.date.unwrap(),
                content: copy_text(d.content.as_ref().unwrap()),
                attachments: copy_attachments(&d.attachments),
            },
        )
    }

    /// Receiving a message, up to its first I/O: the fields it is stored
    /// with (sender, recipient, subject and content), or the first thing
    /// missing.
    pub fn receive_email(&self) -> (r: Result<(String, String, String, String), DeliveryError>)
        requires
            !incoming_panics(self@),
        ensures
            match (r, incoming_of(self@)) {
                (Ok((a, b, c, d)), Ok((w, x, y, z))) => a@ == w && b@ == x && c@ == y && d@ == z,
                (Err(a), Err(b)) => a == b,
                _ => false,
            },
    {
        let e = match &self.email {
            None => {
                return Err(DeliveryError::MissingEmail);
            },
            Some(e) => e,
        };
        let sender = match &e.sender {
            None => {
                return Err(DeliveryError::MissingSender);
            },
            Some(s) => s,
        };
        let recipient = match &e.recipient {
            None => {
                return Err(DeliveryError::MissingRecipient);
            },
            Some(r) => r,
        };
        let d = match &e.data {
            None => {
                return Err(DeliveryError::MissingData);
            },
            Some(d) => d,
        };
        Ok(
            (
                copy_text(sender),
                copy_text(recipient),
                copy_text(d.subject.as_ref().unwrap()),
                copy_text(d.content.as_ref().unwrap()),
            ),
        )
    }
}

/// The message passes every check before its subject and content are read,
/// but one of them is missing (reading it panics).
pub open spec fn incoming_panics(e: Option<EmailView>) -> bool {
    &&& e matches Some(m)
    &&& m.sender is Some
    &&& m.recipient is Some
    &&& m.data matches Some(d)
    &&& (d.subject is None || d.content is None)
}

/// The fields of an incoming message, or the first thing missing.
pub open spec fn incoming_of(e: Option<EmailView>) -> Result<
    (Seq<char>, Seq<char>, Seq<char>, Seq<char>),
    DeliveryError,
> {
    match e {
        None => Err(DeliveryError::MissingEmail),
        Some(m) => match m.sender {
            None => Err(DeliveryError::MissingSender),
            Some(s) => match m.recipient {
                None => Err(DeliveryError::MissingRecipient),
                Some(r) => match m.data {
                    None => Err(DeliveryError::MissingData),
                    Some(d) => Ok((s, r, d.subject.unwrap(), d.content.unwrap())),
                },
            },
        },
    }
}

/// Why a message cannot be built.
#[derive(PartialEq, Eq, Structural, Clone, Copy, Debug)]
pub enum MessageError {
    /// lettre does not read the sender as a mailbox.
    InvalidSender,
    /// lettre does not read the recipient as a mailbox.
    InvalidRecipient,
}

/// A message to send: from the sender to the recipient, with the subject
/// and the date (the sending time when there is none). With no attachments
/// the text is the whole body; otherwise the body is mixed multipart: the
/// text as `text/plain`, then each attachment, in order, as an `image/png`
/// part with its file name.
pub struct MailMessage {
    pub from: String,
    pub to: String,
    pub subject: String,
    pub date: Option<(i64, u32)>,
    pub body: String,
    pub attachments: Vec<Attachment>,
}

/// A message as values.
pub struct MailView {
    pub from: Seq<char>,
    pub to: Seq<char>,
    pub subject: Seq<char>,
    pub date: Option<(i64, u32)>,
    pub body: Seq<char>,
    pub attachments: Seq<(Seq<char>, Seq<u8>)>,
}

impl View for MailMessage {
    type V = MailView;

    open spec fn view(&self) -> MailView {
        MailView {
            from: self.from@,
            to: self.to@,
            subject: self.subject@,
            date: self.date,
            body: self.body@,
            attachments: self.attachments@.map_values(|a: Attachment| a@),
        }
    }
}

/// Every attachment's name has a `.` (an extension); without one, building
/// the multipart message panics.
pub open spec fn names_have_dots(atts: Seq<(Seq<char>, Seq<u8>)>) -> bool {
    forall|i: int| 0 <= i < atts.len() ==> atts[i].0.contains('.')
}

/// The message to send, or why the addresses are refused: the sender is
/// checked first, then the recipient.
pub open spec fn message_of(f: OutgoingView) -> Result<MailView, MessageError> {
    if !mailbox_valid(f.sender) {
        Err(MessageError::InvalidSender)
    } else if !mailbox_valid(f.recipient) {
        Err(MessageError::InvalidRecipient)
    } else {
        Ok(
            MailView {
                from: f.sender,
                to: f.recipient,
                subject: f.subject,
                date: Some(f.date),
                body: f.content,
                attachments: f.attachments,
            },
        )
    }
}

/// Builds the message to send for the outgoing fields: from the sender to
/// the recipient, with the subject, the date, the content and the
/// attachments.
pub fn outgoing_message(f: &OutgoingFields) -> (r: Result<MailMessage, MessageError>)
    requires
        names_have_dots(f@.attachments),
    ensures
        match (r, message_of(f@)) {
            (Ok(m), Ok(v)) => m@ == v,
            (Err(a), Err(b)) => a == b,
            _ => false,
        },
{
    if !parse_mailbox(f.sender.as_str()) {
        return Err(MessageError::InvalidSender);
    }
    if !parse_mailbox(f.recipient.as_str()) {
        return Err(MessageError::InvalidRecipient);
    }
    Ok(
        MailMessage {
            from: copy_text(&f.sender),
            to: copy_text(&f.recipient),
            subject: copy_text(&f.subject),
            date: Some(f.date),
            body: copy_text(&f.content),
            attachments: copy_attachments(&f.attachments),
        },
    )
}

// ---------------------------------------------------------------------------
// Mail exchangers
// ---------------------------------------------------------------------------

/// Index of the mail exchanger to use: the first record with the least
/// preference.
pub open spec fn is_best_mx(prefs: Seq<u16>, k: int) -> bool {
    &&& 0 <= k < prefs.len()
    &&& forall|j: int| 0 <= j < prefs.len() ==> prefs[k] <= prefs[j]
    &&& forall|j: int| 0 <= j < k ==> prefs[j] > prefs[k]
}

/// The preferences of MX records.
pub open spec fn prefs_of(records: Seq<(u16, String)>) -> Seq<u16> {
    records.map_values(|r: (u16, String)| r.0)
}

/// Picks the mail exchanger among `(preference, exchange)` records: the
/// first one with the least preference, as `Iterator::min_by_key` does.
pub fn best_mx(records: &Vec<(u16, String)>) -> (r: Option<String>)
    ensures
        records.len() == 0 <==> r is None,
        r matches Some(x) ==> exists|k: int| #[trigger]
            is_best_mx(prefs_of(records@), k) && x@ == records@[k].1@,
{
    if records.len() == 0 {
        return None;
    }
    let ghost prefs = prefs_of(records@);
    let mut best: usize = 0;
    for i in 1..records.len()
        invariant
            prefs == prefs_of(records@),
            records.len() > 0,
            best < i <= records.len(),
            forall|j: int| 0 <= j < i ==> prefs[best as int] <= prefs[j],
            forall|j: int| 0 <= j < best ==> prefs[j] > prefs[best as int],
    {
        if records[i].0 < records[best].0 {
            best = i;
        }
    }
    assert(is_best_mx(prefs, best as int));
    Some(copy_text(&records[best].1))
}

/// The exchanger to deliver to, or the error when the domain has none:
/// `No MX records found for <domain>`.
pub fn choose_mx(domain: &str, records: &Vec<(u16, String)>) -> (r: Result<String, String>)
    ensures
        records.len() == 0 <==> r is Err,
        r matches Err(m) ==> m@ == "No MX records found for "@ + domain@,
        r matches Ok(x) ==> exists|k: int| #[trigger]
            is_best_mx(prefs_of(records@), k) && x@ == records@[k].1@,
{
    match best_mx(records) {
        Some(x) => Ok(x),
        None => {
            let mut m: Vec<char> = Vec::new();
            push_str(&mut m, "No MX records found for ");
            push_str(&mut m, domain);
            Err(string_of(m.as_slice()))
        },
    }
}

/// Two best exchangers are the same record: the choice is determined.
pub proof fn lemma_best_mx_unique(prefs: Seq<u16>, k1: int, k2: int)
    requires
        is_best_mx(prefs, k1),
        is_best_mx(prefs, k2),
    ensures
        k1 == k2,
{
    if k1 < k2 {
        assert(prefs[k1] > prefs[k2]);
        assert(prefs[k2] <= prefs[k1]);
    } else if k2 < k1 {
        assert(prefs[k2] > prefs[k1]);
    }
}

} // verus!
