//! The Five Tiny Pebbles FTP server: settings, the server description, and
//! the session state machine that answers each control-connection command.
//! The caller performs the network and file-system work an action asks for
//! and reports back through the session's follow-up methods.

use vstd::prelude::*;
use crate::text::{
    int_error, int_error_of, int_error_text, IntError,
    chars_of, dec, eq_str, parse_uint, parse_uint_chars, push_dec, push_str, split_once,
    split_once_chars, string_of,
};
use crate::ftp::{
    cdup_candidate, cdup_target, cwd_candidate, cwd_target, delete_path, delete_target,
    encode_chunk, encoded, join_path, pasv_reply, pasv_reply_text, path_join, port_address,
    port_param_panics, port_param_would_panic, port_target, DataAddr, FtpError, TransferOptions, TransferType,
};

verus! {

/// The text of an optional string.
pub open spec fn opt_view(o: Option<String>) -> Option<Seq<char>> {
    match o {
        Some(s) => Some(s@),
        None => None,
    }
}

// ---------------------------------------------------------------------------
// Settings
// ---------------------------------------------------------------------------

/// The server settings read from the command line.
pub struct Settings {
    pub base_dir: String,
    pub host: String,
    pub port: u16,
    pub username: Option<String>,
    pub password: Option<String>,
}

/// Why the command-line settings are refused.
#[derive(PartialEq, Eq, Structural, Clone, Copy, Debug)]
pub enum SettingsError {
    /// Exactly one of username and password was given.
    CredentialsMismatch,
    /// The port is not a `u16`; the kind of parse error.
    BadPort(IntError),
}

impl SettingsError {
    /// The error's message.
    pub fn message(&self) -> (r: String)
        ensures
            *self == SettingsError::CredentialsMismatch ==> r@
                == "Both username and password must be set or neither should be set"@,
            *self matches SettingsError::BadPort(k) ==> r@ == int_error_text(k),
    {
        match self {
            SettingsError::CredentialsMismatch => string_of(
                chars_of("Both username and password must be set or neither should be set").as_slice(),
            ),
            SettingsError::BadPort(k) => k.message(),
        }
    }
}

impl Settings {
    /// Builds the settings from the command-line values: the directory
    /// defaults to `C:/Users`, the host to `127.0.0.1`, the port to 21;
    /// username and password must both be given or both be absent.
    pub fn new(
        directory: Option<String>,
        host: Option<String>,
        port: Option<String>,
        username: Option<String>,
        password: Option<String>,
    ) -> (r: Result<Settings, SettingsError>)
        ensures
            username is Some != password is Some ==> r == Err::<Settings, SettingsError>(
                SettingsError::CredentialsMismatch,
            ),
            username is Some == password is Some ==> match port {
                Some(p) => parse_uint(p@, 65535) is None ==> r == Err::<Settings, SettingsError>(
                    SettingsError::BadPort(int_error(p@)),
                ),
                None => true,
            },
            r matches Ok(s) ==> {
                &&& s.base_dir@ == (match directory {
                    Some(d) => d@,
                    None => "C:/Users"@,
                })
                &&& s.host@ == (match host {
                    Some(h) => h@,
                    None => "127.0.0.1"@,
                })
                &&& s.port as nat == (match port {
                    Some(p) => parse_uint(p@, 65535).unwrap(),
                    None => 21,
                })
                &&& opt_view(s.username) == opt_view(username)
                &&& opt_view(s.password) == opt_view(password)
            },
            (username is Some == password is Some && match port {
                Some(p) => parse_uint(p@, 65535) is Some,
                None => true,
            }) ==> r is Ok,
    {
        if username.is_some() != password.is_some() {
            return Err(SettingsError::CredentialsMismatch);
        }
        let base_dir = match directory {
            Some(d) => d,
            None => string_of(chars_of("C:/Users").as_slice()),
        };
        let host = match host {
            Some(h) => h,
            None => string_of(chars_of("127.0.0.1").as_slice()),
        };
        let port: u16 = match port {
            Some(p) => {
                let v = chars_of(p.as_str());
                match parse_uint_chars(&v, 65535) {
                    Some(n) => n as u16,
                    None => {
                        return Err(SettingsError::BadPort(int_error_of(&v)));
                    },
                }
            },
            None => 21,
        };
        Ok(Settings { base_dir, host, port, username, password })
    }
}

// ---------------------------------------------------------------------------
// The server
// ---------------------------------------------------------------------------

/// The login the server requires.
pub struct Credentials {
    pub username: String,
    pub password: String,
}

/// The FTP server's address, the directory it serves, and its login.
pub struct FtpServer {
    pub host: String,
    pub port: u16,
    pub base_dir: String,
    pub credentials: Option<Credentials>,
}

/// The server as values.
pub struct ServerView {
    pub host: Seq<char>,
    pub port: u16,
    pub base_dir: Seq<char>,
    pub credentials: Option<(Seq<char>, Seq<char>)>,
}

impl View for FtpServer {
    type V = ServerView;

    open spec fn view(&self) -> ServerView {
        ServerView {
            host: self.host@,
            port: self.port,
            base_dir: self.base_dir@,
            credentials: match self.credentials {
                Some(c) => Some((c.username@, c.password@)),
                None => None,
            },
        }
    }
}

/// Why the server cannot be built.
#[derive(PartialEq, Eq, Structural, Clone, Copy, Debug)]
pub enum ServerError {
    /// The base directory is not a directory.
    NotADirectory,
    /// The host is `0.0.0.0` and the machine's IPv4 address is unknown.
    NoLocalAddress,
}

/// What `{:?}` prints for a path (`Path`'s `Debug`), for text that is not
/// plain.
pub uninterp spec fn path_debug_text(s: Seq<char>) -> Seq<char>;

/// Printable ASCII other than quotes and `\`, which `Debug` prints
/// unescaped.
pub open spec fn plain_text(s: Seq<char>) -> bool {
    forall|i: int|
        0 <= i < s.len() ==> 0x20 <= (#[trigger] s[i]) as u32 <= 0x7e && s[i] != '"' && s[i]
            != '\'' && s[i] != '\\'
}

/// `Path`'s `Debug`: plain text in double quotes; other text is what
/// `path_debug_text` names (escapes).
pub open spec fn path_debug(s: Seq<char>) -> Seq<char> {
    if plain_text(s) {
        "\""@ + s + "\""@
    } else {
        path_debug_text(s)
    }
}

/// Calls `format!("{:?}", Path::new(s))`; the contract is `path_debug`,
/// which states the plain case and names the rest.
#[verifier::external_body]
fn debug_path(s: &str) -> (r: String)
    ensures
        r@ == path_debug(s@),
        !plain_text(s@) ==> r@ == path_debug_text(s@),
{
    format!("{:?}", std::path::Path::new(s))
}

impl ServerError {
    /// The error's message, for the base directory the server was given.
    pub fn message(&self, base_dir: &str) -> (r: String)
        ensures
            *self == ServerError::NotADirectory ==> r@ == path_debug(base_dir@)
                + " is not a directory"@,
            *self == ServerError::NoLocalAddress ==> r@ == "Failed to get the local IPv4 address"@,
    {
        match self {
            ServerError::NotADirectory => {
                let d = debug_path(base_dir);
                let mut m = chars_of(d.as_str());
                push_str(&mut m, " is not a directory");
                string_of(m.as_slice())
            },
            ServerError::NoLocalAddress => string_of(
                chars_of("Failed to get the local IPv4 address").as_slice(),
            ),
        }
    }
}

impl FtpServer {
    /// Describes the server. `base_dir_is_dir` tells whether the base
    /// directory is a directory; `local_ip` is the machine's IPv4 address,
    /// which replaces a host of `0.0.0.0`.
    pub fn new(
        host: String,
        port: u16,
        base_dir: String,
        credentials: Option<Credentials>,
        base_dir_is_dir: bool,
        local_ip: Option<String>,
    ) -> (r: Result<FtpServer, ServerError>)
        ensures
            !base_dir_is_dir ==> r == Err::<FtpServer, ServerError>(ServerError::NotADirectory),
            base_dir_is_dir && host@ == "0.0.0.0"@ && local_ip is None ==> r == Err::<
                FtpServer,
                ServerError,
            >(ServerError::NoLocalAddress),
            base_dir_is_dir && (host@ != "0.0.0.0"@ || local_ip is Some) ==> r is Ok,
            r matches Ok(s) ==> {
                &&& s.host@ == (if host@ == "0.0.0.0"@ {
                    local_ip.unwrap()@
                } else {
                    host@
                })
                &&& s.port == port
                &&& s.base_dir@ == base_dir@
                &&& s@.credentials == (match credentials {
                    Some(c) => Some((c.username@, c.password@)),
                    None => None,
                })
            },
    {
        if !base_dir_is_dir {
            return Err(ServerError::NotADirectory);
        }
        let h = chars_of(host.as_str());
        let host = if eq_str(&h, "0.0.0.0") {
            match local_ip {
                Some(ip) => ip,
                None => {
                    return Err(ServerError::NoLocalAddress);
                },
            }
        } else {
            host
        };
        Ok(FtpServer { host, port, base_dir, credentials })
    }

    /// The address the server listens on: `host:port`.
    pub fn addr(&self) -> (r: String)
        ensures
            r@ == self.host@ + ":"@ + dec(self.port as nat),
    {
        let mut m: Vec<char> = Vec::new();
        push_str(&mut m, self.host.as_str());
        push_str(&mut m, ":");
        push_dec(&mut m, self.port as u64);
        string_of(m.as_slice())
    }
}

// ---------------------------------------------------------------------------
// Sessions
// ---------------------------------------------------------------------------

/// The state of one client's control connection. `data_ready` tells whether
/// a data listener is waiting to be used.
pub struct FtpSession {
    pub server: FtpServer,
    pub username: Option<String>,
    pub real_dir: String,
    pub virtual_dir: String,
    pub data_ready: bool,
    pub transfer_type: TransferType,
    pub transfer_opts: Option<TransferOptions>,
}

/// A session as values.
pub struct SessionView {
    pub server: ServerView,
    pub username: Option<Seq<char>>,
    pub real_dir: Seq<char>,
    pub virtual_dir: Seq<char>,
    pub data_ready: bool,
    pub transfer_type: TransferType,
    pub transfer_opts: Option<TransferOptions>,
}

impl View for FtpSession {
    type V = SessionView;

    open spec fn view(&self) -> SessionView {
        SessionView {
            server: self.server@,
            username: opt_view(self.username),
            real_dir: self.real_dir@,
            virtual_dir: self.virtual_dir@,
            data_ready: self.data_ready,
            transfer_type: self.transfer_type,
            transfer_opts: self.transfer_opts,
        }
    }
}

/// The replies around a directory listing.
pub struct ListReplies {
    pub opening: String,
    pub done: String,
    pub accept_failed: String,
}

/// What the caller does after a command.
pub enum FtpAction {
    /// Send the reply.
    Reply(String),
    /// Send the reply, then end the session with the error.
    ReplyThenFail(String, FtpError),
    /// End the session with the error.
    Fail(FtpError),
    /// Open a passive data listener (see `choose_passive_port` and
    /// `passive_opened`).
    Passive,
    /// Open a data listener at the socket address (see `active_opened`).
    Active(String),
    /// The data listener was taken: accept a connection and send the listing
    /// of the real directory with these replies.
    List(ListReplies),
    /// Check whether the real directory exists (see `finish_cwd`), to move
    /// there and show the virtual directory.
    CheckDir(String, String),
    /// Open the file for reading; if that fails send the reply and end the
    /// session; otherwise see `retr_opened`.
    Retrieve(String, String),
    /// Create the file; if that fails end the session; otherwise see
    /// `stor_started`.
    Store(String),
    /// Remove the file if it exists and is a file, and answer with
    /// `delete_reply`.
    Delete(String),
}

/// An action as values.
pub enum ActionView {
    Reply(Seq<char>),
    ReplyThenFail(Seq<char>, FtpError),
    Fail(FtpError),
    Passive,
    Active(Seq<char>),
    List(Seq<char>, Seq<char>, Seq<char>),
    CheckDir(Seq<char>, Seq<char>),
    Retrieve(Seq<char>, Seq<char>),
    Store(Seq<char>),
    Delete(Seq<char>),
}

impl View for FtpAction {
    type V = ActionView;

    open spec fn view(&self) -> ActionView {
        match self {
            FtpAction::Reply(s) => ActionView::Reply(s@),
            FtpAction::ReplyThenFail(s, e) => ActionView::ReplyThenFail(s@, *e),
            FtpAction::Fail(e) => ActionView::Fail(*e),
            FtpAction::Passive => ActionView::Passive,
            FtpAction::Active(a) => ActionView::Active(a@),
            FtpAction::List(l) => ActionView::List(l.opening@, l.done@, l.accept_failed@),
            FtpAction::CheckDir(r, v) => ActionView::CheckDir(r@, v@),
            FtpAction::Retrieve(p, m) => ActionView::Retrieve(p@, m@),
            FtpAction::Store(p) => ActionView::Store(p@),
            FtpAction::Delete(p) => ActionView::Delete(p@),
        }
    }
}

/// The replies around a file transfer over the data connection.
pub struct TransferPlan {
    /// Sent before the transfer.
    pub opening: String,
    /// A data listener was waiting (and is now taken).
    pub data: bool,
    /// Sent when no data listener was waiting.
    pub no_data: String,
    /// Sent when no data connection could be accepted.
    pub accept_failed: String,
    /// Sent when the transfer is complete.
    pub done: String,
}

/// The reply to `CDUP`, with the new state.
pub open spec fn cdup_step(s: SessionView) -> (SessionView, ActionView) {
    if s.virtual_dir != "/"@ {
        let (r, v) = cdup_target(s.server.base_dir, s.real_dir, s.virtual_dir);
        (
            SessionView { real_dir: r, virtual_dir: v, ..s },
            ActionView::Reply("250 Directory successfully changed\r\n"@),
        )
    } else {
        (s, ActionView::Reply("550 Already at the root directory\r\n"@))
    }
}

/// The command word and parameter of a request.
pub open spec fn command_of(req: Seq<char>) -> Seq<char> {
    split_once(req, ' ').0
}

/// The parameter of a request, when there is one.
pub open spec fn param_of(req: Seq<char>) -> Option<Seq<char>> {
    split_once(req, ' ').1
}

/// A request on which the server panics (a `PORT` whose
/// port fields do not read as `u16` or overflow).
pub open spec fn request_panics(req: Seq<char>) -> bool {
    &&& command_of(req) == "PORT"@
    &&& param_of(req) matches Some(a)
    &&& port_param_panics(a)
}

/// How a session answers a request: its next state and the action.
pub open spec fn ftp_step(s: SessionView, req: Seq<char>) -> (SessionView, ActionView) {
    let cmd = command_of(req);
    let param = param_of(req);
    let missing = (s, ActionView::Fail(FtpError::ParamMissing));
    if cmd == "USER"@ {
        match param {
            None => missing,
            Some(u) => (
                SessionView { username: Some(u), ..s },
                ActionView::Reply("331 Username okay, need password.\r\n"@),
            ),
        }
    } else if cmd == "PASS"@ {
        match param {
            None => missing,
            Some(p) => match s.server.credentials {
                Some((cu, cp)) => match s.username {
                    Some(u) => if u == cu && p == cp {
                        (s, ActionView::Reply("230 User logged in, proceed.\r\n"@))
                    } else {
                        (
                            SessionView { username: None, ..s },
                            ActionView::Reply("530 Not logged in. Authentication failed.\r\n"@),
                        )
                    },
                    None => (s, ActionView::Reply("530 Not logged in. Send USER before PASS.\r\n"@)),
                },
                None => (s, ActionView::Reply("230 User logged in, proceed.\r\n"@)),
            },
        }
    } else if cmd == "SYST"@ {
        (s, ActionView::Reply("215 UNIX Type: L8\r\n"@))
    } else if cmd == "FEAT"@ {
        (s, ActionView::Reply("211 Features:\r\nUTF8\r\n211 End\r\n"@))
    } else if cmd == "PWD"@ {
        (s, ActionView::Reply("257 \""@ + s.virtual_dir + "\" is the current directory.\r\n"@))
    } else if cmd == "TYPE"@ {
        match param {
            None => missing,
            Some(m) => if m == "A"@ {
                (
                    SessionView { transfer_type: TransferType::Ascii, ..s },
                    ActionView::Reply("200 Type set to A\r\n"@),
                )
            } else if m == "I"@ {
                (
                    SessionView { transfer_type: TransferType::Binary, ..s },
                    ActionView::Reply("200 Type set to I\r\n"@),
                )
            } else {
                (s, ActionView::Reply("504 Command not implemented for that parameter\r\n"@))
            },
        }
    } else if cmd == "PASV"@ {
        (s, ActionView::Passive)
    } else if cmd == "PORT"@ {
        match param {
            None => missing,
            Some(a) => match port_target(a) {
                Ok(t) => (s, ActionView::Active(t)),
                Err(e) => (s, ActionView::Fail(e)),
            },
        }
    } else if cmd == "LIST"@ {
        if s.data_ready {
            (
                SessionView { data_ready: false, ..s },
                ActionView::List(
                    "150 Sending directory list\r\n"@,
                    "226 Directory send OK\r\n"@,
                    "425 Failed to accept a connection on the data socket\r\n"@,
                ),
            )
        } else {
            (
                s,
                ActionView::ReplyThenFail(
                    "425 The data socket has not been opened\r\n"@,
                    FtpError::DataSocketNotOpen,
                ),
            )
        }
    } else if cmd == "CWD"@ {
        match param {
            None => missing,
            Some(t) => if t == ".."@ {
                cdup_step(s)
            } else {
                let (r, v) = cwd_target(s.server.base_dir, s.real_dir, s.virtual_dir, t);
                (s, ActionView::CheckDir(r, v))
            },
        }
    } else if cmd == "CDUP"@ {
        cdup_step(s)
    } else if cmd == "RETR"@ {
        match param {
            None => missing,
            Some(f) => (
                s,
                ActionView::Retrieve(path_join(s.real_dir, f), "550 File not found\r\n"@),
            ),
        }
    } else if cmd == "STOR"@ {
        match param {
            None => missing,
            Some(f) => (s, ActionView::Store(path_join(s.real_dir, f))),
        }
    } else if cmd == "REST"@ {
        match param {
            None => missing,
            Some(o) => match parse_uint(o, 18446744073709551615) {
                Some(n) => (
                    SessionView {
                        transfer_opts: Some(TransferOptions { offset: Some(n as u64), append: false }),
                        ..s
                    },
                    ActionView::Reply("350 Restarting at specified offset\r\n"@),
                ),
                None => (s, ActionView::Fail(FtpError::BadOffset(int_error(o)))),
            },
        }
    } else if cmd == "APPE"@ {
        (
            SessionView {
                transfer_opts: Some(TransferOptions { offset: None, append: true }),
                ..s
            },
            ActionView::Reply("350 Restarting at specified offset\r\n"@),
        )
    } else if cmd == "DELE"@ {
        match param {
            None => missing,
            Some(p) => (s, ActionView::Delete(delete_target(s.server.base_dir, p))),
        }
    } else if cmd == "OPTS"@ {
        match param {
            None => missing,
            Some(o) => if o == "REST STOR"@ {
                (s, ActionView::Reply("200 Resuming file uploads supported\r\n"@))
            } else {
                (s, ActionView::Reply("502 Command not implemented.\r\n"@))
            },
        }
    } else {
        (s, ActionView::Reply("502 Command not implemented.\r\n"@))
    }
}

/// The offset a `RETR` seeks to: that of the pending transfer options.
pub open spec fn retr_offset(s: SessionView) -> Option<u64> {
    match s.transfer_opts {
        Some(o) => o.offset,
        None => None,
    }
}

/// How a session finishes a `CWD` once the directory check is known.
pub open spec fn cwd_finish_step(
    s: SessionView,
    real_dir: Seq<char>,
    virtual_dir: Seq<char>,
    is_dir: bool,
) -> (SessionView, Seq<char>) {
    if is_dir {
        (
            SessionView { real_dir, virtual_dir, ..s },
            "250 Directory successfully changed.\r\n"@,
        )
    } else {
        (s, "550 Failed to change directory.\r\n"@)
    }
}

/// A reply built from a literal.
fn reply(s: &str) -> (r: FtpAction)
    ensures
        r@ == ActionView::Reply(s@),
{
    FtpAction::Reply(string_of(chars_of(s).as_slice()))
}

fn text(s: &str) -> (r: String)
    ensures
        r@ == s@,
{
    string_of(chars_of(s).as_slice())
}

impl FtpSession {
    /// A new session in the server's base directory, in ASCII mode, logged
    /// out, with no data listener.
    pub fn new(server: FtpServer, base_dir: String) -> (r: FtpSession)
        ensures
            r@ == (SessionView {
                server: server@,
                username: None,
                real_dir: base_dir@,
                virtual_dir: "/"@,
                data_ready: false,
                transfer_type: TransferType::Ascii,
                transfer_opts: None,
            }),
    {
        FtpSession {
            server,
            username: None,
            real_dir: base_dir,
            virtual_dir: text("/"),
            data_ready: false,
            transfer_type: TransferType::Ascii,
            transfer_opts: None,
        }
    }

    fn cdup(&mut self) -> (r: FtpAction)
        ensures
            (final(self)@, r@) == cdup_step(old(self)@),
    {
        let v = chars_of(self.virtual_dir.as_str());
        if !eq_str(&v, "/") {
            let (nr, nv) = cdup_candidate(
                self.server.base_dir.as_str(),
                self.real_dir.as_str(),
                self.virtual_dir.as_str(),
            );
            self.real_dir = nr;
            self.virtual_dir = nv;
            reply("250 Directory successfully changed\r\n")
        } else {
            reply("550 Already at the root directory\r\n")
        }
    }

    /// Answers one request of the control connection (already trimmed).
    pub fn process_command(&mut self, request: &str) -> (r: FtpAction)
        requires
            !request_panics(request@),
        ensures
            (final(self)@, r@) == ftp_step(old(self)@, request@),
    {
        let req = chars_of(request);
        let (command, param) = split_once_chars(&req, ' ');
        if eq_str(&command, "USER") {
            match param {
                None => FtpAction::Fail(FtpError::ParamMissing),
                Some(u) => {
                    self.username = Some(string_of(u.as_slice()));
                    reply("331 Username okay, need password.\r\n")
                },
            }
        } else if eq_str(&command, "PASS") {
            match param {
                None => FtpAction::Fail(FtpError::ParamMissing),
                Some(p) => {
                    let ok = match &self.server.credentials {
                        Some(c) => match &self.username {
                            Some(u) => Some(
                                eq_str(&chars_of(u.as_str()), c.username.as_str()) && eq_str(
                                    &p,
                                    c.password.as_str(),
                                ),
                            ),
                            None => None,
                        },
                        None => Some(true),
                    };
                    match ok {
                        Some(true) => reply("230 User logged in, proceed.\r\n"),
                        Some(false) => {
                            self.username = None;
                            reply("530 Not logged in. Authentication failed.\r\n")
                        },
                        None => reply("530 Not logged in. Send USER before PASS.\r\n"),
                    }
                },
            }
        } else if eq_str(&command, "SYST") {
            reply("215 UNIX Type: L8\r\n")
        } else if eq_str(&command, "FEAT") {
            reply("211 Features:\r\nUTF8\r\n211 End\r\n")
        } else if eq_str(&command, "PWD") {
            let mut m: Vec<char> = Vec::new();
            push_str(&mut m, "257 \"");
            push_str(&mut m, self.virtual_dir.as_str());
            push_str(&mut m, "\" is the current directory.\r\n");
            FtpAction::Reply(string_of(m.as_slice()))
        } else if eq_str(&command, "TYPE") {
            match param {
                None => FtpAction::Fail(FtpError::ParamMissing),
                Some(m) => {
                    if eq_str(&m, "A") {
                        self.transfer_type = TransferType::Ascii;
                        reply("200 Type set to A\r\n")
                    } else if eq_str(&m, "I") {
                        self.transfer_type = TransferType::Binary;
                        reply("200 Type set to I\r\n")
                    } else {
                        reply("504 Command not implemented for that parameter\r\n")
                    }
                },
            }
        } else if eq_str(&command, "PASV") {
            FtpAction::Passive
        } else if eq_str(&command, "PORT") {
            match param {
                None => FtpAction::Fail(FtpError::ParamMissing),
                Some(a) => {
                    let a = string_of(a.as_slice());
                    match port_address(a.as_str()) {
                        Ok(t) => FtpAction::Active(t),
                        Err(e) => FtpAction::Fail(e),
                    }
                },
            }
        } else if eq_str(&command, "LIST") {
            if self.data_ready {
                self.data_ready = false;
                FtpAction::List(
                    ListReplies {
                        opening: text("150 Sending directory list\r\n"),
                        done: text("226 Directory send OK\r\n"),
                        accept_failed: text(
                            "425 Failed to accept a connection on the data socket\r\n",
                        ),
                    },
                )
            } else {
                FtpAction::ReplyThenFail(
                    text("425 The data socket has not been opened\r\n"),
                    FtpError::DataSocketNotOpen,
                )
            }
        } else if eq_str(&command, "CWD") {
            match param {
                None => FtpAction::Fail(FtpError::ParamMissing),
                Some(t) => {
                    if eq_str(&t, "..") {
                        self.cdup()
                    } else {
                        let t = string_of(t.as_slice());
                        let (nr, nv) = cwd_candidate(
                            self.server.base_dir.as_str(),
                            self.real_dir.as_str(),
                            self.virtual_dir.as_str(),
                            t.as_str(),
                        );
                        FtpAction::CheckDir(nr, nv)
                    }
                },
            }
        } else if eq_str(&command, "CDUP") {
            self.cdup()
        } else if eq_str(&command, "RETR") {
            match param {
                None => FtpAction::Fail(FtpError::ParamMissing),
                Some(f) => {
                    let f = string_of(f.as_slice());
                    FtpAction::Retrieve(
                        join_path(self.real_dir.as_str(), f.as_str()),
                        text("550 File not found\r\n"),
                    )
                },
            }
        } else if eq_str(&command, "STOR") {
            match param {
                None => FtpAction::Fail(FtpError::ParamMissing),
                Some(f) => {
                    let f = string_of(f.as_slice());
                    FtpAction::Store(join_path(self.real_dir.as_str(), f.as_str()))
                },
            }
        } else if eq_str(&command, "REST") {
            match param {
                None => FtpAction::Fail(FtpError::ParamMissing),
                Some(o) => match parse_uint_chars(&o, 18446744073709551615) {
                    Some(n) => {
                        self.transfer_opts = Some(TransferOptions { offset: Some(n), append: false });
                        reply("350 Restarting at specified offset\r\n")
                    },
                    None => FtpAction::Fail(FtpError::BadOffset(int_error_of(&o))),
                },
            }
        } else if eq_str(&command, "APPE") {
            self.transfer_opts = Some(TransferOptions { offset: None, append: true });
            reply("350 Restarting at specified offset\r\n")
        } else if eq_str(&command, "DELE") {
            match param {
                None => FtpAction::Fail(FtpError::ParamMissing),
                Some(p) => {
                    let p = string_of(p.as_slice());
                    FtpAction::Delete(delete_path(self.server.base_dir.as_str(), p.as_str()))
                },
            }
        } else if eq_str(&command, "OPTS") {
            match param {
                None => FtpAction::Fail(FtpError::ParamMissing),
                Some(o) => {
                    if eq_str(&o, "REST STOR") {
                        reply("200 Resuming file uploads supported\r\n")
                    } else {
                        reply("502 Command not implemented.\r\n")
                    }
                },
            }
        } else {
            reply("502 Command not implemented.\r\n")
        }
    }
}

impl FtpSession {
    /// Records the passive data listener's local address: an IPv4 listener
    /// becomes the data listener; the reply tells the client where it is.
    pub fn passive_opened(&mut self, addr: DataAddr) -> (r: String)
        ensures
            r@ == pasv_reply_text(addr).0,
            final(self)@ == (SessionView {
                data_ready: old(self).data_ready || pasv_reply_text(addr).1,
                ..old(self)@
            }),
    {
        let (text, open) = pasv_reply(addr);
        if open {
            self.data_ready = true;
        }
        text
    }

    /// Records the active data listener opened for `PORT`.
    pub fn active_opened(&mut self) -> (r: String)
        ensures
            r@ == "200 PORT command successful. Consider using PASV\r\n"@,
            final(self)@ == (SessionView { data_ready: true, ..old(self)@ }),
    {
        self.data_ready = true;
        text("200 PORT command successful. Consider using PASV\r\n")
    }

    /// Finishes a `CWD` once the caller knows whether the real directory
    /// exists: the session moves there only if it does.
    pub fn finish_cwd(&mut self, real_dir: String, virtual_dir: String, is_dir: bool) -> (r: String)
        ensures
            (final(self)@, r@) == cwd_finish_step(old(self)@, real_dir@, virtual_dir@, is_dir),
    {
        if is_dir {
            self.real_dir = real_dir;
            self.virtual_dir = virtual_dir;
            text("250 Directory successfully changed.\r\n")
        } else {
            text("550 Failed to change directory.\r\n")
        }
    }

    /// Starts a `RETR` once the file is open: the pending transfer options
    /// are used up and give the offset to seek to, and the data listener is
    /// taken.
    pub fn retr_opened(&mut self) -> (r: (Option<u64>, TransferPlan))
        ensures
            r.0 == retr_offset(old(self)@),
            r.1.data == old(self).data_ready,
            r.1.opening@ == "150 Opening data connection\r\n"@,
            r.1.no_data@ == "425 Use PASV first\r\n"@,
            r.1.accept_failed@ == "425 Failed to open data connection\r\n"@,
            r.1.done@ == "226 Transfer complete\r\n"@,
            final(self)@ == (SessionView {
                transfer_opts: None,
                data_ready: false,
                ..old(self)@
            }),
    {
        let opts = match self.transfer_opts {
            Some(o) => o,
            None => TransferOptions::default(),
        };
        self.transfer_opts = None;
        let data = self.data_ready;
        self.data_ready = false;
        (
            opts.offset,
            TransferPlan {
                opening: text("150 Opening data connection\r\n"),
                data,
                no_data: text("425 Use PASV first\r\n"),
                accept_failed: text("425 Failed to open data connection\r\n"),
                done: text("226 Transfer complete\r\n"),
            },
        )
    }

    /// Starts a `STOR` once the file is created: the data listener is taken.
    pub fn stor_started(&mut self) -> (r: TransferPlan)
        ensures
            r.data == old(self).data_ready,
            r.opening@ == "150 File status okay; about to open data connection\r\n"@,
            r.no_data@ == "425 Use PASV first\r\n"@,
            r.accept_failed@ == "425 Failed to open data connection\r\n"@,
            r.done@ == "226 Transfer complete\r\n"@,
            final(self)@ == (SessionView { data_ready: false, ..old(self)@ }),
    {
        let data = self.data_ready;
        self.data_ready = false;
        TransferPlan {
            opening: text("150 File status okay; about to open data connection\r\n"),
            data,
            no_data: text("425 Use PASV first\r\n"),
            accept_failed: text("425 Failed to open data connection\r\n"),
            done: text("226 Transfer complete\r\n"),
        }
    }

    /// Encodes a chunk of transferred data for the session's transfer type.
    pub fn encode(&self, chunk: &[u8]) -> (r: Vec<u8>)
        ensures
            r@ == encoded(self.transfer_type, chunk@),
    {
        encode_chunk(self.transfer_type, chunk)
    }
}

/// Whether a request is one on which the server panics (the caller panics
/// then, before asking for the session's answer).
pub fn request_would_panic(request: &str) -> (r: bool)
    ensures
        r == request_panics(request@),
{
    let req = chars_of(request);
    let (command, param) = split_once_chars(&req, ' ');
    if !eq_str(&command, "PORT") {
        return false;
    }
    match param {
        None => false,
        Some(a) => {
            let a = string_of(a.as_slice());
            port_param_would_panic(a.as_str())
        },
    }
}

// ---------------------------------------------------------------------------
// Laws
// ---------------------------------------------------------------------------

/// The command words, character by character.
pub(crate) proof fn lemma_words()
    ensures
        "USER"@.len() == 4 && "USER"@[0] == 'U' && "USER"@[1] == 'S' && "USER"@[2] == 'E' && "USER"@[3] == 'R',
        "PASS"@.len() == 4 && "PASS"@[0] == 'P' && "PASS"@[1] == 'A' && "PASS"@[2] == 'S' && "PASS"@[3] == 'S',
        "SYST"@.len() == 4 && "SYST"@[0] == 'S' && "SYST"@[1] == 'Y' && "SYST"@[2] == 'S' && "SYST"@[3] == 'T',
        "FEAT"@.len() == 4 && "FEAT"@[0] == 'F' && "FEAT"@[1] == 'E' && "FEAT"@[2] == 'A' && "FEAT"@[3] == 'T',
        "PWD"@.len() == 3 && "PWD"@[0] == 'P' && "PWD"@[1] == 'W' && "PWD"@[2] == 'D',
        "TYPE"@.len() == 4 && "TYPE"@[0] == 'T' && "TYPE"@[1] == 'Y' && "TYPE"@[2] == 'P' && "TYPE"@[3] == 'E',
        "PASV"@.len() == 4 && "PASV"@[0] == 'P' && "PASV"@[1] == 'A' && "PASV"@[2] == 'S' && "PASV"@[3] == 'V',
        "PORT"@.len() == 4 && "PORT"@[0] == 'P' && "PORT"@[1] == 'O' && "PORT"@[2] == 'R' && "PORT"@[3] == 'T',
        "LIST"@.len() == 4 && "LIST"@[0] == 'L' && "LIST"@[1] == 'I' && "LIST"@[2] == 'S' && "LIST"@[3] == 'T',
        "CWD"@.len() == 3 && "CWD"@[0] == 'C' && "CWD"@[1] == 'W' && "CWD"@[2] == 'D',
        "CDUP"@.len() == 4 && "CDUP"@[0] == 'C' && "CDUP"@[1] == 'D' && "CDUP"@[2] == 'U' && "CDUP"@[3] == 'P',
        "RETR"@.len() == 4 && "RETR"@[0] == 'R' && "RETR"@[1] == 'E' && "RETR"@[2] == 'T' && "RETR"@[3] == 'R',
        "STOR"@.len() == 4 && "STOR"@[0] == 'S' && "STOR"@[1] == 'T' && "STOR"@[2] == 'O' && "STOR"@[3] == 'R',
        "REST"@.len() == 4 && "REST"@[0] == 'R' && "REST"@[1] == 'E' && "REST"@[2] == 'S' && "REST"@[3] == 'T',
        "APPE"@.len() == 4 && "APPE"@[0] == 'A' && "APPE"@[1] == 'P' && "APPE"@[2] == 'P' && "APPE"@[3] == 'E',
        "DELE"@.len() == 4 && "DELE"@[0] == 'D' && "DELE"@[1] == 'E' && "DELE"@[2] == 'L' && "DELE"@[3] == 'E',
        "OPTS"@.len() == 4 && "OPTS"@[0] == 'O' && "OPTS"@[1] == 'P' && "OPTS"@[2] == 'T' && "OPTS"@[3] == 'S',
{
    reveal_strlit("USER");
    reveal_strlit("PASS");
    reveal_strlit("SYST");
    reveal_strlit("FEAT");
    reveal_strlit("PWD");
    reveal_strlit("TYPE");
    reveal_strlit("PASV");
    reveal_strlit("PORT");
    reveal_strlit("LIST");
    reveal_strlit("CWD");
    reveal_strlit("CDUP");
    reveal_strlit("RETR");
    reveal_strlit("STOR");
    reveal_strlit("REST");
    reveal_strlit("APPE");
    reveal_strlit("DELE");
    reveal_strlit("OPTS");
}

/// A request made of a command word without spaces, a space and a parameter
/// splits into that word and parameter.
pub proof fn lemma_request_parts(word: Seq<char>, param: Seq<char>)
    requires
        !word.contains(' '),
    ensures
        command_of(word + seq![' '] + param) == word,
        param_of(word + seq![' '] + param) == Some(param),
{
    let req = word + seq![' '] + param;
    let k = word.len() as int;
    assert(req[k] == ' ');
    assert forall|j: int| 0 <= j < k implies req[j] != ' ' by {
        assert(req[j] == word[j]);
    }
    assert(crate::text::is_first(req, ' ', k));
    assert(forall|m: int| crate::text::is_first(req, ' ', m) ==> m == k);
    assert(req.take(k) =~= word);
    assert(req.skip(k + 1) =~= param);
}

/// A request that is a command word without spaces has no parameter.
pub proof fn lemma_request_word(word: Seq<char>)
    requires
        !word.contains(' '),
    ensures
        command_of(word) == word,
        param_of(word) is None,
{
    assert(!exists|k: int| crate::text::is_first(word, ' ', k));
}

proof fn lemma_no_space(w: Seq<char>)
    requires
        forall|i: int| 0 <= i < w.len() ==> w[i] != ' ',
    ensures
        !w.contains(' '),
{
}

/// With credentials configured, `USER name` followed by `PASS secret`
/// logs in exactly when name and secret are the configured ones; otherwise
/// the session is logged out again.
pub proof fn lemma_login(s: SessionView, name: Seq<char>, secret: Seq<char>)
    requires
        s.server.credentials is Some,
    ensures
        ({
            let (s1, a1) = ftp_step(s, "USER "@ + name);
            let (s2, a2) = ftp_step(s1, "PASS "@ + secret);
            &&& a1 == ActionView::Reply("331 Username okay, need password.\r\n"@)
            &&& (s.server.credentials == Some((name, secret))) ==> (a2 == ActionView::Reply(
                "230 User logged in, proceed.\r\n"@,
            ) && s2.username == Some(name))
            &&& (s.server.credentials != Some((name, secret))) ==> (a2 == ActionView::Reply(
                "530 Not logged in. Authentication failed.\r\n"@,
            ) && s2.username is None)
        }),
{
    reveal_strlit("USER ");
    reveal_strlit("PASS ");
    reveal_strlit("USER");
    reveal_strlit("PASS");
    let u = "USER"@;
    let p = "PASS"@;
    lemma_no_space(u);
    lemma_no_space(p);
    assert("USER "@ + name =~= u + seq![' '] + name);
    assert("PASS "@ + secret =~= p + seq![' '] + secret);
    lemma_request_parts(u, name);
    lemma_request_parts(p, secret);
    assert(p != u) by {
        assert(p[0] != u[0]);
    }
}

/// `TYPE I` switches to binary transfers, which send data unchanged; `TYPE A`
/// switches to ASCII transfers.
pub proof fn lemma_type(s: SessionView, data: Seq<u8>)
    ensures
        ftp_step(s, "TYPE I"@).0.transfer_type == TransferType::Binary,
        encoded(ftp_step(s, "TYPE I"@).0.transfer_type, data) == data,
        ftp_step(s, "TYPE A"@).0.transfer_type == TransferType::Ascii,
{
    reveal_strlit("TYPE I");
    reveal_strlit("TYPE A");
    reveal_strlit("TYPE");
    reveal_strlit("I");
    reveal_strlit("A");
    let t = "TYPE"@;
    lemma_no_space(t);
    assert("TYPE I"@ =~= t + seq![' '] + "I"@);
    assert("TYPE A"@ =~= t + seq![' '] + "A"@);
    lemma_request_parts(t, "I"@);
    lemma_request_parts(t, "A"@);
    assert(t != "USER"@) by {
        reveal_strlit("USER");
        assert(t[0] != "USER"@[0]);
    }
    assert(t != "PASS"@) by {
        reveal_strlit("PASS");
        assert(t[0] != "PASS"@[0]);
    }
    assert(t != "SYST"@) by {
        reveal_strlit("SYST");
        assert(t[0] != "SYST"@[0]);
    }
    assert(t != "FEAT"@) by {
        reveal_strlit("FEAT");
        assert(t[0] != "FEAT"@[0]);
    }
    assert(t != "PWD"@) by {
        reveal_strlit("PWD");
        assert(t.len() != "PWD"@.len());
    }
    assert("I"@ != "A"@) by {
        assert("I"@[0] != "A"@[0]);
    }
}

/// After a `CWD` to an absolute directory that exists, `PWD` reports it.
pub proof fn lemma_cwd_pwd(s: SessionView, target: Seq<char>)
    requires
        target.len() > 0,
        target[0] == '/',
    ensures
        ({
            let (s1, a1) = ftp_step(s, "CWD "@ + target);
            &&& a1 matches ActionView::CheckDir(r, v)
            &&& v == target
            &&& ({
                let (s2, _) = cwd_finish_step(s1, r, v, true);
                ftp_step(s2, "PWD"@).1 == ActionView::Reply(
                    "257 \""@ + target + "\" is the current directory.\r\n"@,
                )
            })
        }),
{
    reveal_strlit("CWD ");
    reveal_strlit("CWD");
    reveal_strlit("PWD");
    reveal_strlit("..");
    let c = "CWD"@;
    lemma_no_space(c);
    lemma_no_space("PWD"@);
    assert("CWD "@ + target =~= c + seq![' '] + target);
    lemma_request_parts(c, target);
    lemma_request_word("PWD"@);
    assert(target != ".."@) by {
        assert(target[0] != ".."@[0]);
    }
    reveal_strlit("USER");
    reveal_strlit("PASS");
    reveal_strlit("SYST");
    reveal_strlit("FEAT");
    reveal_strlit("TYPE");
    reveal_strlit("PASV");
    reveal_strlit("PORT");
    reveal_strlit("LIST");
    assert(c != "USER"@ && c != "PASS"@ && c != "SYST"@ && c != "FEAT"@ && c != "PWD"@ && c
        != "TYPE"@ && c != "PASV"@ && c != "PORT"@ && c != "LIST"@) by {
        assert(c.len() == 3);
        assert(c[0] == 'C' && c[1] == 'W');
        assert("PWD"@[1] == 'W');
    }
    assert("PWD"@ != "USER"@ && "PWD"@ != "PASS"@ && "PWD"@ != "SYST"@ && "PWD"@ != "FEAT"@)
        by {
        assert("PWD"@.len() == 3);
    }
}

/// At the root, `CDUP` refuses and changes nothing.
pub proof fn lemma_cdup_at_root(s: SessionView)
    requires
        s.virtual_dir == "/"@,
    ensures
        cdup_step(s) == (s, ActionView::Reply("550 Already at the root directory\r\n"@)),
{
}

/// `REST n` makes the next `RETR` seek to `n`; that `RETR` uses the options
/// up, so the one after it starts at the beginning.
pub proof fn lemma_rest_retr(s: SessionView, n: u64)
    ensures
        ({
            let (s1, a1) = ftp_step(s, "REST "@ + crate::text::dec(n as nat));
            &&& a1 == ActionView::Reply("350 Restarting at specified offset\r\n"@)
            &&& retr_offset(s1) == Some(n)
            &&& retr_offset(SessionView { transfer_opts: None, data_ready: false, ..s1 }) is None
        }),
{
    reveal_strlit("REST ");
    reveal_strlit("REST");
    let w = "REST"@;
    lemma_no_space(w);
    let d = crate::text::dec(n as nat);
    assert("REST "@ + d =~= w + seq![' '] + d);
    lemma_request_parts(w, d);
    crate::text::lemma_parse_dec(n as nat, 18446744073709551615);
    reveal_strlit("USER");
    reveal_strlit("PASS");
    reveal_strlit("SYST");
    reveal_strlit("FEAT");
    reveal_strlit("PWD");
    reveal_strlit("TYPE");
    reveal_strlit("PASV");
    reveal_strlit("PORT");
    reveal_strlit("LIST");
    reveal_strlit("CWD");
    reveal_strlit("CDUP");
    reveal_strlit("RETR");
    reveal_strlit("STOR");
    assert(w != "USER"@ && w != "PASS"@ && w != "SYST"@ && w != "FEAT"@ && w != "PWD"@ && w
        != "TYPE"@ && w != "PASV"@ && w != "PORT"@ && w != "LIST"@ && w != "CWD"@ && w
        != "CDUP"@ && w != "RETR"@ && w != "STOR"@) by {
        assert(w[0] == 'R' && w[1] == 'E');
        assert("RETR"@[1] == 'E' && "RETR"@[2] == 'T' && w[2] == 'S');
        assert("PWD"@.len() == 3 && "CWD"@.len() == 3);
    }
}

/// `LIST` uses up a waiting data listener; without one it replies 425 and
/// ends the session.
pub proof fn lemma_list(s: SessionView)
    ensures
        s.data_ready ==> ftp_step(s, "LIST"@).0.data_ready == false && ftp_step(s, "LIST"@).1 is List,
        !s.data_ready ==> ftp_step(s, "LIST"@) == (s, ActionView::ReplyThenFail(
            "425 The data socket has not been opened\r\n"@,
            FtpError::DataSocketNotOpen,
        )),
{
    reveal_strlit("LIST");
    lemma_no_space("LIST"@);
    lemma_request_word("LIST"@);
    reveal_strlit("USER");
    reveal_strlit("PASS");
    reveal_strlit("SYST");
    reveal_strlit("FEAT");
    reveal_strlit("PWD");
    reveal_strlit("TYPE");
    reveal_strlit("PASV");
    reveal_strlit("PORT");
    let w = "LIST"@;
    assert(w != "USER"@ && w != "PASS"@ && w != "SYST"@ && w != "FEAT"@ && w != "PWD"@ && w
        != "TYPE"@ && w != "PASV"@ && w != "PORT"@) by {
        assert(w[0] == 'L');
        assert("PWD"@.len() == 3);
    }
}

/// No request changes the server a session belongs to.
pub proof fn lemma_server_kept(s: SessionView, req: Seq<char>)
    ensures
        ftp_step(s, req).0.server == s.server,
{
}

/// The request `word param` for a command word and any parameter.
pub(crate) proof fn lemma_word_request(lit: Seq<char>, word: Seq<char>, param: Seq<char>)
    requires
        lit =~= word + seq![' '],
        forall|i: int| 0 <= i < word.len() ==> word[i] != ' ',
    ensures
        command_of(lit + param) == word,
        param_of(lit + param) == Some(param),
{
    assert(lit + param =~= word + seq![' '] + param);
    lemma_request_parts(word, param);
}

/// `RETR f` asks to open `f` under the session's current real directory
/// (not the base directory), answering 550 if it cannot be opened; the
/// session is unchanged until the file is open.
pub proof fn lemma_retr_in_current_dir(s: SessionView, f: Seq<char>)
    ensures
        ftp_step(s, "RETR "@ + f) == (s, ActionView::Retrieve(
            path_join(s.real_dir, f),
            "550 File not found\r\n"@,
        )),
{
    lemma_words();
    reveal_strlit("RETR ");
    lemma_word_request("RETR "@, "RETR"@, f);
}

/// `STOR f` creates `f` under the session's current real directory.
pub proof fn lemma_stor_in_current_dir(s: SessionView, f: Seq<char>)
    ensures
        ftp_step(s, "STOR "@ + f) == (s, ActionView::Store(path_join(s.real_dir, f))),
{
    lemma_words();
    reveal_strlit("STOR ");
    lemma_word_request("STOR "@, "STOR"@, f);
}

/// A successful `CWD` moves the session: its real and virtual directories
/// become the checked ones and a later `RETR f` or `STOR f` uses the new real
/// directory. A failed one changes nothing.
pub proof fn lemma_cwd_then_transfer(s: SessionView, dir: Seq<char>, virt: Seq<char>, f: Seq<char>)
    ensures
        ({
            let (s1, reply) = cwd_finish_step(s, dir, virt, true);
            &&& reply == "250 Directory successfully changed.\r\n"@
            &&& s1.real_dir == dir
            &&& s1.virtual_dir == virt
            &&& s1.username == s.username
            &&& s1.transfer_type == s.transfer_type
            &&& s1.transfer_opts == s.transfer_opts
            &&& s1.data_ready == s.data_ready
            &&& ftp_step(s1, "RETR "@ + f).1 == ActionView::Retrieve(
                path_join(dir, f),
                "550 File not found\r\n"@,
            )
            &&& ftp_step(s1, "STOR "@ + f).1 == ActionView::Store(path_join(dir, f))
        }),
        cwd_finish_step(s, dir, virt, false) == (s, "550 Failed to change directory.\r\n"@),
{
    let s1 = cwd_finish_step(s, dir, virt, true).0;
    lemma_retr_in_current_dir(s1, f);
    lemma_stor_in_current_dir(s1, f);
}

/// `USER name` records the name and asks for the password; nothing else
/// changes.
pub proof fn lemma_user_records_name(s: SessionView, name: Seq<char>)
    ensures
        ftp_step(s, "USER "@ + name) == (SessionView { username: Some(name), ..s }, ActionView::Reply(
            "331 Username okay, need password.\r\n"@,
        )),
{
    lemma_words();
    reveal_strlit("USER ");
    lemma_word_request("USER "@, "USER"@, name);
}

/// `PASS secret`: without configured credentials every login succeeds;
/// with them, a session that sent no `USER` is refused and stays as it was.
pub proof fn lemma_pass(s: SessionView, secret: Seq<char>)
    ensures
        s.server.credentials is None ==> ftp_step(s, "PASS "@ + secret) == (s, ActionView::Reply(
            "230 User logged in, proceed.\r\n"@,
        )),
        s.server.credentials is Some && s.username is None ==> ftp_step(s, "PASS "@ + secret) == (
            s,
            ActionView::Reply("530 Not logged in. Send USER before PASS.\r\n"@),
        ),
        ({
            let (s1, a1) = ftp_step(s, "PASS "@ + secret);
            s.server.credentials matches Some((cu, cp)) && s.username == Some(cu) && secret == cp
                ==> (s1 == s && a1 == ActionView::Reply("230 User logged in, proceed.\r\n"@))
        }),
        ({
            let (s1, a1) = ftp_step(s, "PASS "@ + secret);
            s.server.credentials matches Some((cu, cp)) && s.username matches Some(u) && (u != cu
                || secret != cp) ==> (s1 == SessionView { username: None, ..s } && a1
                == ActionView::Reply("530 Not logged in. Authentication failed.\r\n"@))
        }),
{
    lemma_words();
    reveal_strlit("PASS ");
    lemma_word_request("PASS "@, "PASS"@, secret);
}

/// A command that needs a parameter, sent without one, ends the session
/// with `ParamMissing` and changes nothing.
pub proof fn lemma_param_missing(s: SessionView)
    ensures
        ftp_step(s, "USER"@) == (s, ActionView::Fail(FtpError::ParamMissing)),
        ftp_step(s, "PASS"@) == (s, ActionView::Fail(FtpError::ParamMissing)),
        ftp_step(s, "TYPE"@) == (s, ActionView::Fail(FtpError::ParamMissing)),
        ftp_step(s, "PORT"@) == (s, ActionView::Fail(FtpError::ParamMissing)),
        ftp_step(s, "CWD"@) == (s, ActionView::Fail(FtpError::ParamMissing)),
        ftp_step(s, "RETR"@) == (s, ActionView::Fail(FtpError::ParamMissing)),
        ftp_step(s, "STOR"@) == (s, ActionView::Fail(FtpError::ParamMissing)),
        ftp_step(s, "REST"@) == (s, ActionView::Fail(FtpError::ParamMissing)),
        ftp_step(s, "DELE"@) == (s, ActionView::Fail(FtpError::ParamMissing)),
        ftp_step(s, "OPTS"@) == (s, ActionView::Fail(FtpError::ParamMissing)),
{
    lemma_words();
    lemma_request_word("USER"@);
    lemma_request_word("PASS"@);
    lemma_request_word("TYPE"@);
    lemma_request_word("PORT"@);
    lemma_request_word("CWD"@);
    lemma_request_word("RETR"@);
    lemma_request_word("STOR"@);
    lemma_request_word("REST"@);
    lemma_request_word("DELE"@);
    lemma_request_word("OPTS"@);
}

/// `CWD ..` does what `CDUP` does.
pub proof fn lemma_cwd_up_is_cdup(s: SessionView)
    ensures
        ftp_step(s, "CWD .."@) == ftp_step(s, "CDUP"@),
{
    lemma_words();
    reveal_strlit("CWD ..");
    reveal_strlit("..");
    assert("CWD .."@ =~= "CWD "@ + ".."@) by {
        reveal_strlit("CWD ");
    }
    reveal_strlit("CWD ");
    lemma_word_request("CWD "@, "CWD"@, ".."@);
    lemma_request_word("CDUP"@);
}

/// `CWD target` (other than `..`) changes nothing yet and asks the caller
/// to check a directory: for an absolute target, the target (without its
/// leading `/`) under the base directory, shown as the target itself; for a
/// relative one, the target under the current real directory, shown after
/// the current virtual directory (without its trailing `/`s) and a `/`.
pub proof fn lemma_cwd_asks_check(s: SessionView, target: Seq<char>)
    requires
        target != ".."@,
    ensures
        target.len() > 0 && target[0] == '/' ==> ftp_step(s, "CWD "@ + target) == (
            s,
            ActionView::CheckDir(path_join(s.server.base_dir, target.drop_first()), target),
        ),
        !(target.len() > 0 && target[0] == '/') ==> ftp_step(s, "CWD "@ + target) == (
            s,
            ActionView::CheckDir(
                path_join(s.real_dir, target),
                crate::text::drop_trailing(s.virtual_dir, |c: char| c == '/') + "/"@ + target,
            ),
        ),
{
    lemma_words();
    reveal_strlit("CWD ");
    reveal_strlit("/");
    lemma_word_request("CWD "@, "CWD"@, target);
    assert(seq!['/'] =~= "/"@);
}

/// `DELE path` asks to remove `path` under the base directory, with its
/// leading `/` and `\` dropped; the session is unchanged.
pub proof fn lemma_dele_under_base(s: SessionView, path: Seq<char>)
    ensures
        ftp_step(s, "DELE "@ + path) == (s, ActionView::Delete(
            path_join(s.server.base_dir, crate::text::drop_leading(path, |c: char| c == '/' || c == '\\')),
        )),
{
    lemma_words();
    reveal_strlit("DELE ");
    lemma_word_request("DELE "@, "DELE"@, path);
}

/// `TYPE A` and `TYPE I` set the transfer type and confirm it; any other
/// type is refused with 504 and changes nothing.
pub proof fn lemma_type_replies(s: SessionView, other: Seq<char>)
    requires
        other != "A"@,
        other != "I"@,
    ensures
        ftp_step(s, "TYPE A"@) == (SessionView { transfer_type: TransferType::Ascii, ..s }, ActionView::Reply(
            "200 Type set to A\r\n"@,
        )),
        ftp_step(s, "TYPE I"@) == (SessionView { transfer_type: TransferType::Binary, ..s }, ActionView::Reply(
            "200 Type set to I\r\n"@,
        )),
        ftp_step(s, "TYPE "@ + other) == (s, ActionView::Reply(
            "504 Command not implemented for that parameter\r\n"@,
        )),
{
    lemma_words();
    reveal_strlit("TYPE ");
    reveal_strlit("TYPE A");
    reveal_strlit("TYPE I");
    reveal_strlit("A");
    reveal_strlit("I");
    assert("TYPE A"@ =~= "TYPE "@ + "A"@);
    assert("TYPE I"@ =~= "TYPE "@ + "I"@);
    lemma_word_request("TYPE "@, "TYPE"@, "A"@);
    lemma_word_request("TYPE "@, "TYPE"@, "I"@);
    lemma_word_request("TYPE "@, "TYPE"@, other);
    assert("I"@ != "A"@) by {
        assert("I"@[0] != "A"@[0]);
    }
}

/// `PORT` with the four address octets and the port's two bytes asks to
/// listen at that address and port; a parameter without six
/// comma-separated fields ends the session with `UnexpectedOctets`. The
/// session is unchanged either way.
pub proof fn lemma_port(s: SessionView, o: (u8, u8, u8, u8), port: u16, bad: Seq<char>)
    requires
        crate::text::split_on(bad, ',').len() != 6,
    ensures
        ftp_step(s, "PORT "@ + crate::ftp::address_params(o, port)) == (s, ActionView::Active(
            dec(o.0 as nat) + "."@ + dec(o.1 as nat) + "."@ + dec(o.2 as nat) + "."@ + dec(o.3 as nat)
                + ":"@ + dec(port as nat),
        )),
        ftp_step(s, "PORT "@ + bad) == (s, ActionView::Fail(FtpError::UnexpectedOctets)),
{
    lemma_words();
    reveal_strlit("PORT ");
    lemma_word_request("PORT "@, "PORT"@, crate::ftp::address_params(o, port));
    lemma_word_request("PORT "@, "PORT"@, bad);
    crate::ftp::lemma_pasv_port_roundtrip(o, port);
}

/// `REST` with text that is not a number ends the session with the
/// number's parse error and changes nothing.
pub proof fn lemma_rest_not_a_number(s: SessionView, o: Seq<char>)
    requires
        parse_uint(o, 18446744073709551615) is None,
    ensures
        ftp_step(s, "REST "@ + o) == (s, ActionView::Fail(FtpError::BadOffset(int_error(o)))),
{
    lemma_words();
    reveal_strlit("REST ");
    lemma_word_request("REST "@, "REST"@, o);
}

/// The commands that only answer: `SYST`, `FEAT`, `PWD` (the virtual
/// directory), `PASV` (asks for a passive listener), `APPE` (appends the next
/// upload), and `OPTS`; none of them changes the directories, the login or
/// the transfer type.
pub proof fn lemma_answers(s: SessionView, opt: Seq<char>)
    requires
        opt != "REST STOR"@,
    ensures
        ftp_step(s, "SYST"@) == (s, ActionView::Reply("215 UNIX Type: L8\r\n"@)),
        ftp_step(s, "FEAT"@) == (s, ActionView::Reply("211 Features:\r\nUTF8\r\n211 End\r\n"@)),
        ftp_step(s, "PWD"@) == (s, ActionView::Reply(
            "257 \""@ + s.virtual_dir + "\" is the current directory.\r\n"@,
        )),
        ftp_step(s, "PASV"@) == (s, ActionView::Passive),
        ftp_step(s, "APPE"@) == (SessionView {
            transfer_opts: Some(TransferOptions { offset: None, append: true }),
            ..s
        }, ActionView::Reply("350 Restarting at specified offset\r\n"@)),
        ftp_step(s, "OPTS REST STOR"@) == (s, ActionView::Reply(
            "200 Resuming file uploads supported\r\n"@,
        )),
        ftp_step(s, "OPTS "@ + opt) == (s, ActionView::Reply("502 Command not implemented.\r\n"@)),
{
    lemma_words();
    lemma_request_word("SYST"@);
    lemma_request_word("FEAT"@);
    lemma_request_word("PWD"@);
    lemma_request_word("PASV"@);
    lemma_request_word("APPE"@);
    reveal_strlit("OPTS ");
    reveal_strlit("OPTS REST STOR");
    reveal_strlit("REST STOR");
    assert("OPTS REST STOR"@ =~= "OPTS "@ + "REST STOR"@);
    lemma_word_request("OPTS "@, "OPTS"@, "REST STOR"@);
    lemma_word_request("OPTS "@, "OPTS"@, opt);
}

/// A command word the server does not know is answered with 502 and
/// changes nothing, whatever its parameter.
pub proof fn lemma_unknown_command(s: SessionView, word: Seq<char>, param: Seq<char>)
    requires
        !word.contains(' '),
        word != "USER"@ && word != "PASS"@ && word != "SYST"@ && word != "FEAT"@ && word != "PWD"@
            && word != "TYPE"@ && word != "PASV"@ && word != "PORT"@ && word != "LIST"@ && word
            != "CWD"@ && word != "CDUP"@ && word != "RETR"@ && word != "STOR"@ && word != "REST"@
            && word != "APPE"@ && word != "DELE"@ && word != "OPTS"@,
    ensures
        ftp_step(s, word) == (s, ActionView::Reply("502 Command not implemented.\r\n"@)),
        ftp_step(s, word + " "@ + param) == (s, ActionView::Reply("502 Command not implemented.\r\n"@)),
{
    lemma_request_word(word);
    reveal_strlit(" ");
    assert(word + " "@ + param =~= word + seq![' '] + param);
    lemma_request_parts(word, param);
}

/// `APPE` makes the next `RETR` start at the beginning of the file, and the
/// next upload append.
pub proof fn lemma_appe_retr(s: SessionView)
    ensures
        retr_offset(ftp_step(s, "APPE"@).0) is None,
        ftp_step(s, "APPE"@).0.transfer_opts matches Some(o) && o.append,
{
    lemma_words();
    lemma_request_word("APPE"@);
}

/// `CDUP` at the root refuses and changes nothing; elsewhere it moves the
/// real directory to its parent (the base directory when it has none) and
/// the virtual directory to its parent (`/` when it has none).
pub proof fn lemma_cdup(s: SessionView)
    ensures
        s.virtual_dir == "/"@ ==> ftp_step(s, "CDUP"@) == (s, ActionView::Reply(
            "550 Already at the root directory\r\n"@,
        )),
        s.virtual_dir != "/"@ ==> ftp_step(s, "CDUP"@) == (SessionView {
            real_dir: match crate::ftp::path_parent(s.real_dir) {
                Some(p) => p,
                None => s.server.base_dir,
            },
            virtual_dir: match crate::ftp::path_parent(s.virtual_dir) {
                Some(p) => p,
                None => "/"@,
            },
            ..s
        }, ActionView::Reply("250 Directory successfully changed\r\n"@)),
{
    lemma_words();
    lemma_request_word("CDUP"@);
}

/// With a data listener waiting, `LIST` takes it and asks for the listing
/// with its three replies (opening, done, and the accept failure).
pub proof fn lemma_list_replies(s: SessionView)
    requires
        s.data_ready,
    ensures
        ftp_step(s, "LIST"@) == (SessionView { data_ready: false, ..s }, ActionView::List(
            "150 Sending directory list\r\n"@,
            "226 Directory send OK\r\n"@,
            "425 Failed to accept a connection on the data socket\r\n"@,
        )),
{
    lemma_words();
    lemma_request_word("LIST"@);
}

} // verus!
