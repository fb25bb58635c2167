//! The smaller FTP server: settings, the server description, and the
//! session state machine. It accepts any login and serves `CWD`, `CDUP`,
//! `DELE`, `STOR` and the basic informational commands. The caller performs
//! the network and file-system work an action asks for and reports back
//! through the session's follow-up methods.

use vstd::prelude::*;
use crate::text::{
    int_error, int_error_of, int_error_text, IntError,
    chars_of, dec, eq_str, parse_uint, parse_uint_chars, push_dec, push_str, split_once,
    split_once_chars, string_of,
};
use crate::ftpebbles::{lemma_request_parts, lemma_request_word, lemma_word_request, lemma_words};
use crate::ftp::{
    cdup_candidate, cdup_target, cwd_candidate, cwd_target, delete_path, delete_target,
    encode_chunk, encoded, join_path, pasv_reply, pasv_reply_text, path_join, DataAddr, FtpError,
};
pub use crate::ftp::TransferType;

verus! {

// ---------------------------------------------------------------------------
// Settings
// ---------------------------------------------------------------------------

/// The server settings read from the command line.
pub struct Settings {
    pub base_dir: String,
    pub host: String,
    pub port: u16,
}

/// Why the command-line settings are refused.
#[derive(PartialEq, Eq, Structural, Clone, Copy, Debug)]
pub enum SettingsError {
    /// The port is not a `u16`; the kind of parse error.
    BadPort(IntError),
}

impl SettingsError {
    /// The error's message.
    pub fn message(&self) -> (r: String)
        ensures
            *self matches SettingsError::BadPort(k) && r@ == int_error_text(k),
    {
        match self {
            SettingsError::BadPort(k) => k.message(),
        }
    }
}

impl Settings {
    /// Builds the settings from the command-line values: the directory
    /// defaults to `C:/Users`, the host to `127.0.0.1`, the port to 21.
    pub fn new(directory: Option<String>, host: Option<String>, port: Option<String>) -> (r: Result<
        Settings,
        SettingsError,
    >)
        ensures
            (match port {
                Some(p) => parse_uint(p@, 65535) is Some,
                None => true,
            }) <==> r is Ok,
            r is Err ==> r == Err::<Settings, SettingsError>(
                SettingsError::BadPort(int_error(port.unwrap()@)),
            ),
            r matches Ok(s) ==> {
                &&& s.base_dir@ == (match directory {
                    Some(d) => d@,
                    None => "C:/Users"@,
                })
                &&& s.host@ == (match host {
                    Some(h) => h@,
                    None => "127.0.0.1"@,
                })
                &&& s.port as nat == (match port {
                    Some(p) => parse_uint(p@, 65535).unwrap(),
                    None => 21,
                })
            },
    {
        let base_dir = match directory {
            Some(d) => d,
            None => text("C:/Users"),
        };
        let host = match host {
            Some(h) => h,
            None => text("127.0.0.1"),
        };
        let port: u16 = match port {
            Some(p) => {
                let v = chars_of(p.as_str());
                match parse_uint_chars(&v, 65535) {
                    Some(n) => n as u16,
                    None => {
                        return Err(SettingsError::BadPort(int_error_of(&v)));
                    },
                }
            },
            None => 21,
        };
        Ok(Settings { base_dir, host, port })
    }
}

// ---------------------------------------------------------------------------
// The server
// ---------------------------------------------------------------------------

/// The FTP server's address and the directory it serves.
pub struct FtpServer {
    pub host: String,
    pub port: u16,
    pub base_dir: String,
}

/// The server as values.
pub struct ServerView {
    pub host: Seq<char>,
    pub port: u16,
    pub base_dir: Seq<char>,
}

impl View for FtpServer {
    type V = ServerView;

    open spec fn view(&self) -> ServerView {
        ServerView { host: self.host@, port: self.port, base_dir: self.base_dir@ }
    }
}

impl FtpServer {
    /// Describes the server; this cannot fail.
    pub fn new(host: &str, port: u16, base_dir: &str) -> (r: FtpServer)
        ensures
            r@ == (ServerView { host: host@, port, base_dir: base_dir@ }),
    {
        FtpServer { host: text(host), port, base_dir: text(base_dir) }
    }

    /// The address the server listens on: `host:port`.
    pub fn addr(&self) -> (r: String)
        ensures
            r@ == self.host@ + ":"@ + dec(self.port as nat),
    {
        let mut m: Vec<char> = Vec::new();
        push_str(&mut m, self.host.as_str());
        push_str(&mut m, ":");
        push_dec(&mut m, self.port as u64);
        string_of(m.as_slice())
    }
}

// ---------------------------------------------------------------------------
// Sessions
// ---------------------------------------------------------------------------

/// The state of one client's control connection. `data_ready` tells whether
/// a data listener is waiting to be used.
pub struct FtpSession {
    pub server: FtpServer,
    pub real_dir: String,
    pub virtual_dir: String,
    pub data_ready: bool,
    pub transfer_type: TransferType,
}

/// A session as values.
pub struct SessionView {
    pub server: ServerView,
    pub real_dir: Seq<char>,
    pub virtual_dir: Seq<char>,
    pub data_ready: bool,
    pub transfer_type: TransferType,
}

impl View for FtpSession {
    type V = SessionView;

    open spec fn view(&self) -> SessionView {
        SessionView {
            server: self.server@,
            real_dir: self.real_dir@,
            virtual_dir: self.virtual_dir@,
            data_ready: self.data_ready,
            transfer_type: self.transfer_type,
        }
    }
}

/// What the caller does after a command.
pub enum FtpAction {
    /// Send the reply.
    Reply(String),
    /// Send the reply, then end the session with the error.
    ReplyThenFail(String, FtpError),
    /// End the session with the error.
    Fail(FtpError),
    /// Open a passive data listener (see `passive_opened`).
    Passive,
    /// The data listener was taken: accept a connection and send the listing
    /// of the real directory; if no connection can be accepted, send the
    /// reply and end the session with the error.
    List(String, FtpError),
    /// Check whether the real directory exists (see `finish_cwd`), to move
    /// there and show the virtual directory.
    CheckDir(String, String),
    /// Send the file at this path.
    Retrieve(String),
}

/// An action as values.
pub enum ActionView {
    Reply(Seq<char>),
    ReplyThenFail(Seq<char>, FtpError),
    Fail(FtpError),
    Passive,
    List(Seq<char>, FtpError),
    CheckDir(Seq<char>, Seq<char>),
    Retrieve(Seq<char>),
}

impl View for FtpAction {
    type V = ActionView;

    open spec fn view(&self) -> ActionView {
        match self {
            FtpAction::Reply(s) => ActionView::Reply(s@),
            FtpAction::ReplyThenFail(s, e) => ActionView::ReplyThenFail(s@, *e),
            FtpAction::Fail(e) => ActionView::Fail(*e),
            FtpAction::Passive => ActionView::Passive,
            FtpAction::List(s, e) => ActionView::List(s@, *e),
            FtpAction::CheckDir(r, v) => ActionView::CheckDir(r@, v@),
            FtpAction::Retrieve(f) => ActionView::Retrieve(f@),
        }
    }
}

/// The replies around a `STOR` upload over the data connection.
pub struct StorePlan {
    /// Sent once the file is created.
    pub opening: String,
    /// A data listener was waiting (and is now taken).
    pub data: bool,
    /// Sent when no data listener was waiting.
    pub no_data: String,
    /// Sent when no data connection could be accepted.
    pub accept_failed: String,
    /// Sent when the upload is complete.
    pub done: String,
}

/// The command word of a request.
pub open spec fn command_of(req: Seq<char>) -> Seq<char> {
    split_once(req, ' ').0
}

/// The parameter of a request, when there is one.
pub open spec fn param_of(req: Seq<char>) -> Option<Seq<char>> {
    split_once(req, ' ').1
}

/// The reply to `CDUP`, with the new state.
pub open spec fn cdup_step(s: SessionView) -> (SessionView, Seq<char>) {
    if s.virtual_dir != "/"@ {
        let (r, v) = cdup_target(s.server.base_dir, s.real_dir, s.virtual_dir);
        (
            SessionView { real_dir: r, virtual_dir: v, ..s },
            "250 Directory successfully changed\r\n"@,
        )
    } else {
        (s, "550 Already at the root directory\r\n"@)
    }
}

/// How a session answers `CWD target`.
pub open spec fn cwd_step(s: SessionView, target: Seq<char>) -> (SessionView, ActionView) {
    if target == ".."@ {
        let (s1, m) = cdup_step(s);
        (s1, ActionView::Reply(m))
    } else {
        let (r, v) = cwd_target(s.server.base_dir, s.real_dir, s.virtual_dir, target);
        (s, ActionView::CheckDir(r, v))
    }
}

/// How a session answers a request: its next state and the action.
pub open spec fn ftp_step(s: SessionView, req: Seq<char>) -> (SessionView, ActionView) {
    let cmd = command_of(req);
    let param = param_of(req);
    let missing = (s, ActionView::Fail(FtpError::ParamMissing));
    if cmd == "USER"@ {
        (s, ActionView::Reply("331 Username okay, need password.\r\n"@))
    } else if cmd == "PASS"@ {
        (s, ActionView::Reply("230 User logged in, proceed.\r\n"@))
    } else if cmd == "SYST"@ {
        (s, ActionView::Reply("215 UNIX Type: L8\r\n"@))
    } else if cmd == "FEAT"@ {
        (s, ActionView::Reply("211 Features:\r\nUTF8\r\n211 End\r\n"@))
    } else if cmd == "PWD"@ {
        (s, ActionView::Reply("257 \""@ + s.virtual_dir + "\" is the current directory.\r\n"@))
    } else if cmd == "TYPE"@ {
        match param {
            None => missing,
            Some(m) => if m == "A"@ {
                (
                    SessionView { transfer_type: TransferType::Ascii, ..s },
                    ActionView::Reply("200 Type set to A\r\n"@),
                )
            } else if m == "I"@ {
                (
                    SessionView { transfer_type: TransferType::Binary, ..s },
                    ActionView::Reply("200 Type set to I\r\n"@),
                )
            } else {
                (s, ActionView::Reply("504 Command not implemented for that parameter\r\n"@))
            },
        }
    } else if cmd == "PASV"@ {
        (s, ActionView::Passive)
    } else if cmd == "LIST"@ {
        if s.data_ready {
            (
                SessionView { data_ready: false, ..s },
                ActionView::List(
                    "425 Failed to accept a connection on the data socket"@,
                    FtpError::DataAcceptFailed,
                ),
            )
        } else {
            (
                s,
                ActionView::ReplyThenFail(
                    "425 The data socket has not been opened"@,
                    FtpError::DataSocketNotOpen,
                ),
            )
        }
    } else if cmd == "CWD"@ {
        match param {
            None => missing,
            Some(t) => cwd_step(s, t),
        }
    } else if cmd == "RETR"@ {
        match param {
            None => missing,
            Some(f) => (s, ActionView::Retrieve(path_join(s.real_dir, f))),
        }
    } else {
        (s, ActionView::Reply("502 Command not implemented.\r\n"@))
    }
}

/// How a session finishes a `CWD` once the directory check is known.
pub open spec fn cwd_finish_step(
    s: SessionView,
    real_dir: Seq<char>,
    virtual_dir: Seq<char>,
    is_dir: bool,
) -> (SessionView, Seq<char>) {
    if is_dir {
        (
            SessionView { real_dir, virtual_dir, ..s },
            "250 Directory successfully changed.\r\n"@,
        )
    } else {
        (s, "550 Failed to change directory.\r\n"@)
    }
}

fn text(s: &str) -> (r: String)
    ensures
        r@ == s@,
{
    string_of(chars_of(s).as_slice())
}

fn reply(s: &str) -> (r: FtpAction)
    ensures
        r@ == ActionView::Reply(s@),
{
    FtpAction::Reply(text(s))
}

impl FtpSession {
    /// A new session in the given directory, in ASCII mode, with no data
    /// listener.
    pub fn new(server: FtpServer, base_dir: String) -> (r: FtpSession)
        ensures
            r@ == (SessionView {
                server: server@,
                real_dir: base_dir@,
                virtual_dir: "/"@,
                data_ready: false,
                transfer_type: TransferType::Ascii,
            }),
    {
        FtpSession {
            server,
            real_dir: base_dir,
            virtual_dir: text("/"),
            data_ready: false,
            transfer_type: TransferType::Ascii,
        }
    }

    /// Answers one request of the control connection (already trimmed).
    pub fn process_command(&mut self, request: &str) -> (r: FtpAction)
        ensures
            (final(self)@, r@) == ftp_step(old(self)@, request@),
    {
        let req = chars_of(request);
        let (command, param) = split_once_chars(&req, ' ');
        if eq_str(&command, "USER") {
            reply("331 Username okay, need password.\r\n")
        } else if eq_str(&command, "PASS") {
            reply("230 User logged in, proceed.\r\n")
        } else if eq_str(&command, "SYST") {
            reply("215 UNIX Type: L8\r\n")
        } else if eq_str(&command, "FEAT") {
            reply("211 Features:\r\nUTF8\r\n211 End\r\n")
        } else if eq_str(&command, "PWD") {
            let mut m: Vec<char> = Vec::new();
            push_str(&mut m, "257 \"");
            push_str(&mut m, self.virtual_dir.as_str());
            push_str(&mut m, "\" is the current directory.\r\n");
            FtpAction::Reply(string_of(m.as_slice()))
        } else if eq_str(&command, "TYPE") {
            match param {
                None => FtpAction::Fail(FtpError::ParamMissing),
                Some(m) => {
                    if eq_str(&m, "A") {
                        self.transfer_type = TransferType::Ascii;
                        reply("200 Type set to A\r\n")
                    } else if eq_str(&m, "I") {
                        self.transfer_type = TransferType::Binary;
                        reply("200 Type set to I\r\n")
                    } else {
                        reply("504 Command not implemented for that parameter\r\n")
                    }
                },
            }
        } else if eq_str(&command, "PASV") {
            FtpAction::Passive
        } else if eq_str(&command, "LIST") {
            if self.data_ready {
                self.data_ready = false;
                FtpAction::List(
                    text("425 Failed to accept a connection on the data socket"),
                    FtpError::DataAcceptFailed,
                )
            } else {
                FtpAction::ReplyThenFail(
                    text("425 The data socket has not been opened"),
                    FtpError::DataSocketNotOpen,
                )
            }
        } else if eq_str(&command, "CWD") {
            match param {
                None => FtpAction::Fail(FtpError::ParamMissing),
                Some(t) => {
                    let t = string_of(t.as_slice());
                    self.cwd(t.as_str())
                },
            }
        } else if eq_str(&command, "RETR") {
            match param {
                None => FtpAction::Fail(FtpError::ParamMissing),
                Some(f) => {
                    let f = string_of(f.as_slice());
                    FtpAction::Retrieve(join_path(self.real_dir.as_str(), f.as_str()))
                },
            }
        } else {
            reply("502 Command not implemented.\r\n")
        }
    }

    /// Answers `CWD target`: `..` goes up at once; any other target is
    /// checked by the caller (see `finish_cwd`).
    pub fn cwd(&mut self, target_dir: &str) -> (r: FtpAction)
        ensures
            (final(self)@, r@) == cwd_step(old(self)@, target_dir@),
    {
        let t = chars_of(target_dir);
        if eq_str(&t, "..") {
            let m = self.cdup();
            FtpAction::Reply(m)
        } else {
            let (nr, nv) = cwd_candidate(
                self.server.base_dir.as_str(),
                self.real_dir.as_str(),
                self.virtual_dir.as_str(),
                target_dir,
            );
            FtpAction::CheckDir(nr, nv)
        }
    }

    /// Goes up one directory, unless at the root; returns the reply.
    pub fn cdup(&mut self) -> (r: String)
        ensures
            (final(self)@, r@) == cdup_step(old(self)@),
    {
        let v = chars_of(self.virtual_dir.as_str());
        if !eq_str(&v, "/") {
            let (nr, nv) = cdup_candidate(
                self.server.base_dir.as_str(),
                self.real_dir.as_str(),
                self.virtual_dir.as_str(),
            );
            self.real_dir = nr;
            self.virtual_dir = nv;
            text("250 Directory successfully changed\r\n")
        } else {
            text("550 Already at the root directory\r\n")
        }
    }

    /// Finishes a `CWD` once the caller knows whether the real directory
    /// exists: the session moves there only if it does.
    pub fn finish_cwd(&mut self, real_dir: String, virtual_dir: String, is_dir: bool) -> (r: String)
        ensures
            (final(self)@, r@) == cwd_finish_step(old(self)@, real_dir@, virtual_dir@, is_dir),
    {
        if is_dir {
            self.real_dir = real_dir;
            self.virtual_dir = virtual_dir;
            text("250 Directory successfully changed.\r\n")
        } else {
            text("550 Failed to change directory.\r\n")
        }
    }

    /// The file `DELE path` removes: the path without leading `/` and `\`,
    /// under the server's base directory. The reply comes from
    /// `ftp::delete_reply`.
    pub fn delete(&self, path: &str) -> (r: String)
        ensures
            r@ == delete_target(self.server.base_dir@, path@),
    {
        delete_path(self.server.base_dir.as_str(), path)
    }

    /// The file `STOR filename` creates: the name under the real directory.
    /// Once it is created, see `stor_started`.
    pub fn stor(&self, filename: &str) -> (r: String)
        ensures
            r@ == path_join(self.real_dir@, filename@),
    {
        join_path(self.real_dir.as_str(), filename)
    }

    /// Starts a `STOR` once the file is created: the data listener is taken.
    pub fn stor_started(&mut self) -> (r: StorePlan)
        ensures
            r.data == old(self).data_ready,
            r.opening@ == "150 File status okay; about to open data connection\r\n"@,
            r.no_data@ == "425 Use PASV first\r\n"@,
            r.accept_failed@ == "425 Failed to open data connection\r\n"@,
            r.done@ == "226 Transfer complete\r\n"@,
            final(self)@ == (SessionView { data_ready: false, ..old(self)@ }),
    {
        let data = self.data_ready;
        self.data_ready = false;
        StorePlan {
            opening: text("150 File status okay; about to open data connection\r\n"),
            data,
            no_data: text("425 Use PASV first\r\n"),
            accept_failed: text("425 Failed to open data connection\r\n"),
            done: text("226 Transfer complete\r\n"),
        }
    }

    /// Records the passive data listener's local address: an IPv4 listener
    /// becomes the data listener; the reply tells the client where it is.
    pub fn passive_opened(&mut self, addr: DataAddr) -> (r: String)
        ensures
            r@ == pasv_reply_text(addr).0,
            final(self)@ == (SessionView {
                data_ready: old(self).data_ready || pasv_reply_text(addr).1,
                ..old(self)@
            }),
    {
        let (m, open) = pasv_reply(addr);
        if open {
            self.data_ready = true;
        }
        m
    }

    /// Encodes a chunk of uploaded data for the session's transfer type.
    pub fn encode(&self, chunk: &[u8]) -> (r: Vec<u8>)
        ensures
            r@ == encoded(self.transfer_type, chunk@),
    {
        encode_chunk(self.transfer_type, chunk)
    }
}

// ---------------------------------------------------------------------------
// Laws
// ---------------------------------------------------------------------------

proof fn lemma_no_space(w: Seq<char>)
    requires
        forall|i: int| 0 <= i < w.len() ==> w[i] != ' ',
    ensures
        !w.contains(' '),
{
}

/// Any login is accepted: `USER name` and `PASS secret` get their positive
/// replies and change nothing, whatever the name and secret.
pub proof fn lemma_any_login(s: SessionView, name: Seq<char>, secret: Seq<char>)
    ensures
        ftp_step(s, "USER "@ + name) == (s, ActionView::Reply(
            "331 Username okay, need password.\r\n"@,
        )),
        ftp_step(s, "PASS "@ + secret) == (s, ActionView::Reply(
            "230 User logged in, proceed.\r\n"@,
        )),
{
    reveal_strlit("USER ");
    reveal_strlit("PASS ");
    reveal_strlit("USER");
    reveal_strlit("PASS");
    let u = "USER"@;
    let p = "PASS"@;
    lemma_no_space(u);
    lemma_no_space(p);
    assert("USER "@ + name =~= u + seq![' '] + name);
    assert("PASS "@ + secret =~= p + seq![' '] + secret);
    lemma_request_parts(u, name);
    lemma_request_parts(p, secret);
    assert(p != u) by {
        assert(p[0] != u[0]);
    }
}

/// No request changes the server a session belongs to.
pub proof fn lemma_server_kept(s: SessionView, req: Seq<char>)
    ensures
        ftp_step(s, req).0.server == s.server,
{
}

/// `TYPE I` switches to binary transfers, which keep data unchanged; `TYPE A`
/// switches to ASCII transfers.
pub proof fn lemma_type(s: SessionView, data: Seq<u8>)
    ensures
        ftp_step(s, "TYPE I"@).0.transfer_type == TransferType::Binary,
        encoded(ftp_step(s, "TYPE I"@).0.transfer_type, data) == data,
        ftp_step(s, "TYPE A"@).0.transfer_type == TransferType::Ascii,
{
    reveal_strlit("TYPE I");
    reveal_strlit("TYPE A");
    reveal_strlit("TYPE");
    reveal_strlit("I");
    reveal_strlit("A");
    let t = "TYPE"@;
    lemma_no_space(t);
    assert("TYPE I"@ =~= t + seq![' '] + "I"@);
    assert("TYPE A"@ =~= t + seq![' '] + "A"@);
    lemma_request_parts(t, "I"@);
    lemma_request_parts(t, "A"@);
    reveal_strlit("USER");
    reveal_strlit("PASS");
    reveal_strlit("SYST");
    reveal_strlit("FEAT");
    reveal_strlit("PWD");
    assert(t != "USER"@ && t != "PASS"@ && t != "SYST"@ && t != "FEAT"@ && t != "PWD"@) by {
        assert(t[0] == 'T' && t.len() == 4);
        assert("PWD"@.len() == 3);
    }
    assert("I"@ != "A"@) by {
        assert("I"@[0] != "A"@[0]);
    }
}

/// After a `CWD` to an absolute directory that exists, `PWD` reports it.
pub proof fn lemma_cwd_pwd(s: SessionView, target: Seq<char>)
    requires
        target.len() > 0,
        target[0] == '/',
    ensures
        ({
            let (s1, a1) = ftp_step(s, "CWD "@ + target);
            &&& a1 matches ActionView::CheckDir(r, v)
            &&& v == target
            &&& ({
                let (s2, _) = cwd_finish_step(s1, r, v, true);
                ftp_step(s2, "PWD"@).1 == ActionView::Reply(
                    "257 \""@ + target + "\" is the current directory.\r\n"@,
                )
            })
        }),
{
    reveal_strlit("CWD ");
    reveal_strlit("CWD");
    reveal_strlit("PWD");
    reveal_strlit("..");
    let c = "CWD"@;
    lemma_no_space(c);
    lemma_no_space("PWD"@);
    assert("CWD "@ + target =~= c + seq![' '] + target);
    lemma_request_parts(c, target);
    lemma_request_word("PWD"@);
    assert(target != ".."@) by {
        assert(target[0] != ".."@[0]);
    }
    reveal_strlit("USER");
    reveal_strlit("PASS");
    reveal_strlit("SYST");
    reveal_strlit("FEAT");
    reveal_strlit("TYPE");
    reveal_strlit("PASV");
    reveal_strlit("LIST");
    assert(c != "USER"@ && c != "PASS"@ && c != "SYST"@ && c != "FEAT"@ && c != "PWD"@ && c
        != "TYPE"@ && c != "PASV"@ && c != "LIST"@) by {
        assert(c.len() == 3);
        assert(c[0] == 'C' && c[1] == 'W');
        assert("PWD"@[0] == 'P');
    }
    assert("PWD"@ != "USER"@ && "PWD"@ != "PASS"@ && "PWD"@ != "SYST"@ && "PWD"@ != "FEAT"@)
        by {
        assert("PWD"@.len() == 3);
    }
}

/// At the root, `CWD ..` refuses and changes nothing.
pub proof fn lemma_cdup_at_root(s: SessionView)
    requires
        s.virtual_dir == "/"@,
    ensures
        cwd_step(s, ".."@) == (s, ActionView::Reply("550 Already at the root directory\r\n"@)),
{
}

/// `LIST` uses up a waiting data listener; without one it replies 425 and
/// ends the session.
pub proof fn lemma_list(s: SessionView)
    ensures
        s.data_ready ==> ftp_step(s, "LIST"@).0.data_ready == false && ftp_step(s, "LIST"@).1 is List,
        !s.data_ready ==> ftp_step(s, "LIST"@) == (s, ActionView::ReplyThenFail(
            "425 The data socket has not been opened"@,
            FtpError::DataSocketNotOpen,
        )),
{
    reveal_strlit("LIST");
    lemma_no_space("LIST"@);
    lemma_request_word("LIST"@);
    reveal_strlit("USER");
    reveal_strlit("PASS");
    reveal_strlit("SYST");
    reveal_strlit("FEAT");
    reveal_strlit("PWD");
    reveal_strlit("TYPE");
    reveal_strlit("PASV");
    let w = "LIST"@;
    assert(w != "USER"@ && w != "PASS"@ && w != "SYST"@ && w != "FEAT"@ && w != "PWD"@ && w
        != "TYPE"@ && w != "PASV"@) by {
        assert(w[0] == 'L');
        assert("PWD"@.len() == 3);
    }
}

/// `RETR f` sends `f` from the session's current real directory (not the
/// base directory); the session is unchanged.
pub proof fn lemma_retr_in_current_dir(s: SessionView, f: Seq<char>)
    ensures
        ftp_step(s, "RETR "@ + f) == (s, ActionView::Retrieve(path_join(s.real_dir, f))),
{
    lemma_words();
    reveal_strlit("RETR ");
    lemma_word_request("RETR "@, "RETR"@, f);
}

/// A successful `CWD` moves the session, so a later `RETR f` sends `f` from
/// the new real directory; a failed one changes nothing.
pub proof fn lemma_cwd_then_retr(s: SessionView, dir: Seq<char>, virt: Seq<char>, f: Seq<char>)
    ensures
        ({
            let (s1, reply) = cwd_finish_step(s, dir, virt, true);
            &&& reply == "250 Directory successfully changed.\r\n"@
            &&& s1.real_dir == dir
            &&& s1.virtual_dir == virt
            &&& s1.transfer_type == s.transfer_type
            &&& s1.data_ready == s.data_ready
            &&& ftp_step(s1, "RETR "@ + f).1 == ActionView::Retrieve(path_join(dir, f))
        }),
        cwd_finish_step(s, dir, virt, false) == (s, "550 Failed to change directory.\r\n"@),
{
    lemma_retr_in_current_dir(cwd_finish_step(s, dir, virt, true).0, f);
}

/// `CWD target` (other than `..`) changes nothing yet and asks the caller
/// to check a directory: for an absolute target, the target (without its
/// leading `/`) under the base directory, shown as the target itself; for a
/// relative one, the target under the current real directory, shown after
/// the current virtual directory (without its trailing `/`s) and a `/`.
/// `CWD ..` at the root refuses and changes nothing; elsewhere it moves both
/// directories to their parents (the base directory and `/` when there is
/// none).
pub proof fn lemma_cwd(s: SessionView, target: Seq<char>)
    ensures
        target != ".."@ && target.len() > 0 && target[0] == '/' ==> ftp_step(s, "CWD "@ + target)
            == (s, ActionView::CheckDir(path_join(s.server.base_dir, target.drop_first()), target)),
        target != ".."@ && !(target.len() > 0 && target[0] == '/') ==> ftp_step(
            s,
            "CWD "@ + target,
        ) == (s, ActionView::CheckDir(
            path_join(s.real_dir, target),
            crate::text::drop_trailing(s.virtual_dir, |c: char| c == '/') + "/"@ + target,
        )),
        s.virtual_dir == "/"@ ==> ftp_step(s, "CWD .."@) == (s, ActionView::Reply(
            "550 Already at the root directory\r\n"@,
        )),
        s.virtual_dir != "/"@ ==> ftp_step(s, "CWD .."@) == (SessionView {
            real_dir: match crate::ftp::path_parent(s.real_dir) {
                Some(p) => p,
                None => s.server.base_dir,
            },
            virtual_dir: match crate::ftp::path_parent(s.virtual_dir) {
                Some(p) => p,
                None => "/"@,
            },
            ..s
        }, ActionView::Reply("250 Directory successfully changed\r\n"@)),
{
    lemma_words();
    reveal_strlit("CWD ");
    reveal_strlit("CWD ..");
    reveal_strlit("..");
    reveal_strlit("/");
    assert("CWD .."@ =~= "CWD "@ + ".."@);
    lemma_word_request("CWD "@, "CWD"@, target);
    lemma_word_request("CWD "@, "CWD"@, ".."@);
    assert(seq!['/'] =~= "/"@);
}

/// `TYPE A` and `TYPE I` set the transfer type and confirm it; any other
/// type is refused with 504 and changes nothing.
pub proof fn lemma_type_replies(s: SessionView, other: Seq<char>)
    requires
        other != "A"@,
        other != "I"@,
    ensures
        ftp_step(s, "TYPE A"@) == (SessionView { transfer_type: TransferType::Ascii, ..s }, ActionView::Reply(
            "200 Type set to A\r\n"@,
        )),
        ftp_step(s, "TYPE I"@) == (SessionView { transfer_type: TransferType::Binary, ..s }, ActionView::Reply(
            "200 Type set to I\r\n"@,
        )),
        ftp_step(s, "TYPE "@ + other) == (s, ActionView::Reply(
            "504 Command not implemented for that parameter\r\n"@,
        )),
{
    lemma_words();
    reveal_strlit("TYPE ");
    reveal_strlit("TYPE A");
    reveal_strlit("TYPE I");
    reveal_strlit("A");
    reveal_strlit("I");
    assert("TYPE A"@ =~= "TYPE "@ + "A"@);
    assert("TYPE I"@ =~= "TYPE "@ + "I"@);
    lemma_word_request("TYPE "@, "TYPE"@, "A"@);
    lemma_word_request("TYPE "@, "TYPE"@, "I"@);
    lemma_word_request("TYPE "@, "TYPE"@, other);
    assert("I"@ != "A"@) by {
        assert("I"@[0] != "A"@[0]);
    }
}

/// `TYPE`, `CWD` and `RETR` without a parameter end the session with
/// `ParamMissing` and change nothing.
pub proof fn lemma_param_missing(s: SessionView)
    ensures
        ftp_step(s, "TYPE"@) == (s, ActionView::Fail(FtpError::ParamMissing)),
        ftp_step(s, "CWD"@) == (s, ActionView::Fail(FtpError::ParamMissing)),
        ftp_step(s, "RETR"@) == (s, ActionView::Fail(FtpError::ParamMissing)),
{
    lemma_words();
    lemma_request_word("TYPE"@);
    lemma_request_word("CWD"@);
    lemma_request_word("RETR"@);
}

/// The commands that only answer: `SYST`, `FEAT`, `PWD` (the virtual
/// directory) and `PASV` (asks for a passive listener); none changes the
/// session.
pub proof fn lemma_answers(s: SessionView)
    ensures
        ftp_step(s, "SYST"@) == (s, ActionView::Reply("215 UNIX Type: L8\r\n"@)),
        ftp_step(s, "FEAT"@) == (s, ActionView::Reply("211 Features:\r\nUTF8\r\n211 End\r\n"@)),
        ftp_step(s, "PWD"@) == (s, ActionView::Reply(
            "257 \""@ + s.virtual_dir + "\" is the current directory.\r\n"@,
        )),
        ftp_step(s, "PASV"@) == (s, ActionView::Passive),
{
    lemma_words();
    lemma_request_word("SYST"@);
    lemma_request_word("FEAT"@);
    lemma_request_word("PWD"@);
    lemma_request_word("PASV"@);
}

/// A command word this server does not answer itself is answered with 502
/// and changes nothing, whatever its parameter.
pub proof fn lemma_unknown_command(s: SessionView, word: Seq<char>, param: Seq<char>)
    requires
        !word.contains(' '),
        word != "USER"@ && word != "PASS"@ && word != "SYST"@ && word != "FEAT"@ && word != "PWD"@
            && word != "TYPE"@ && word != "PASV"@ && word != "LIST"@ && word != "CWD"@ && word
            != "RETR"@,
    ensures
        ftp_step(s, word) == (s, ActionView::Reply("502 Command not implemented.\r\n"@)),
        ftp_step(s, word + " "@ + param) == (s, ActionView::Reply("502 Command not implemented.\r\n"@)),
{
    lemma_request_word(word);
    reveal_strlit(" ");
    assert(word + " "@ + param =~= word + seq![' '] + param);
    lemma_request_parts(word, param);
}

/// With a data listener waiting, `LIST` takes it and asks for the listing,
/// with the reply and error for a connection that cannot be accepted.
pub proof fn lemma_list_replies(s: SessionView)
    requires
        s.data_ready,
    ensures
        ftp_step(s, "LIST"@) == (SessionView { data_ready: false, ..s }, ActionView::List(
            "425 Failed to accept a connection on the data socket"@,
            FtpError::DataAcceptFailed,
        )),
{
    lemma_words();
    lemma_request_word("LIST"@);
}

} // verus!
