//! Log-frame server logic: frames formatted as `init^cmd^data^endData^close`
//! are recognised, parsed and turned into the log entries to record, and the
//! WebSocket server's registry of connected clients is kept.

use vstd::prelude::*;
use crate::text::{
    chars_of, dec, eq_str, has_prefix, is_ascii_text, is_first, lemma_split_on_concat, lemma_split_on_no_sep,
    push_dec, push_str, split_chars, split_on, split_once_chars, string_of, trim, trim_str,
};
use dyn_fmt::AsStrFormatExt;

verus! {

// ---------------------------------------------------------------------------
// Trusted items
// ---------------------------------------------------------------------------

/// The frame error `dyn_fmt` gives for the template
/// ``Malformed frame str: found `{}` instead of `{}` ``: each `{}` replaced by
/// the arguments in order.
pub open spec fn field_error(found: Seq<char>, expected: Seq<char>) -> Seq<char> {
    "Malformed frame str: found `"@ + found + "` instead of `"@ + expected + "`"@
}

/// Calls `dyn_fmt::AsStrFormatExt::format` on the frame-error template with
/// two string arguments, which (as its documentation says) replaces the
/// template's `{}`s by the arguments in the order given.
#[verifier::external_body]
fn format_two(template: &str, first: &str, second: &str) -> (r: String)
    requires
        template@ == field_error_template(),
    ensures
        r@ == field_error(first@, second@),
{
    template.format(&[first, second])
}

/// What `str::to_uppercase` returns for text that is not all ASCII
/// (Unicode upper-case mapping).
pub uninterp spec fn to_upper(s: Seq<char>) -> Seq<char>;

/// The upper-case form of an ASCII character.
pub open spec fn ascii_upper(c: char) -> char {
    if 'a' <= c && c <= 'z' {
        ((c as u32) - 32) as char
    } else {
        c
    }
}

/// `str::to_uppercase`: ASCII text is raised character by character
/// (`a`-`z` become `A`-`Z`, everything else stays), as the Unicode
/// upper-case mapping does for ASCII; other text is what `to_upper` names.
pub open spec fn uppercase(s: Seq<char>) -> Seq<char> {
    if is_ascii_text(s) {
        s.map_values(|c: char| ascii_upper(c))
    } else {
        to_upper(s)
    }
}

/// Calls `str::to_uppercase`; the contract is `uppercase`, which states the
/// ASCII case and only names the rest.
#[verifier::external_body]
pub(crate) fn upper(s: &str) -> (r: String)
    ensures
        r@ == uppercase(s@),
        !is_ascii_text(s@) ==> r@ == to_upper(s@),
{
    s.to_uppercase()
}

/// What `String::from_utf8_lossy` gives for bytes that are not all ASCII
/// (invalid sequences replaced by U+FFFD).
pub uninterp spec fn utf8_lossy(b: Seq<u8>) -> Seq<char>;

/// The bytes are all ASCII.
pub open spec fn is_ascii_bytes(b: Seq<u8>) -> bool {
    forall|i: int| 0 <= i < b.len() ==> b[i] < 128
}

/// `String::from_utf8_lossy`: valid UTF-8 comes back as it is, so ASCII
/// bytes give one character each; other bytes give what `utf8_lossy` names.
pub open spec fn lossy_text_of(b: Seq<u8>) -> Seq<char> {
    if is_ascii_bytes(b) {
        b.map_values(|x: u8| x as char)
    } else {
        utf8_lossy(b)
    }
}

/// Calls `String::from_utf8_lossy`; the contract is `lossy_text_of`, which
/// states the ASCII case and only names the rest.
#[verifier::external_body]
fn lossy_text(b: &[u8]) -> (r: String)
    ensures
        r@ == lossy_text_of(b@),
        !is_ascii_bytes(b@) ==> r@ == utf8_lossy(b@),
{
    String::from_utf8_lossy(b).into_owned()
}

/// A fresh connection id: `uuid::Uuid::new_v4()` as its 128-bit value.
/// Nothing is promised of the value, which is random.
#[verifier::external_body]
fn new_conn_id() -> (id: u128) {
    uuid::Uuid::new_v4().as_u128()
}

// ---------------------------------------------------------------------------
// Settings
// ---------------------------------------------------------------------------

/// Where the log-frame server listens, read from `settings.yaml`.
pub struct Settings {
    pub host: String,
    pub port: u16,
}

// ---------------------------------------------------------------------------
// Frames
// ---------------------------------------------------------------------------

/// A parsed log frame.
pub struct Frame {
    pub cmd: String,
    pub data: String,
}

/// The error template used for a field that does not hold its fixed word.
pub open spec fn field_error_template() -> Seq<char> {
    "Malformed frame str: found `{}` instead of `{}`"@
}

/// What parsing `s` as a log frame gives: `(cmd, data)`, or the error text.
pub open spec fn parse_frame(s: Seq<char>) -> Result<(Seq<char>, Seq<char>), Seq<char>> {
    let f = split_on(s, '^');
    if f.len() != 5 {
        Err("Malformed frame str: unexpected number of fields"@)
    } else if f[0] != "init"@ {
        Err(field_error(f[0], "init"@))
    } else if f[3] != "endData"@ {
        Err(field_error(f[3], "endData"@))
    } else if f[4] != "close"@ {
        Err(field_error(f[4], "close"@))
    } else {
        Ok((f[1], f[2]))
    }
}

/// The frame text `init^cmd^data^endData^close`.
pub open spec fn frame_text(cmd: Seq<char>, data: Seq<char>) -> Seq<char> {
    "init"@ + seq!['^'] + cmd + seq!['^'] + data + seq!['^'] + "endData"@ + seq!['^'] + "close"@
}

/// Checks that a frame field holds its fixed word.
fn check_field(field: &Vec<char>, expected: &str) -> (r: Result<(), String>)
    ensures
        r is Ok <==> field@ == expected@,
        r matches Err(e) ==> e@ == field_error(field@, expected@),
{
    if eq_str(field, expected) {
        Ok(())
    } else {
        let f = string_of(field.as_slice());
        Err(format_two("Malformed frame str: found `{}` instead of `{}`", f.as_str(), expected))
    }
}

impl Frame {
    /// Parses `str`, which should be formatted as `init^cmd^data^endData^close`.
    pub fn try_from(str: String) -> (r: Result<Frame, String>)
        ensures
            match parse_frame(str@) {
                Ok((cmd, data)) => r matches Ok(f) && f.cmd@ == cmd && f.data@ == data,
                Err(e) => r matches Err(m) && m@ == e,
            },
    {
        proof {
            reveal_strlit("Malformed frame str: found `{}` instead of `{}`");
        }
        let v = chars_of(str.as_str());
        let fields = split_chars(&v, '^');
        if fields.len() != 5 {
            return Err(string_of(chars_of("Malformed frame str: unexpected number of fields").as_slice()));
        }
        check_field(&fields[0], "init")?;
        check_field(&fields[3], "endData")?;
        check_field(&fields[4], "close")?;
        Ok(Frame { cmd: string_of(fields[1].as_slice()), data: string_of(fields[2].as_slice()) })
    }
}

/// A frame text whose command and data hold no `^` parses back into them.
pub proof fn lemma_frame_roundtrip(cmd: Seq<char>, data: Seq<char>)
    requires
        !cmd.contains('^'),
        !data.contains('^'),
    ensures
        parse_frame(frame_text(cmd, data)) == Ok::<(Seq<char>, Seq<char>), Seq<char>>((cmd, data)),
{
    reveal_strlit("init");
    reveal_strlit("endData");
    reveal_strlit("close");
    let i = "init"@;
    let e = "endData"@;
    let c = "close"@;
    assert(!i.contains('^')) by {
        if i.contains('^') {
            let k = choose|k: int| 0 <= k < i.len() && i[k] == '^';
            assert(i[k] == '^');
        }
    }
    assert(!e.contains('^')) by {
        if e.contains('^') {
            let k = choose|k: int| 0 <= k < e.len() && e[k] == '^';
            assert(e[k] == '^');
        }
    }
    assert(!c.contains('^')) by {
        if c.contains('^') {
            let k = choose|k: int| 0 <= k < c.len() && c[k] == '^';
            assert(c[k] == '^');
        }
    }
    lemma_split_on_no_sep(i, '^');
    lemma_split_on_no_sep(cmd, '^');
    lemma_split_on_no_sep(data, '^');
    lemma_split_on_no_sep(e, '^');
    lemma_split_on_no_sep(c, '^');
    let s4 = e + seq!['^'] + c;
    lemma_split_on_concat(e, '^', c);
    let s3 = data + seq!['^'] + s4;
    lemma_split_on_concat(data, '^', s4);
    let s2 = cmd + seq!['^'] + s3;
    lemma_split_on_concat(cmd, '^', s3);
    let s1 = i + seq!['^'] + s2;
    lemma_split_on_concat(i, '^', s2);
    assert(frame_text(cmd, data) =~= s1);
    assert(split_on(s1, '^') =~= seq![i, cmd, data, e, c]);
}

/// `msg` begins a log frame: its text before the first `^` is `init`.
pub fn has_init(msg: &str) -> (r: bool)
    ensures
        r == has_prefix(msg@, "init^"@),
{
    proof {
        reveal_strlit("init^");
        reveal_strlit("init");
    }
    let v = chars_of(msg);
    let (head, rest) = split_once_chars(&v, '^');
    let r = rest.is_some() && eq_str(&head, "init");
    proof {
        let p = "init^"@;
        if r {
            let k = choose|k: int| is_first(v@, '^', k);
            assert(head@ == v@.take(k));
            assert(k == 4);
            assert(v@.take(5) =~= p);
        }
        if has_prefix(v@, p) {
            assert(v@.take(5)[4] == p[4]);
            assert(v@[4] == '^');
            assert(is_first(v@, '^', 4)) by {
                assert forall|j: int| 0 <= j < 4 implies v@[j] != '^' by {
                    assert(v@[j] == p[j]);
                }
            }
            assert(forall|k: int| is_first(v@, '^', k) ==> k == 4);
            assert(head@ =~= "init"@);
        }
    }
    r
}

/// The trimmed text of a received message, when it begins a log frame.
pub fn frame_candidate(text: &str) -> (r: Option<String>)
    ensures
        r is Some == has_prefix(trim(text@), "init^"@),
        r matches Some(m) ==> m@ == trim(text@),
{
    let msg = trim_str(text);
    if has_init(msg.as_str()) {
        Some(msg)
    } else {
        None
    }
}

/// The log frame a UDP datagram carries: its bytes read as text (invalid
/// UTF-8 replaced), trimmed, when that begins a log frame.
pub fn datagram_frame(bytes: &[u8]) -> (r: Option<String>)
    ensures
        r is Some == has_prefix(trim(lossy_text_of(bytes@)), "init^"@),
        r matches Some(m) ==> m@ == trim(lossy_text_of(bytes@)),
{
    let text = lossy_text(bytes);
    frame_candidate(text.as_str())
}

// ---------------------------------------------------------------------------
// Servers and clients
// ---------------------------------------------------------------------------

/// The server a message came in on.
#[derive(PartialEq, Eq, Structural, Clone, Copy)]
pub enum ServerOrigin {
    TcpWs,
    Udp,
}

/// The name of a server origin.
pub open spec fn origin_name(o: ServerOrigin) -> Seq<char> {
    match o {
        ServerOrigin::TcpWs => "TCP WS"@,
        ServerOrigin::Udp => "UDP"@,
    }
}

impl ServerOrigin {
    /// Reads a server origin from its name.
    pub fn from_str(str: &str) -> (r: Result<ServerOrigin, String>)
        ensures
            str@ == "TCP WS"@ ==> r == Ok::<ServerOrigin, String>(ServerOrigin::TcpWs),
            str@ == "UDP"@ ==> r == Ok::<ServerOrigin, String>(ServerOrigin::Udp),
            str@ != "TCP WS"@ && str@ != "UDP"@ ==> (r matches Err(e) && e@
                == "Cannot convert str to ServerOrigin"@),
    {
        proof {
            lemma_origin_roundtrip(ServerOrigin::Udp);
        }
        let v = chars_of(str);
        if eq_str(&v, "TCP WS") {
            Ok(ServerOrigin::TcpWs)
        } else if eq_str(&v, "UDP") {
            Ok(ServerOrigin::Udp)
        } else {
            Err(string_of(chars_of("Cannot convert str to ServerOrigin").as_slice()))
        }
    }

    /// The name of the server origin.
    pub fn to_string(&self) -> (r: String)
        ensures
            r@ == origin_name(*self),
    {
        match self {
            ServerOrigin::TcpWs => string_of(chars_of("TCP WS").as_slice()),
            ServerOrigin::Udp => string_of(chars_of("UDP").as_slice()),
        }
    }
}

/// Reading back the name of a server origin gives the origin.
pub proof fn lemma_origin_roundtrip(o: ServerOrigin)
    ensures
        origin_name(o) == "TCP WS"@ <==> o == ServerOrigin::TcpWs,
        origin_name(o) == "UDP"@ <==> o == ServerOrigin::Udp,
{
    reveal_strlit("TCP WS");
    reveal_strlit("UDP");
    assert("TCP WS"@ != "UDP"@) by {
        assert("TCP WS"@.len() != "UDP"@.len());
    }
}

/// The ip and port of an incoming connection.
#[derive(Clone)]
pub struct ClientInfo {
    ip: String,
    port: u16,
}

impl ClientInfo {
    /// Client information from the text of the peer's ip and its port.
    pub fn new(ip: String, port: u16) -> (r: ClientInfo)
        ensures
            r.spec_ip() == ip@,
            r.spec_port() == port,
    {
        ClientInfo { ip, port }
    }

    pub closed spec fn spec_ip(&self) -> Seq<char> {
        self.ip@
    }

    pub closed spec fn spec_port(&self) -> u16 {
        self.port
    }

    /// The text of the peer's ip.
    pub fn ip(&self) -> (r: String)
        ensures
            r@ == self.spec_ip(),
    {
        self.ip.clone()
    }

    /// The peer's port.
    pub fn port(&self) -> (r: u16)
        ensures
            r == self.spec_port(),
    {
        self.port
    }
}

// ---------------------------------------------------------------------------
// Log entries
// ---------------------------------------------------------------------------

/// Severity of a log entry.
#[derive(PartialEq, Eq, Structural, Clone, Copy, Debug)]
pub enum LogLevel {
    Trace,
    Debug,
    Info,
    Warn,
    Error,
}

/// Where a log entry goes: the console (`backend`) or the log file
/// (`backend-file`).
#[derive(PartialEq, Eq, Structural, Clone, Copy, Debug)]
pub enum LogTarget {
    Backend,
    BackendFile,
}

/// A log entry to record.
pub struct LogEntry {
    pub target: LogTarget,
    pub level: LogLevel,
    pub message: String,
}

/// The level that an upper-cased frame command selects.
pub open spec fn level_for(upper: Seq<char>) -> LogLevel {
    if upper == "DEBUG"@ {
        LogLevel::Debug
    } else if upper == "INFO"@ {
        LogLevel::Info
    } else if upper == "WARN"@ {
        LogLevel::Warn
    } else if upper == "ERROR"@ {
        LogLevel::Error
    } else {
        LogLevel::Trace
    }
}

/// The level that an upper-cased frame command selects.
pub fn level_of(upper: &str) -> (r: LogLevel)
    ensures
        r == level_for(upper@),
{
    let v = chars_of(upper);
    if eq_str(&v, "DEBUG") {
        LogLevel::Debug
    } else if eq_str(&v, "INFO") {
        LogLevel::Info
    } else if eq_str(&v, "WARN") {
        LogLevel::Warn
    } else if eq_str(&v, "ERROR") {
        LogLevel::Error
    } else {
        LogLevel::Trace
    }
}

/// The message logged for a frame received from `ip:port` on the `origin`
/// server.
pub open spec fn origin_frame_message(
    ip: Seq<char>,
    port: u16,
    origin: Seq<char>,
    cmd: Seq<char>,
    data: Seq<char>,
) -> Seq<char> {
    "Received frame from "@ + ip + ":"@ + dec(port as nat) + " on "@ + origin + " server [ cmd: "@
        + cmd + ", data: "@ + data + " ]"@
}

/// The message the WebSocket server logs for a frame received from `ip:port`.
pub open spec fn ws_frame_message(ip: Seq<char>, port: u16, cmd: Seq<char>, data: Seq<char>) -> Seq<
    char,
> {
    "Received frame from "@ + ip + ":"@ + dec(port as nat) + " [ cmd: "@ + cmd + ", data: "@ + data
        + " ]"@
}

/// The entry that handling a frame records: on a well-formed frame, the
/// message at the level its command selects, into the log file; otherwise the
/// parse error, at error level, on the console.
pub open spec fn frame_entry_ok(e: LogEntry, frame: Seq<char>, message: Seq<char>) -> bool {
    match parse_frame(frame) {
        Ok((cmd, data)) => {
            &&& e.target == LogTarget::BackendFile
            &&& e.level == level_for(uppercase(cmd))
            &&& e.message@ == message
        },
        Err(err) => {
            &&& e.target == LogTarget::Backend
            &&& e.level == LogLevel::Error
            &&& e.message@ == err
        },
    }
}

/// The entry recorded for the frame `init^cmd^data^endData^close` goes to
/// the log file with the given message, at the level the command names
/// case-insensitively: `debug`, `info`, `warn` and `error` each select their
/// own level, any other command selects trace.
pub proof fn lemma_frame_entry_level(e: LogEntry, cmd: Seq<char>, data: Seq<char>, message: Seq<char>)
    requires
        !cmd.contains('^'),
        !data.contains('^'),
        frame_entry_ok(e, frame_text(cmd, data), message),
    ensures
        e.target == LogTarget::BackendFile,
        e.message@ == message,
        uppercase(cmd) == "DEBUG"@ ==> e.level == LogLevel::Debug,
        uppercase(cmd) == "INFO"@ ==> e.level == LogLevel::Info,
        uppercase(cmd) == "WARN"@ ==> e.level == LogLevel::Warn,
        uppercase(cmd) == "ERROR"@ ==> e.level == LogLevel::Error,
        uppercase(cmd) != "DEBUG"@ && uppercase(cmd) != "INFO"@ && uppercase(cmd) != "WARN"@
            && uppercase(cmd) != "ERROR"@ ==> e.level == LogLevel::Trace,
{
    lemma_frame_roundtrip(cmd, data);
    lemma_level_names();
}

/// Upper-casing ASCII text keeps its length, raises `a`-`z` to `A`-`Z`
/// and keeps every other character.
pub proof fn lemma_uppercase_ascii(s: Seq<char>)
    requires
        is_ascii_text(s),
    ensures
        uppercase(s).len() == s.len(),
        forall|i: int|
            0 <= i < s.len() && 'a' <= s[i] && s[i] <= 'z' ==> (#[trigger] uppercase(s)[i]) as u32
                == s[i] as u32 - 32,
        forall|i: int|
            0 <= i < s.len() && !('a' <= s[i] && s[i] <= 'z') ==> #[trigger] uppercase(s)[i]
                == s[i],
{
}

/// The frame `init^cmd^data^endData^close` is logged by the UDP and TCP
/// servers as received from the client on that server (named `UDP` or
/// `TCP WS`), naming its command and data.
pub proof fn lemma_frame_message(ip: Seq<char>, port: u16, o: ServerOrigin, cmd: Seq<char>, data: Seq<char>)
    requires
        !cmd.contains('^'),
        !data.contains('^'),
    ensures
        frame_parts(frame_text(cmd, data)) == (cmd, data),
        origin_frame_message(ip, port, origin_name(o), cmd, data) == "Received frame from "@ + ip
            + ":"@ + dec(port as nat) + " on "@ + origin_name(o) + " server [ cmd: "@ + cmd
            + ", data: "@ + data + " ]"@,
        origin_name(ServerOrigin::Udp) == "UDP"@,
        origin_name(ServerOrigin::TcpWs) == "TCP WS"@,
{
    lemma_frame_roundtrip(cmd, data);
}

/// Each level name, in upper case, selects its own level.
pub proof fn lemma_level_names()
    ensures
        level_for("DEBUG"@) == LogLevel::Debug,
        level_for("INFO"@) == LogLevel::Info,
        level_for("WARN"@) == LogLevel::Warn,
        level_for("ERROR"@) == LogLevel::Error,
{
    reveal_strlit("DEBUG");
    reveal_strlit("INFO");
    reveal_strlit("WARN");
    reveal_strlit("ERROR");
    assert("INFO"@ != "DEBUG"@) by {
        assert("INFO"@[0] != "DEBUG"@[0]);
    }
    assert("WARN"@ != "DEBUG"@ && "WARN"@ != "INFO"@) by {
        assert("WARN"@[0] != "DEBUG"@[0] && "WARN"@[0] != "INFO"@[0]);
    }
    assert("ERROR"@ != "DEBUG"@ && "ERROR"@ != "INFO"@ && "ERROR"@ != "WARN"@) by {
        assert("ERROR"@[0] != "DEBUG"@[0] && "ERROR"@[0] != "INFO"@[0] && "ERROR"@[0]
            != "WARN"@[0]);
    }
}

/// A frame that does not split into five `^`-separated fields is recorded
/// on the console at error level, with the field-count error.
pub proof fn lemma_frame_entry_bad_count(e: LogEntry, frame: Seq<char>, message: Seq<char>)
    requires
        split_on(frame, '^').len() != 5,
        frame_entry_ok(e, frame, message),
    ensures
        e.target == LogTarget::Backend,
        e.level == LogLevel::Error,
        e.message@ == "Malformed frame str: unexpected number of fields"@,
{
}

/// The `(cmd, data)` of a well-formed frame, or empty texts.
pub open spec fn frame_parts(frame: Seq<char>) -> (Seq<char>, Seq<char>) {
    match parse_frame(frame) {
        Ok(p) => p,
        Err(_) => (Seq::<char>::empty(), Seq::<char>::empty()),
    }
}

/// The log entry for a frame sent by `client` to the `server_origin` server:
/// checks whether it is a valid log frame, and if so gives the entry to write
/// to the log file; otherwise the error to print.
pub fn handle_frame(client: ClientInfo, frame: String, server_origin: ServerOrigin) -> (r: LogEntry)
    ensures
        frame_entry_ok(
            r,
            frame@,
            origin_frame_message(
                client.spec_ip(),
                client.spec_port(),
                origin_name(server_origin),
                frame_parts(frame@).0,
                frame_parts(frame@).1,
            ),
        ),
{
    match Frame::try_from(frame) {
        Ok(f) => {
            let mut m: Vec<char> = Vec::new();
            push_str(&mut m, "Received frame from ");
            push_str(&mut m, client.ip.as_str());
            push_str(&mut m, ":");
            push_dec(&mut m, client.port as u64);
            push_str(&mut m, " on ");
            let o = server_origin.to_string();
            push_str(&mut m, o.as_str());
            push_str(&mut m, " server [ cmd: ");
            push_str(&mut m, f.cmd.as_str());
            push_str(&mut m, ", data: ");
            push_str(&mut m, f.data.as_str());
            push_str(&mut m, " ]");
            let u = upper(f.cmd.as_str());
            let level = level_of(u.as_str());
            LogEntry { target: LogTarget::BackendFile, level, message: string_of(m.as_slice()) }
        },
        Err(e) => LogEntry { target: LogTarget::Backend, level: LogLevel::Error, message: e },
    }
}

// ---------------------------------------------------------------------------
// The WebSocket server's client registry
// ---------------------------------------------------------------------------

/// A message to send to one connected client.
pub struct Outgoing {
    pub to: u128,
    pub msg: String,
}

/// `out` sends `msg` to each of `ids`, in that order.
pub open spec fn sends_to(out: Seq<Outgoing>, ids: Seq<u128>, msg: Seq<char>) -> bool {
    &&& out.len() == ids.len()
    &&& forall|i: int| 0 <= i < out.len() ==> (#[trigger] out[i]).to == ids[i] && out[i].msg@ == msg
}

/// The connection ids after `id` is registered.
pub open spec fn ids_after_connect(ids: Seq<u128>, id: u128) -> Seq<u128> {
    if ids.contains(id) {
        ids
    } else {
        ids.push(id)
    }
}

/// Every id but `id`.
pub open spec fn other_than(id: u128) -> spec_fn(u128) -> bool {
    |x: u128| x != id
}

/// The connection ids after `id` is unregistered.
pub open spec fn ids_after_disconnect(ids: Seq<u128>, id: u128) -> Seq<u128> {
    ids.filter(other_than(id))
}

/// `usize` addition as `AtomicUsize::fetch_add` performs it (wrapping).
pub open spec fn count_up(n: usize) -> usize {
    if n == usize::MAX {
        0
    } else {
        (n + 1) as usize
    }
}

/// `usize` subtraction as `AtomicUsize::fetch_sub` performs it (wrapping).
pub open spec fn count_down(n: usize) -> usize {
    if n == 0 {
        usize::MAX
    } else {
        (n - 1) as usize
    }
}

/// What unregistering a client reports.
pub struct Disconnection {
    /// The connection was registered.
    pub was_registered: bool,
    /// The entry that records the disconnection.
    pub log: LogEntry,
    /// The messages to send to the clients that remain.
    pub outgoing: Vec<Outgoing>,
}

/// The ids of registry entries.
pub open spec fn ids_of<T>(v: Seq<(u128, T)>) -> Seq<u128> {
    v.map_values(|p: (u128, T)| p.0)
}

/// The WebSocket server's registry: connection ids with their message
/// transmitters, and the number of established connections. The entries
/// are kept in registration order, each id once, so that the order in which
/// a broadcast reaches the clients is a stated part of each operation (a
/// hash map's walk order is left unspecified).
pub struct Server<T> {
    sessions: Vec<(u128, T)>,
    clients_count: usize,
}

impl<T> Server<T> {
    #[verifier::type_invariant]
    spec fn registry_inv(&self) -> bool {
        &&& self.ids().no_duplicates()
        &&& self.clients_count == self.sessions.len()
    }

    /// The registered connection ids, in registration order.
    pub closed spec fn ids(&self) -> Seq<u128> {
        ids_of(self.sessions@)
    }

    /// The number of established connections.
    pub closed spec fn count(&self) -> usize {
        self.clients_count
    }

    /// The transmitter registered for `id`.
    pub closed spec fn tx_of(&self, id: u128) -> T {
        self.sessions@[self.ids().index_of(id)].1
    }

    /// An empty registry.
    pub fn new() -> (r: Self)
        ensures
            r.ids() == Seq::<u128>::empty(),
            r.count() == 0,
            r.count() == r.ids().len(),
    {
        let r = Server { sessions: Vec::new(), clients_count: 0 };
        assert(r.ids() =~= Seq::<u128>::empty());
        r
    }

    /// Index of `id` in the registry.
    fn position(&self, id: u128) -> (r: Option<usize>)
        ensures
            r is Some <==> self.ids().contains(id),
            r matches Some(i) ==> i < self.sessions.len() && self.ids()[i as int] == id,
    {
        let mut i: usize = 0;
        while i < self.sessions.len()
            invariant
                i <= self.sessions.len(),
                forall|j: int| 0 <= j < i ==> self.ids()[j] != id,
            decreases self.sessions.len() - i,
        {
            if self.sessions[i].0 == id {
                assert(self.ids()[i as int] == self.sessions@[i as int].0);
                return Some(i);
            }
            i += 1;
        }
        assert(!self.ids().contains(id));
        None
    }

    /// An id that no registered connection has: the least of `0..=n` that is
    /// free, `n` being the number of connections (one of those `n + 1`
    /// numbers is always free).
    fn fresh_id(&self) -> (r: u128)
        ensures
            !self.ids().contains(r),
    {
        let n = self.sessions.len() as u128;
        let mut c: u128 = 0;
        while c <= n
            invariant
                n == self.sessions.len(),
                c <= n + 1,
                forall|j: u128| j < c ==> self.ids().contains(j),
            decreases n + 1 - c,
        {
            if self.position(c).is_none() {
                return c;
            }
            c += 1;
        }
        proof {
            lemma_some_free(self.ids());
        }
        0
    }

    /// The transmitter of a client connection id.
    pub fn get_conn_tx(&self, conn_id: u128) -> (r: Result<&T, ()>)
        ensures
            r is Ok <==> self.ids().contains(conn_id),
            r matches Ok(t) ==> *t == self.tx_of(conn_id),
    {
        proof {
            use_type_invariant(self);
        }
        match self.position(conn_id) {
            Some(i) => {
                proof {
                    lemma_index_of_unique(self.ids(), conn_id, i as int);
                }
                Ok(&self.sessions[i].1)
            },
            None => Err(()),
        }
    }

    /// The messages that send `msg` to every registered client except `skip`.
    fn send_system_message(&self, skip: Option<u128>, msg: &str) -> (r: Vec<Outgoing>)
        ensures
            sends_to(r@, self.ids().filter(|x: u128| skip != Some(x)), msg@),
    {
        let ghost f = |x: u128| skip != Some(x);
        let mut out: Vec<Outgoing> = Vec::new();
        let mut i: usize = 0;
        assert(self.ids().take(0).filter(f) =~= Seq::<u128>::empty());
        while i < self.sessions.len()
            invariant
                i <= self.sessions.len(),
                f == (|x: u128| skip != Some(x)),
                sends_to(out@, self.ids().take(i as int).filter(f), msg@),
            decreases self.sessions.len() - i,
        {
            let id = self.sessions[i].0;
            let ghost before = self.ids().take(i as int);
            assert(self.ids().take(i + 1).drop_last() =~= before);
            assert(self.ids().take(i + 1).last() == id);
            assert(self.ids().take(i + 1).filter(f) == if f(id) {
                before.filter(f).push(id)
            } else {
                before.filter(f)
            }) by {
                reveal_with_fuel(Seq::filter, 1);
            }
            let skipped = match skip {
                Some(s) => s == id,
                None => false,
            };
            if !skipped {
                out.push(Outgoing { to: id, msg: string_of(chars_of(msg).as_slice()) });
            }
            i += 1;
        }
        assert(self.ids().take(self.sessions.len() as int) =~= self.ids());
        out
    }

    /// Registers a new connection under an id no other connection has (a
    /// random one, unless it is taken), and gives the id with the messages to
    /// send: "Someone joined" to every client registered before, then the
    /// number of connected clients to every client. The other connections
    /// keep their transmitters.
    pub fn connect(&mut self, conn_tx: T) -> (r: (u128, Vec<Outgoing>))
        ensures
            !old(self).ids().contains(r.0),
            final(self).ids() == old(self).ids().push(r.0),
            final(self).ids() == ids_after_connect(old(self).ids(), r.0),
            final(self).tx_of(r.0) == conn_tx,
            forall|id: u128|
                #![trigger old(self).tx_of(id)]
                old(self).ids().contains(id) ==> final(self).tx_of(id) == old(self).tx_of(id),
            final(self).count() == count_up(old(self).count()),
            final(self).count() == final(self).ids().len(),
            r.1.len() == old(self).ids().len() + final(self).ids().len(),
            sends_to(r.1@.take(old(self).ids().len() as int), old(self).ids(), "Someone joined"@),
            sends_to(
                r.1@.skip(old(self).ids().len() as int),
                final(self).ids(),
                "Connected clients: "@ + dec(final(self).count() as nat),
            ),
    {
        proof {
            use_type_invariant(&*self);
        }
        let ghost f = |x: u128| None::<u128> != Some(x);
        proof {
            assert(self.ids().filter(f) =~= self.ids()) by {
                lemma_filter_all(self.ids(), f);
            }
        }
        let mut out = self.send_system_message(None, "Someone joined");
        let drawn = new_conn_id();
        let id = match self.position(drawn) {
            None => drawn,
            Some(_) => self.fresh_id(),
        };
        let mut whole: Server<T> = Server::new();
        std::mem::swap(&mut whole, self);
        proof {
            use_type_invariant(&whole);
        }
        let Server { sessions: mut sessions, clients_count: c } = whole;
        assert(ids_of(sessions@) == old(self).ids());
        let ghost before = sessions@;
        sessions.push((id, conn_tx));
        let n = sessions.len();
        proof {
            assert(ids_of(sessions@) =~= old(self).ids().push(id));
            lemma_push_fresh_no_dup(old(self).ids(), id);
            lemma_index_of_unique(ids_of(sessions@), id, old(self).ids().len() as int);
            assert forall|x: u128| old(self).ids().contains(x) implies sessions@[ids_of(
                sessions@,
            ).index_of(x)].1 == before[old(self).ids().index_of(x)].1 by {
                let k = choose|k: int| 0 <= k < old(self).ids().len() && old(self).ids()[k] == x;
                lemma_index_of_unique(old(self).ids(), x, k);
                assert(ids_of(sessions@)[k] == x);
                lemma_index_of_unique(ids_of(sessions@), x, k);
            }
        }
        let count = if c == usize::MAX {
            0
        } else {
            c + 1
        };
        assert(count == n);
        *self = Server { sessions, clients_count: count };
        let mut text: Vec<char> = Vec::new();
        push_str(&mut text, "Connected clients: ");
        push_dec(&mut text, self.clients_count as u64);
        let msg = string_of(text.as_slice());
        let ghost mid = out@;
        proof {
            assert(self.ids().filter(f) =~= self.ids()) by {
                lemma_filter_all(self.ids(), f);
            }
        }
        let more = self.send_system_message(None, msg.as_str());
        let mut k: usize = 0;
        while k < more.len()
            invariant
                k <= more.len(),
                out@ == mid + more@.take(k as int),
            decreases more.len() - k,
        {
            out.push(Outgoing { to: more[k].to, msg: more[k].msg.clone() });
            k += 1;
            assert(out@ =~= mid + more@.take(k as int)) by {
                assert(more@.take(k as int) =~= more@.take(k - 1).push(more@[k - 1]));
            }
        }
        assert(more@.take(more.len() as int) =~= more@);
        assert(out@.take(mid.len() as int) =~= mid);
        assert(out@.skip(mid.len() as int) =~= more@);
        (id, out)
    }

    /// Unregisters a connection and gives the messages to send:
    /// "Someone disconnected" to every client that remains. The count of
    /// established connections drops only when the connection was
    /// registered; the others keep their transmitters.
    pub fn disconnect(&mut self, client: ClientInfo, conn_id: u128) -> (r: Disconnection)
        ensures
            r.was_registered == old(self).ids().contains(conn_id),
            final(self).ids() == ids_after_disconnect(old(self).ids(), conn_id),
            final(self).count() == (if r.was_registered {
                count_down(old(self).count())
            } else {
                old(self).count()
            }),
            final(self).count() == final(self).ids().len(),
            forall|id: u128|
                #![trigger old(self).tx_of(id)]
                final(self).ids().contains(id) ==> final(self).tx_of(id) == old(self).tx_of(id),
            r.log.target == LogTarget::Backend,
            r.log.level == LogLevel::Info,
            r.log.message@ == "Client "@ + client.spec_ip() + ":"@ + dec(client.spec_port() as nat)
                + " disconnected"@,
            sends_to(r.outgoing@, final(self).ids(), "Someone disconnected"@),
    {
        proof {
            use_type_invariant(&*self);
        }
        let mut text: Vec<char> = Vec::new();
        push_str(&mut text, "Client ");
        push_str(&mut text, client.ip.as_str());
        push_str(&mut text, ":");
        push_dec(&mut text, client.port as u64);
        push_str(&mut text, " disconnected");
        let log = LogEntry {
            target: LogTarget::Backend,
            level: LogLevel::Info,
            message: string_of(text.as_slice()),
        };
        let ghost g = |x: u128| x != conn_id;
        let pos = self.position(conn_id);
        let was_registered = match pos {
            Some(i) => {
                let mut whole: Server<T> = Server::new();
                std::mem::swap(&mut whole, self);
                proof {
                    use_type_invariant(&whole);
                }
                let Server { sessions: mut sessions, clients_count: c } = whole;
                let ghost before = sessions@;
                sessions.remove(i);
                proof {
                    let o = old(self).ids();
                    assert forall|x: u128| ids_of(sessions@).contains(x) implies sessions@[ids_of(
                        sessions@,
                    ).index_of(x)].1 == before[o.index_of(x)].1 by {
                        let k = choose|k: int|
                            0 <= k < ids_of(sessions@).len() && ids_of(sessions@)[k] == x;
                        let k2 = if k < i {
                            k
                        } else {
                            k + 1
                        };
                        assert(sessions@[k] == before[k2]);
                        assert(o[k2] == x);
                        lemma_index_of_unique(o, x, k2);
                        lemma_no_dup_remove(o, i as int);
                        assert(ids_of(sessions@) =~= o.remove(i as int));
                        lemma_index_of_unique(ids_of(sessions@), x, k);
                    }
                    assert(ids_of(sessions@) =~= o.remove(i as int));
                    lemma_filter_remove_unique(o, conn_id, i as int);
                    assert(o.remove(i as int).no_duplicates()) by {
                        assert forall|a: int, b: int|
                            0 <= a < o.remove(i as int).len() && 0 <= b < o.remove(
                                i as int,
                            ).len() && a != b implies o.remove(i as int)[a] != o.remove(
                            i as int,
                        )[b] by {
                            let a2 = if a < i {
                                a
                            } else {
                                a + 1
                            };
                            let b2 = if b < i {
                                b
                            } else {
                                b + 1
                            };
                            assert(o.remove(i as int)[a] == o[a2]);
                            assert(o.remove(i as int)[b] == o[b2]);
                        }
                    }
                }
                let count = if c == 0 {
                    usize::MAX
                } else {
                    c - 1
                };
                *self = Server { sessions, clients_count: count };
                true
            },
            None => {
                proof {
                    lemma_filter_absent(self.ids(), conn_id);
                }
                false
            },
        };
        let ghost f = |x: u128| None::<u128> != Some(x);
        proof {
            assert(self.ids().filter(f) =~= self.ids()) by {
                lemma_filter_all(self.ids(), f);
            }
        }
        let outgoing = self.send_system_message(None, "Someone disconnected");
        Disconnection { was_registered, log, outgoing }
    }

    /// The log entry for a frame sent by `client` on the WebSocket server.
    pub fn handle_frame(&self, client: ClientInfo, frame: String) -> (r: LogEntry)
        ensures
            frame_entry_ok(
                r,
                frame@,
                ws_frame_message(
                    client.spec_ip(),
                    client.spec_port(),
                    frame_parts(frame@).0,
                    frame_parts(frame@).1,
                ),
            ),
    {
        match Frame::try_from(frame) {
            Ok(f) => {
                let mut m: Vec<char> = Vec::new();
                push_str(&mut m, "Received frame from ");
                push_str(&mut m, client.ip.as_str());
                push_str(&mut m, ":");
                push_dec(&mut m, client.port as u64);
                push_str(&mut m, " [ cmd: ");
                push_str(&mut m, f.cmd.as_str());
                push_str(&mut m, ", data: ");
                push_str(&mut m, f.data.as_str());
                push_str(&mut m, " ]");
                let u = upper(f.cmd.as_str());
                let level = level_of(u.as_str());
                LogEntry { target: LogTarget::BackendFile, level, message: string_of(m.as_slice()) }
            },
            Err(e) => LogEntry { target: LogTarget::Backend, level: LogLevel::Error, message: e },
        }
    }
}

/// A sequence of `n` ids cannot hold every number of `0..=n`.
proof fn lemma_some_free(ids: Seq<u128>)
    requires
        ids.len() <= usize::MAX,
    ensures
        exists|j: u128| j <= ids.len() && !ids.contains(j),
{
    if forall|j: u128| j <= ids.len() ==> ids.contains(j) {
        lemma_all_taken(ids);
    }
}

proof fn lemma_all_taken(ids: Seq<u128>)
    requires
        ids.len() <= usize::MAX,
        forall|j: u128| j <= ids.len() ==> ids.contains(j),
    ensures
        wide_len_bound(ids),
{
    let wide = ids.map_values(|x: u128| x as int);
    let range = vstd::set_lib::set_int_range(0, ids.len() as int + 1);
    vstd::set_lib::lemma_int_range(0, ids.len() as int + 1);
    assert(range.subset_of(wide.to_set())) by {
        assert forall|i: int| range.contains(i) implies wide.to_set().contains(i) by {
            let j = i as u128;
            assert(j as int == i);
            assert(ids.contains(j));
            let k = choose|k: int| 0 <= k < ids.len() && ids[k] == j;
            assert(wide[k] == i);
        }
    }
    wide.lemma_cardinality_of_set();
    vstd::set_lib::lemma_len_subset(range, wide.to_set());
}

spec fn wide_len_bound(ids: Seq<u128>) -> bool {
    ids.len() + 1 <= ids.len()
}

proof fn lemma_no_dup_remove(o: Seq<u128>, i: int)
    requires
        o.no_duplicates(),
        0 <= i < o.len(),
    ensures
        o.remove(i).no_duplicates(),
{
    assert forall|a: int, b: int|
        0 <= a < o.remove(i).len() && 0 <= b < o.remove(i).len() && a != b implies o.remove(
        i,
    )[a] != o.remove(i)[b] by {
        let a2 = if a < i {
            a
        } else {
            a + 1
        };
        let b2 = if b < i {
            b
        } else {
            b + 1
        };
        assert(o.remove(i)[a] == o[a2]);
        assert(o.remove(i)[b] == o[b2]);
    }
}

proof fn lemma_index_of_unique(s: Seq<u128>, id: u128, i: int)
    requires
        s.no_duplicates(),
        0 <= i < s.len(),
        s[i] == id,
    ensures
        s.index_of(id) == i,
{
    assert(s.contains(id));
}

proof fn lemma_filter_all(s: Seq<u128>, f: spec_fn(u128) -> bool)
    requires
        forall|x: u128| #[trigger] f(x),
    ensures
        s.filter(f) == s,
    decreases s.len(),
{
    reveal_with_fuel(Seq::filter, 1);
    if s.len() > 0 {
        lemma_filter_all(s.drop_last(), f);
        assert(s.drop_last().push(s.last()) =~= s);
    }
}

proof fn lemma_filter_absent(s: Seq<u128>, id: u128)
    requires
        !s.contains(id),
    ensures
        s.filter(other_than(id)) == s,
    decreases s.len(),
{
    reveal_with_fuel(Seq::filter, 1);
    if s.len() > 0 {
        assert(!s.drop_last().contains(id)) by {
            if s.drop_last().contains(id) {
                let k = choose|k: int| 0 <= k < s.drop_last().len() && s.drop_last()[k] == id;
                assert(s[k] == id);
            }
        }
        lemma_filter_absent(s.drop_last(), id);
        assert(s.last() != id) by {
            assert(s[s.len() - 1] == s.last());
        }
        assert(s.drop_last().push(s.last()) =~= s);
    }
}

proof fn lemma_filter_remove_unique(s: Seq<u128>, id: u128, i: int)
    requires
        s.no_duplicates(),
        0 <= i < s.len(),
        s[i] == id,
    ensures
        s.filter(other_than(id)) == s.remove(i),
    decreases s.len(),
{
    reveal_with_fuel(Seq::filter, 1);
    if i == s.len() - 1 {
        assert(!s.drop_last().contains(id)) by {
            if s.drop_last().contains(id) {
                let k = choose|k: int| 0 <= k < s.drop_last().len() && s.drop_last()[k] == id;
                assert(s[k] == s[i]);
            }
        }
        lemma_filter_absent(s.drop_last(), id);
        assert(s.remove(i) =~= s.drop_last());
    } else {
        let t = s.drop_last();
        assert(t.no_duplicates());
        lemma_filter_remove_unique(t, id, i);
        assert(s.last() != id) by {
            assert(s[s.len() - 1] == s.last());
        }
        assert(s.remove(i) =~= t.remove(i).push(s.last()));
        assert(t.push(s.last()) =~= s);
    }
}

/// Registering a fresh connection and then unregistering it leaves the
/// registry's ids and client count as they were.
pub proof fn lemma_connect_disconnect(ids: Seq<u128>, count: usize, id: u128)
    requires
        ids.no_duplicates(),
        !ids.contains(id),
    ensures
        ids_after_disconnect(ids_after_connect(ids, id), id) == ids,
        count_down(count_up(count)) == count,
{
    lemma_disconnect_after_push(ids, id);
    assert(count_down(count_up(count)) == count) by {
        if count == usize::MAX {
            assert(count_up(count) == 0);
        } else {
            assert(count_up(count) == count + 1);
        }
    }
}

proof fn lemma_disconnect_after_push(ids: Seq<u128>, id: u128)
    requires
        ids.no_duplicates(),
        !ids.contains(id),
    ensures
        ids_after_disconnect(ids_after_connect(ids, id), id) == ids,
{
    let s = ids.push(id);
    lemma_push_fresh_no_dup(ids, id);
    lemma_filter_remove_unique(s, id, ids.len() as int);
    assert(s.remove(ids.len() as int) =~= ids);
}

proof fn lemma_push_fresh_no_dup(ids: Seq<u128>, id: u128)
    requires
        ids.no_duplicates(),
        !ids.contains(id),
    ensures
        ids.push(id).no_duplicates(),
        ids.push(id)[ids.len() as int] == id,
{
    let s = ids.push(id);
    assert forall|a: int, b: int| 0 <= a < s.len() && 0 <= b < s.len() && a != b implies s[a]
        != s[b] by {
        if a < ids.len() && b < ids.len() {
            assert(s[a] == ids[a] && s[b] == ids[b]);
        } else if a < ids.len() {
            assert(s[a] == ids[a]);
        } else if b < ids.len() {
            assert(s[b] == ids[b]);
        }
    }
}

// ---------------------------------------------------------------------------
// WebSocket sessions
// ---------------------------------------------------------------------------

/// How often a WebSocket client is pinged, in milliseconds.
pub const HEARTBEAT_INTERVAL_MS: u64 = 5000;

/// How long a WebSocket client may stay silent, in seconds.
pub const CLIENT_TIMEOUT_SECS: u64 = 10;

/// What happens on a client's WebSocket connection.
pub enum WsEvent {
    /// The client pinged.
    Ping,
    /// The client answered a ping.
    Pong,
    /// The client sent text.
    Text(String),
    /// The client sent binary data.
    Binary,
    /// The client closed the connection.
    Close,
    /// The connection failed with this error.
    StreamError(String),
    /// The connection ended.
    StreamEnd,
    /// The server has a message for the client.
    Outgoing(String),
    /// Sending a message to the client failed.
    SendFailed,
    /// The heartbeat timer fired, this long (seconds and nanoseconds) after
    /// the last ping or pong.
    Tick { since_heartbeat_secs: u64, since_heartbeat_nanos: u32 },
}

/// What the connection handler does about an event.
pub enum WsAction {
    /// Answer the ping and note the heartbeat.
    Pong,
    /// Note the heartbeat.
    Heartbeat,
    /// Hand the frame to the server.
    HandleFrame(String),
    /// Send the message to the client.
    Send(String),
    /// Ping the client.
    Ping,
    /// Record the entry and keep going.
    Log(LogEntry),
    /// Close with the client's own close reason.
    Close,
    /// Nothing to do.
    Nothing,
    /// Record the entry, if any, and close without a reason.
    Stop(Option<LogEntry>),
}

fn entry(target: LogTarget, level: LogLevel, message: String) -> (r: LogEntry)
    ensures
        r.target == target,
        r.level == level,
        r.message@ == message@,
{
    LogEntry { target, level, message }
}

/// A time of `secs` seconds and `nanos` nanoseconds (a `Duration`, so
/// `nanos` is under a second) is over the client timeout.
pub open spec fn over_timeout(secs: u64, nanos: u32) -> bool {
    secs > CLIENT_TIMEOUT_SECS || (secs == CLIENT_TIMEOUT_SECS && nanos > 0)
}

/// What a WebSocket connection handler does about an event: pings are
/// answered and pongs noted; text that forms a log frame (once trimmed) goes
/// to the server; a timer tick pings the client, unless it has been silent for
/// over `CLIENT_TIMEOUT_SECS`, which ends the connection.
pub open spec fn ws_answer(client: ClientInfo, event: WsEvent, r: WsAction) -> bool {
    match event {
        WsEvent::Ping => r is Pong,
        WsEvent::Pong => r is Heartbeat,
        WsEvent::Text(t) => if has_prefix(trim(t@), "init^"@) {
            r matches WsAction::HandleFrame(g) && g@ == trim(t@)
        } else {
            r is Nothing
        },
        WsEvent::Binary => r matches WsAction::Log(e) && e.target == LogTarget::Backend
            && e.level == LogLevel::Warn && e.message@ == "Unexpected binary message"@,
        WsEvent::Close => r is Close,
        WsEvent::StreamError(m) => r matches WsAction::Stop(Some(e)) && e.target
            == LogTarget::Backend && e.level == LogLevel::Error && e.message@ == m@,
        WsEvent::StreamEnd => r matches WsAction::Stop(None),
        WsEvent::Outgoing(m) => r matches WsAction::Send(n) && n@ == m@,
        WsEvent::SendFailed => r matches WsAction::Stop(Some(e)) && e.target
            == LogTarget::Backend && e.level == LogLevel::Debug && e.message@ == "Text to "@
            + client.spec_ip() + ":"@ + dec(client.spec_port() as nat)
            + " failed. Disconnecting..."@,
        WsEvent::Tick { since_heartbeat_secs, since_heartbeat_nanos } => if over_timeout(
            since_heartbeat_secs,
            since_heartbeat_nanos,
        ) {
            r matches WsAction::Stop(Some(e)) && e.target == LogTarget::Backend && e.level
                == LogLevel::Info && e.message@
                == "Client has not sent heartbeat in over 10s; disconnecting"@
        } else {
            r is Ping
        },
    }
}

/// The action ends the connection.
pub open spec fn ends_connection(r: WsAction) -> bool {
    r is Close || r is Stop
}

/// How a WebSocket connection handler answers an event (`ws_answer`).
pub fn ws_step(client: &ClientInfo, event: WsEvent) -> (r: WsAction)
    ensures
        ws_answer(*client, event, r),
{
    match event {
        WsEvent::Ping => WsAction::Pong,
        WsEvent::Pong => WsAction::Heartbeat,
        WsEvent::Text(t) => match frame_candidate(t.as_str()) {
            Some(f) => WsAction::HandleFrame(f),
            None => WsAction::Nothing,
        },
        WsEvent::Binary => WsAction::Log(
            entry(
                LogTarget::Backend,
                LogLevel::Warn,
                string_of(chars_of("Unexpected binary message").as_slice()),
            ),
        ),
        WsEvent::Close => WsAction::Close,
        WsEvent::StreamError(m) => WsAction::Stop(Some(entry(LogTarget::Backend, LogLevel::Error, m))),
        WsEvent::StreamEnd => WsAction::Stop(None),
        WsEvent::Outgoing(m) => WsAction::Send(m),
        WsEvent::SendFailed => {
            let mut m: Vec<char> = Vec::new();
            push_str(&mut m, "Text to ");
            push_str(&mut m, client.ip.as_str());
            push_str(&mut m, ":");
            push_dec(&mut m, client.port as u64);
            push_str(&mut m, " failed. Disconnecting...");
            WsAction::Stop(Some(entry(LogTarget::Backend, LogLevel::Debug, string_of(m.as_slice()))))
        },
        WsEvent::Tick { since_heartbeat_secs, since_heartbeat_nanos } => {
            if since_heartbeat_secs > CLIENT_TIMEOUT_SECS || (since_heartbeat_secs
                == CLIENT_TIMEOUT_SECS && since_heartbeat_nanos > 0) {
                WsAction::Stop(
                    Some(
                        entry(
                            LogTarget::Backend,
                            LogLevel::Info,
                            string_of(
                                chars_of(
                                    "Client has not sent heartbeat in over 10s; disconnecting",
                                ).as_slice(),
                            ),
                        ),
                    ),
                )
            } else {
                WsAction::Ping
            }
        },
    }
}

/// A client's WebSocket connection as its handler drives it: registered with
/// the server under the id `Server::connect` gave when it opened, answering
/// events while it is open, and unregistered exactly once, under that id,
/// when it has ended.
pub struct WsConnection {
    conn_id: u128,
    open: bool,
    registered: bool,
}

impl WsConnection {
    /// The id the connection is registered under.
    pub closed spec fn conn_id(&self) -> u128 {
        self.conn_id
    }

    /// No event has ended the connection yet.
    pub closed spec fn is_open(&self) -> bool {
        self.open
    }

    /// The connection is still registered with the server.
    pub closed spec fn is_registered(&self) -> bool {
        self.registered
    }

    /// A connection just registered under `conn_id`.
    pub fn new(conn_id: u128) -> (r: WsConnection)
        ensures
            r.conn_id() == conn_id,
            r.is_open(),
            r.is_registered(),
    {
        WsConnection { conn_id, open: true, registered: true }
    }

    /// Answers an event: while the connection is open, as `ws_step` does,
    /// and an answer that ends the connection closes it; once closed, every
    /// event is ignored.
    pub fn step(&mut self, client: &ClientInfo, event: WsEvent) -> (r: WsAction)
        ensures
            old(self).is_open() ==> ws_answer(*client, event, r),
            !old(self).is_open() ==> r is Nothing,
            final(self).is_open() == (old(self).is_open() && !ends_connection(r)),
            final(self).conn_id() == old(self).conn_id(),
            final(self).is_registered() == old(self).is_registered(),
    {
        if !self.open {
            return WsAction::Nothing;
        }
        let r = ws_step(client, event);
        match r {
            WsAction::Close | WsAction::Stop(_) => {
                self.open = false;
            },
            _ => {},
        }
        r
    }

    /// Ends the connection: the first call gives the id to unregister from
    /// the server, every later call gives nothing.
    pub fn finish(&mut self) -> (r: Option<u128>)
        ensures
            r == (if old(self).is_registered() {
                Some(old(self).conn_id())
            } else {
                None::<u128>
            }),
            !final(self).is_open(),
            !final(self).is_registered(),
            final(self).conn_id() == old(self).conn_id(),
    {
        self.open = false;
        if self.registered {
            self.registered = false;
            Some(self.conn_id)
        } else {
            None
        }
    }
}

} // verus!
