//! FTP logic shared by both FTP servers: transfer encodings, path handling
//! for `CWD`/`CDUP`/`DELE`, the passive and active data-connection replies,
//! and directory-listing lines.

use vstd::prelude::*;
use crate::text::{
    int_error_text, IntError,
    all_digits, chars_of, dec, drop_leading, drop_trailing, lemma_dec_digits, lemma_parse_dec,
    lemma_split_on_concat, lemma_split_on_no_sep, parse_uint, parse_uint_chars, push_chars,
    push_dec, push_str, split_chars, split_on, string_of, sub_chars, trim_end_char,
};

verus! {

// ---------------------------------------------------------------------------
// Trusted items
// ---------------------------------------------------------------------------

/// What `std::path::Path::join` gives for a base path and a part (with the
/// build target's path rules), as text.
pub uninterp spec fn path_join(base: Seq<char>, part: Seq<char>) -> Seq<char>;

/// Calls `Path::join`; the contract only names the result.
#[verifier::external_body]
pub(crate) fn join_path(base: &str, part: &str) -> (r: String)
    ensures
        r@ == path_join(base@, part@),
{
    std::path::Path::new(base).join(part).to_string_lossy().into_owned()
}

/// What `std::path::Path::parent` gives for a path (with the build target's
/// path rules), as text.
pub uninterp spec fn path_parent(p: Seq<char>) -> Option<Seq<char>>;

/// Calls `Path::parent`; the contract only names the result.
#[verifier::external_body]
pub(crate) fn parent_path(p: &str) -> (r: Option<String>)
    ensures
        r is Some == path_parent(p@) is Some,
        r matches Some(q) ==> q@ == path_parent(p@).unwrap(),
{
    std::path::Path::new(p).parent().map(|q| q.to_string_lossy().into_owned())
}

/// A random byte from `rand::random::<u8>()`. Nothing is promised of it.
#[verifier::external_body]
fn random_byte() -> (b: u8) {
    rand::random::<u8>()
}

/// Formats a modification time given in seconds since the Unix epoch as
/// `%b %d %H:%M` in the machine's local time zone (chrono's
/// `DateTime::from_timestamp`, `with_timezone(&Local)` and `format`), or
/// gives empty text for a time chrono cannot represent. Nothing is promised
/// of the text: it depends on the machine's time zone.
#[verifier::external_body]
fn local_time_text(secs: u64) -> (r: String) {
    match chrono::DateTime::from_timestamp(secs as i64, 0) {
        Some(t) => t.with_timezone(&chrono::Local).format("%b %d %H:%M").to_string(),
        None => String::new(),
    }
}

// ---------------------------------------------------------------------------
// Transfer types
// ---------------------------------------------------------------------------

/// How file contents travel over the data connection.
#[derive(PartialEq, Eq, Structural, Clone, Copy, Debug)]
pub enum TransferType {
    Ascii,
    Binary,
}

/// Where a transfer starts, and whether it appends.
#[derive(PartialEq, Eq, Structural, Clone, Copy, Debug)]
pub struct TransferOptions {
    pub offset: Option<u64>,
    pub append: bool,
}

impl Default for TransferOptions {
    fn default() -> (r: Self)
        ensures
            r == (TransferOptions { offset: None, append: false }),
    {
        TransferOptions { offset: None, append: false }
    }
}

/// `data` with a carriage return put before every line feed.
pub open spec fn ascii_convert(data: Seq<u8>) -> Seq<u8>
    decreases data.len(),
{
    if data.len() == 0 {
        Seq::<u8>::empty()
    } else {
        let init = ascii_convert(data.drop_last());
        if data.last() == 10u8 {
            init + seq![13u8, 10u8]
        } else {
            init.push(data.last())
        }
    }
}

/// Converts line endings for an ASCII transfer (`\n` becomes `\r\n`).
pub fn convert_to_ascii(data: &[u8]) -> (r: Vec<u8>)
    ensures
        r@ == ascii_convert(data@),
{
    let mut result: Vec<u8> = Vec::new();
    let mut i: usize = 0;
    assert(data@.take(0) =~= Seq::<u8>::empty());
    while i < data.len()
        invariant
            i <= data.len(),
            result@ == ascii_convert(data@.take(i as int)),
        decreases data.len() - i,
    {
        let byte = data[i];
        assert(data@.take(i + 1).drop_last() =~= data@.take(i as int));
        if byte == 10u8 {
            result.push(13u8);
        }
        result.push(byte);
        i += 1;
        assert(result@ =~= ascii_convert(data@.take(i as int)));
    }
    assert(data@.take(data.len() as int) =~= data@);
    result
}

/// Converting two pieces one after the other gives the conversion of the
/// whole: a file converted chunk by chunk arrives as if converted at once.
pub proof fn lemma_ascii_convert_concat(a: Seq<u8>, b: Seq<u8>)
    ensures
        ascii_convert(a + b) == ascii_convert(a) + ascii_convert(b),
    decreases b.len(),
{
    if b.len() == 0 {
        assert(a + b =~= a);
        assert(ascii_convert(a) + ascii_convert(b) =~= ascii_convert(a));
    } else {
        lemma_ascii_convert_concat(a, b.drop_last());
        assert((a + b).drop_last() =~= a + b.drop_last());
        assert((a + b).last() == b.last());
        assert(ascii_convert(a + b) =~= ascii_convert(a) + ascii_convert(b));
    }
}

/// An ASCII transfer sends a line feed as a carriage return and a line
/// feed, and every other byte as it is; with `lemma_ascii_convert_concat`
/// this fixes the conversion of any data, byte by byte.
pub proof fn lemma_ascii_convert_byte(b: u8)
    ensures
        b == 10u8 ==> ascii_convert(seq![b]) == seq![13u8, 10u8],
        b != 10u8 ==> ascii_convert(seq![b]) == seq![b],
{
    reveal_with_fuel(ascii_convert, 2);
    assert(seq![b].drop_last() =~= Seq::<u8>::empty());
    assert(seq![b].last() == b);
    assert(Seq::<u8>::empty() + seq![13u8, 10u8] =~= seq![13u8, 10u8]);
    assert(Seq::<u8>::empty().push(b) =~= seq![b]);
}

/// Data without line feeds is sent unchanged by an ASCII transfer.
pub proof fn lemma_ascii_convert_no_lf(a: Seq<u8>)
    requires
        !a.contains(10u8),
    ensures
        ascii_convert(a) == a,
    decreases a.len(),
{
    if a.len() > 0 {
        assert(!a.drop_last().contains(10u8)) by {
            if a.drop_last().contains(10u8) {
                let k = choose|k: int| 0 <= k < a.drop_last().len() && a.drop_last()[k] == 10u8;
                assert(a[k] == 10u8);
            }
        }
        lemma_ascii_convert_no_lf(a.drop_last());
        assert(a.last() != 10u8) by {
            assert(a[a.len() - 1] == a.last());
        }
        assert(a.drop_last().push(a.last()) =~= a);
    }
}

/// What a chunk of file data becomes on the wire for a transfer type.
pub open spec fn encoded(tt: TransferType, data: Seq<u8>) -> Seq<u8> {
    match tt {
        TransferType::Ascii => ascii_convert(data),
        TransferType::Binary => data,
    }
}

/// Encoding two pieces one after the other gives the encoding of the whole,
/// for either transfer type: a file sent chunk by chunk arrives as if it
/// were encoded at once.
pub proof fn lemma_encoded_concat(tt: TransferType, a: Seq<u8>, b: Seq<u8>)
    ensures
        encoded(tt, a + b) == encoded(tt, a) + encoded(tt, b),
{
    if tt == TransferType::Ascii {
        lemma_ascii_convert_concat(a, b);
    }
}

/// Encodes a chunk of file data for a transfer type.
pub fn encode_chunk(tt: TransferType, data: &[u8]) -> (r: Vec<u8>)
    ensures
        r@ == encoded(tt, data@),
{
    match tt {
        TransferType::Ascii => convert_to_ascii(data),
        TransferType::Binary => {
            let mut v: Vec<u8> = Vec::new();
            let mut i: usize = 0;
            while i < data.len()
                invariant
                    i <= data.len(),
                    v@ == data@.take(i as int),
                decreases data.len() - i,
            {
                v.push(data[i]);
                i += 1;
                assert(v@ =~= data@.take(i as int));
            }
            assert(data@.take(data.len() as int) =~= data@);
            v
        },
    }
}

// ---------------------------------------------------------------------------
// Errors
// ---------------------------------------------------------------------------

/// Why an FTP session ends.
#[derive(PartialEq, Eq, Structural, Clone, Copy, Debug)]
pub enum FtpError {
    /// A command needs a parameter and got none.
    ParamMissing,
    /// The `PORT` address does not have six comma-separated fields.
    UnexpectedOctets,
    /// The `REST` offset is not a number.
    BadOffset(IntError),
    /// `LIST` found no data socket.
    DataSocketNotOpen,
    /// `LIST` could not accept a data connection.
    DataAcceptFailed,
    /// `RETR` could not open the file.
    FileNotFound,
}

/// The message of an FTP error.
pub open spec fn ftp_error_text(e: FtpError) -> Seq<char> {
    match e {
        FtpError::ParamMissing => "Parameter is missing"@,
        FtpError::UnexpectedOctets => "Active data connection address contains an unexpected number of octets"@,
        FtpError::BadOffset(k) => int_error_text(k),
        FtpError::DataSocketNotOpen => "The data socket has not been opened"@,
        FtpError::DataAcceptFailed => "Failed to accept a connection on the data socket"@,
        FtpError::FileNotFound => "File not found"@,
    }
}

impl FtpError {
    /// The error's message.
    pub fn message(&self) -> (r: String)
        ensures
            r@ == ftp_error_text(*self),
    {
        match self {
            FtpError::ParamMissing => string_of(chars_of("Parameter is missing").as_slice()),
            FtpError::UnexpectedOctets => string_of(
                chars_of(
                    "Active data connection address contains an unexpected number of octets",
                ).as_slice(),
            ),
            FtpError::BadOffset(k) => k.message(),
            FtpError::DataSocketNotOpen => string_of(
                chars_of("The data socket has not been opened").as_slice(),
            ),
            FtpError::DataAcceptFailed => string_of(
                chars_of("Failed to accept a connection on the data socket").as_slice(),
            ),
            FtpError::FileNotFound => string_of(chars_of("File not found").as_slice()),
        }
    }
}

// ---------------------------------------------------------------------------
// Directories
// ---------------------------------------------------------------------------

/// Where `CWD target` would lead: the real directory to check, and the
/// virtual directory to show when it exists.
pub open spec fn cwd_target(
    base: Seq<char>,
    real_dir: Seq<char>,
    virt_dir: Seq<char>,
    target: Seq<char>,
) -> (Seq<char>, Seq<char>) {
    if target.len() > 0 && target[0] == '/' {
        (path_join(base, target.drop_first()), target)
    } else {
        (
            path_join(real_dir, target),
            drop_trailing(virt_dir, |c: char| c == '/') + seq!['/'] + target,
        )
    }
}

/// Computes where `CWD target` would lead.
pub fn cwd_candidate(base: &str, real_dir: &str, virt_dir: &str, target: &str) -> (r: (String, String))
    ensures
        (r.0@, r.1@) == cwd_target(base@, real_dir@, virt_dir@, target@),
{
    let t = chars_of(target);
    if t.len() > 0 && t[0] == '/' {
        let rest = sub_chars(&t, 1, t.len());
        assert(rest@ =~= t@.drop_first());
        let rs = string_of(rest.as_slice());
        (join_path(base, rs.as_str()), string_of(t.as_slice()))
    } else {
        let v = chars_of(virt_dir);
        let mut nv = trim_end_char(&v, '/');
        nv.push('/');
        push_chars(&mut nv, &t);
        (join_path(real_dir, target), string_of(nv.as_slice()))
    }
}

/// The directories after `CDUP`, when not at the root: the parent of the
/// virtual directory (or `/`), and the parent of the real one (or the base).
pub open spec fn cdup_target(base: Seq<char>, real_dir: Seq<char>, virt_dir: Seq<char>) -> (
    Seq<char>,
    Seq<char>,
) {
    (
        match path_parent(real_dir) {
            Some(p) => p,
            None => base,
        },
        match path_parent(virt_dir) {
            Some(p) => p,
            None => "/"@,
        },
    )
}

/// Computes the directories after `CDUP`.
pub fn cdup_candidate(base: &str, real_dir: &str, virt_dir: &str) -> (r: (String, String))
    ensures
        (r.0@, r.1@) == cdup_target(base@, real_dir@, virt_dir@),
{
    let nr = match parent_path(real_dir) {
        Some(p) => p,
        None => string_of(chars_of(base).as_slice()),
    };
    let nv = match parent_path(virt_dir) {
        Some(p) => p,
        None => string_of(chars_of("/").as_slice()),
    };
    (nr, nv)
}

/// The file `DELE path` removes: the path with leading `/` and `\` dropped,
/// under the server's base directory.
pub open spec fn delete_target(base: Seq<char>, path: Seq<char>) -> Seq<char> {
    path_join(base, drop_leading(path, |c: char| c == '/' || c == '\\'))
}

/// Computes the file `DELE path` removes.
pub fn delete_path(base: &str, path: &str) -> (r: String)
    ensures
        r@ == delete_target(base@, path@),
{
    let ghost f = |c: char| c == '/' || c == '\\';
    let v = chars_of(path);
    let mut i: usize = 0;
    assert(v@.skip(0) =~= v@);
    while i < v.len() && (v[i] == '/' || v[i] == '\\')
        invariant
            i <= v.len(),
            f == (|c: char| c == '/' || c == '\\'),
            drop_leading(v@, f) == drop_leading(v@.skip(i as int), f),
        decreases v.len() - i,
    {
        assert(v@.skip(i as int).drop_first() =~= v@.skip(i + 1));
        i += 1;
    }
    let rest = sub_chars(&v, i, v.len());
    assert(rest@ =~= v@.skip(i as int));
    let rs = string_of(rest.as_slice());
    join_path(base, rs.as_str())
}

/// What the file system did with a `DELE`.
pub enum DeleteOutcome {
    /// The path is not an existing file.
    NotFound,
    /// The file was removed.
    Removed,
    /// Removing failed with this error text.
    Failed(String),
}

/// The reply to a `DELE`.
pub open spec fn delete_reply_text(o: DeleteOutcome) -> Seq<char> {
    match o {
        DeleteOutcome::NotFound => "550 File not found"@,
        DeleteOutcome::Removed => "250 File deleted successfully\r\n"@,
        DeleteOutcome::Failed(e) => "550 Could not delete file: "@ + e@ + "\r\n"@,
    }
}

/// The reply to a `DELE`, given what the file system did.
pub fn delete_reply(o: DeleteOutcome) -> (r: String)
    ensures
        r@ == delete_reply_text(o),
{
    match o {
        DeleteOutcome::NotFound => string_of(chars_of("550 File not found").as_slice()),
        DeleteOutcome::Removed => string_of(
            chars_of("250 File deleted successfully\r\n").as_slice(),
        ),
        DeleteOutcome::Failed(e) => {
            let mut m: Vec<char> = Vec::new();
            push_str(&mut m, "550 Could not delete file: ");
            push_str(&mut m, e.as_str());
            push_str(&mut m, "\r\n");
            string_of(m.as_slice())
        },
    }
}

// ---------------------------------------------------------------------------
// Data connections
// ---------------------------------------------------------------------------

/// The passive data port for a random byte `r`: `50000 + r % 1000`.
pub open spec fn passive_port_for(r: u8) -> u16 {
    (50000 + r as int % 1000) as u16
}

/// Picks a passive data port from a random byte.
pub fn choose_passive_port() -> (p: u16)
    ensures
        50000 <= p < 50256,
        exists|r: u8| p == passive_port_for(r),
{
    let r = random_byte();
    let p = 50000 + r as u16 % 1000;
    assert(p == passive_port_for(r));
    p
}

/// The local address a passive data listener got.
pub enum DataAddr {
    V4 { octets: (u8, u8, u8, u8), port: u16 },
    V6,
}

/// The reply to `PASV` for the listener's address, and whether the data
/// socket is now open.
pub open spec fn pasv_reply_text(addr: DataAddr) -> (Seq<char>, bool) {
    match addr {
        DataAddr::V4 { octets, port } => (
            "227 Entering Passive Mode ("@ + dec(octets.0 as nat) + ","@ + dec(octets.1 as nat)
                + ","@ + dec(octets.2 as nat) + ","@ + dec(octets.3 as nat) + ","@ + dec(
                (port / 256) as nat,
            ) + ","@ + dec((port % 256) as nat) + ")\r\n"@,
            true,
        ),
        DataAddr::V6 => (
            "522 Network protocol not supported (IPv6 is not supported in PASV mode)\r\n"@,
            false,
        ),
    }
}

/// Builds the reply to `PASV` for the listener's address.
pub fn pasv_reply(addr: DataAddr) -> (r: (String, bool))
    ensures
        (r.0@, r.1) == pasv_reply_text(addr),
{
    match addr {
        DataAddr::V4 { octets, port } => {
            let mut m: Vec<char> = Vec::new();
            push_str(&mut m, "227 Entering Passive Mode (");
            push_dec(&mut m, octets.0 as u64);
            push_str(&mut m, ",");
            push_dec(&mut m, octets.1 as u64);
            push_str(&mut m, ",");
            push_dec(&mut m, octets.2 as u64);
            push_str(&mut m, ",");
            push_dec(&mut m, octets.3 as u64);
            push_str(&mut m, ",");
            push_dec(&mut m, (port / 256) as u64);
            push_str(&mut m, ",");
            push_dec(&mut m, (port % 256) as u64);
            push_str(&mut m, ")\r\n");
            (string_of(m.as_slice()), true)
        },
        DataAddr::V6 => (
            string_of(
                chars_of(
                    "522 Network protocol not supported (IPv6 is not supported in PASV mode)\r\n",
                ).as_slice(),
            ),
            false,
        ),
    }
}

/// The two port numbers of a `PASV` reply give back the port.
pub proof fn lemma_pasv_port_halves(port: u16)
    ensures
        (port / 256) * 256 + port % 256 == port,
        port / 256 < 256,
        port % 256 < 256,
{
}

/// The numbers of a `PASV` reply and of a `PORT` command: the four address
/// octets and the port's high and low bytes, separated by commas.
pub open spec fn address_params(o: (u8, u8, u8, u8), port: u16) -> Seq<char> {
    dec(o.0 as nat) + ","@ + dec(o.1 as nat) + ","@ + dec(o.2 as nat) + ","@ + dec(o.3 as nat)
        + ","@ + dec((port / 256) as nat) + ","@ + dec((port % 256) as nat)
}

proof fn lemma_dec_no_comma(n: nat)
    ensures
        !dec(n).contains(','),
{
    lemma_dec_digits(n);
    if dec(n).contains(',') {
        let k = choose|k: int| 0 <= k < dec(n).len() && dec(n)[k] == ',';
        assert(all_digits(dec(n)));
        assert(crate::text::is_digit(dec(n)[k]));
    }
}

proof fn lemma_split_step(a: Seq<char>, b: Seq<char>)
    requires
        !b.contains(','),
    ensures
        split_on(a + ","@ + b, ',') == split_on(a, ',').push(b),
{
    reveal_strlit(",");
    assert(a + ","@ + b =~= a + seq![','] + b);
    lemma_split_on_concat(a, ',', b);
    lemma_split_on_no_sep(b, ',');
    assert(split_on(a, ',') + seq![b] =~= split_on(a, ',').push(b));
}

proof fn lemma_split_params(o: (u8, u8, u8, u8), port: u16)
    ensures
        split_on(address_params(o, port), ',') == seq![
            dec(o.0 as nat),
            dec(o.1 as nat),
            dec(o.2 as nat),
            dec(o.3 as nat),
            dec((port / 256) as nat),
            dec((port % 256) as nat),
        ],
{
    let d0 = dec(o.0 as nat);
    let d1 = dec(o.1 as nat);
    let d2 = dec(o.2 as nat);
    let d3 = dec(o.3 as nat);
    let d4 = dec((port / 256) as nat);
    let d5 = dec((port % 256) as nat);
    lemma_dec_no_comma(o.0 as nat);
    lemma_dec_no_comma(o.1 as nat);
    lemma_dec_no_comma(o.2 as nat);
    lemma_dec_no_comma(o.3 as nat);
    lemma_dec_no_comma((port / 256) as nat);
    lemma_dec_no_comma((port % 256) as nat);
    lemma_split_on_no_sep(d0, ',');
    let s1 = d0 + ","@ + d1;
    let s2 = s1 + ","@ + d2;
    let s3 = s2 + ","@ + d3;
    let s4 = s3 + ","@ + d4;
    lemma_split_step(d0, d1);
    lemma_split_step(s1, d2);
    lemma_split_step(s2, d3);
    lemma_split_step(s3, d4);
    lemma_split_step(s4, d5);
    assert(split_on(s4 + ","@ + d5, ',') =~= seq![d0, d1, d2, d3, d4, d5]);
}

proof fn lemma_port_bytes(port: u16)
    ensures
        port_sum((port / 256) as nat, (port % 256) as nat) == port as int,
{
    let hi = (port / 256) as nat;
    let lo = (port % 256) as nat;
    assert(hi * 256 + lo == port) by (nonlinear_arith)
        requires
            hi == port / 256,
            lo == port % 256,
    ;
    assert(hi * 256 < 65536);
    assert((hi * 256) % 65536 == hi * 256);
}

/// The address a `PASV` reply announces, sent back in a `PORT` command, is
/// read as the same address: the octets joined by dots and the port.
pub proof fn lemma_pasv_port_roundtrip(o: (u8, u8, u8, u8), port: u16)
    ensures
        pasv_reply_text(DataAddr::V4 { octets: o, port }).0 == "227 Entering Passive Mode ("@
            + address_params(o, port) + ")\r\n"@,
        !port_param_panics(address_params(o, port)),
        port_target(address_params(o, port)) == Ok::<Seq<char>, FtpError>(
            dec(o.0 as nat) + "."@ + dec(o.1 as nat) + "."@ + dec(o.2 as nat) + "."@ + dec(
                o.3 as nat,
            ) + ":"@ + dec(port as nat),
        ),
{
    lemma_split_params(o, port);
    lemma_parse_dec((port / 256) as nat, 65535);
    lemma_parse_dec((port % 256) as nat, 65535);
    lemma_port_bytes(port);
    assert(pasv_reply_text(DataAddr::V4 { octets: o, port }).0 =~= "227 Entering Passive Mode ("@
        + address_params(o, port) + ")\r\n"@);
}

/// A passive listener on an IPv4 address opens the data socket; one on an
/// IPv6 address is refused with 522 and opens nothing.
pub proof fn lemma_pasv_opens_v4_only(o: (u8, u8, u8, u8), port: u16)
    ensures
        pasv_reply_text(DataAddr::V4 { octets: o, port }).1,
        pasv_reply_text(DataAddr::V6) == (
            "522 Network protocol not supported (IPv6 is not supported in PASV mode)\r\n"@,
            false,
        ),
{
}

/// `(p1 << 8) + p2` on `u16` as Rust computes it, before the addition's
/// overflow check.
pub open spec fn port_sum(p1: nat, p2: nat) -> int {
    ((p1 * 256) % 65536) as int + p2 as int
}

/// The `PORT` parameter is one on which the server panics: six fields
/// whose last two do not both read as `u16`, or whose port overflows.
pub open spec fn port_param_panics(addr: Seq<char>) -> bool {
    let f = split_on(addr, ',');
    &&& f.len() == 6
    &&& match (parse_uint(f[4], 65535), parse_uint(f[5], 65535)) {
        (Some(p1), Some(p2)) => port_sum(p1, p2) > 65535,
        _ => true,
    }
}

/// The socket address text that `PORT addr` names, or the error.
pub open spec fn port_target(addr: Seq<char>) -> Result<Seq<char>, FtpError> {
    let f = split_on(addr, ',');
    if f.len() == 6 {
        Ok(
            f[0] + "."@ + f[1] + "."@ + f[2] + "."@ + f[3] + ":"@ + dec(
                port_sum(parse_uint(f[4], 65535).unwrap(), parse_uint(f[5], 65535).unwrap()) as nat,
            ),
        )
    } else {
        Err(FtpError::UnexpectedOctets)
    }
}

/// Whether the `PORT` parameter is one on which the server panics (the
/// caller panics then, before asking for the session's answer).
pub fn port_param_would_panic(addr: &str) -> (r: bool)
    ensures
        r == port_param_panics(addr@),
{
    let v = chars_of(addr);
    let f = split_chars(&v, ',');
    if f.len() != 6 {
        return false;
    }
    match (parse_uint_chars(&f[4], 65535), parse_uint_chars(&f[5], 65535)) {
        (Some(p1), Some(p2)) => {
            let hi = (p1 * 256) % 65536;
            hi + p2 > 65535
        },
        _ => true,
    }
}

/// The socket address text that `PORT addr` names: the first four fields
/// joined by dots, then the port `(p1 << 8) + p2`.
pub fn port_address(addr: &str) -> (r: Result<String, FtpError>)
    requires
        !port_param_panics(addr@),
    ensures
        match port_target(addr@) {
            Ok(t) => r matches Ok(s) && s@ == t,
            Err(e) => r == Err::<String, FtpError>(e),
        },
{
    let v = chars_of(addr);
    let f = split_chars(&v, ',');
    if f.len() != 6 {
        return Err(FtpError::UnexpectedOctets);
    }
    let p1 = match parse_uint_chars(&f[4], 65535) {
        Some(n) => n,
        None => 0,
    };
    let p2 = match parse_uint_chars(&f[5], 65535) {
        Some(n) => n,
        None => 0,
    };
    let port = (p1 * 256) % 65536 + p2;
    let mut m: Vec<char> = Vec::new();
    push_chars(&mut m, &f[0]);
    m.push('.');
    push_chars(&mut m, &f[1]);
    m.push('.');
    push_chars(&mut m, &f[2]);
    m.push('.');
    push_chars(&mut m, &f[3]);
    m.push(':');
    push_dec(&mut m, port);
    let t = string_of(m.as_slice());
    proof {
        reveal_strlit(".");
        reveal_strlit(":");
        let f2 = split_on(addr@, ',');
        assert(t@ =~= f2[0] + "."@ + f2[1] + "."@ + f2[2] + "."@ + f2[3] + ":"@ + dec(
            port_sum(parse_uint(f2[4], 65535).unwrap(), parse_uint(f2[5], 65535).unwrap()) as nat,
        ));
    }
    Ok(t)
}

// ---------------------------------------------------------------------------
// Directory listings
// ---------------------------------------------------------------------------

/// `s` padded with spaces on the left to width `w` (`{:>w}`).
pub open spec fn pad_left(s: Seq<char>, w: nat) -> Seq<char> {
    if s.len() < w {
        Seq::new((w - s.len()) as nat, |i: int| ' ') + s
    } else {
        s
    }
}

/// `s` padded with spaces on the right to width `w` (`{:<w}`).
pub open spec fn pad_right(s: Seq<char>, w: nat) -> Seq<char> {
    if s.len() < w {
        s + Seq::new((w - s.len()) as nat, |i: int| ' ')
    } else {
        s
    }
}

/// The permissions column of a listing line.
pub open spec fn perms_text(is_dir: bool) -> Seq<char> {
    if is_dir {
        "drwxr-xr-x"@
    } else {
        "-rw-r--r--"@
    }
}

/// A line of a directory listing:
/// `{perms:<10} {0:>10} {0:>10} {0:>10} {size:>10} {time} {name}\r\n`.
pub open spec fn list_line_text(is_dir: bool, size: u64, time: Seq<char>, name: Seq<char>) -> Seq<
    char,
> {
    pad_right(perms_text(is_dir), 10) + " "@ + pad_left("0"@, 10) + " "@ + pad_left("0"@, 10) + " "@
        + pad_left("0"@, 10) + " "@ + pad_left(dec(size as nat), 10) + " "@ + time + " "@ + name
        + "\r\n"@
}

fn push_padded_left(out: &mut Vec<char>, s: &Vec<char>, w: usize)
    ensures
        final(out)@ == old(out)@ + pad_left(s@, w as nat),
{
    let ghost start = out@;
    if s.len() < w {
        let n = w - s.len();
        let mut k: usize = 0;
        while k < n
            invariant
                k <= n,
                out@ == start + Seq::new(k as nat, |i: int| ' '),
            decreases n - k,
        {
            out.push(' ');
            k += 1;
            assert(out@ =~= start + Seq::new(k as nat, |i: int| ' '));
        }
    }
    push_chars(out, s);
    assert(out@ =~= start + pad_left(s@, w as nat));
}

fn push_padded_right(out: &mut Vec<char>, s: &Vec<char>, w: usize)
    ensures
        final(out)@ == old(out)@ + pad_right(s@, w as nat),
{
    let ghost start = out@;
    push_chars(out, s);
    if s.len() < w {
        let n = w - s.len();
        let mut k: usize = 0;
        let ghost mid = out@;
        while k < n
            invariant
                k <= n,
                out@ == mid + Seq::new(k as nat, |i: int| ' '),
            decreases n - k,
        {
            out.push(' ');
            k += 1;
            assert(out@ =~= mid + Seq::new(k as nat, |i: int| ' '));
        }
    }
    assert(out@ =~= start + pad_right(s@, w as nat));
}

/// Builds a line of a directory listing from the entry's kind, size,
/// formatted modification time and name.
pub fn list_line(is_dir: bool, size: u64, time: &str, name: &str) -> (r: String)
    ensures
        r@ == list_line_text(is_dir, size, time@, name@),
{
    let perms = if is_dir {
        chars_of("drwxr-xr-x")
    } else {
        chars_of("-rw-r--r--")
    };
    let zero = chars_of("0");
    let mut m: Vec<char> = Vec::new();
    push_padded_right(&mut m, &perms, 10);
    push_str(&mut m, " ");
    push_padded_left(&mut m, &zero, 10);
    push_str(&mut m, " ");
    push_padded_left(&mut m, &zero, 10);
    push_str(&mut m, " ");
    push_padded_left(&mut m, &zero, 10);
    push_str(&mut m, " ");
    let sz = crate::text::dec_chars(size);
    push_padded_left(&mut m, &sz, 10);
    push_str(&mut m, " ");
    push_str(&mut m, time);
    push_str(&mut m, " ");
    push_str(&mut m, name);
    push_str(&mut m, "\r\n");
    string_of(m.as_slice())
}

/// Builds a line of a directory listing for an entry modified at `mtime`
/// (seconds since the Unix epoch), its time shown in the local time zone.
pub fn list_entry(is_dir: bool, size: u64, mtime: u64, name: &str) -> (r: String)
    ensures
        exists|t: Seq<char>| r@ == list_line_text(is_dir, size, t, name@),
{
    let t = local_time_text(mtime);
    list_line(is_dir, size, t.as_str(), name)
}

} // verus!
