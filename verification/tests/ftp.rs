use pebbles::text::IntError;
use pebbles::ftp::{
    cdup_candidate, choose_passive_port, convert_to_ascii, cwd_candidate, delete_path,
    delete_reply, encode_chunk, list_entry, list_line, pasv_reply,
    port_address, port_param_would_panic, DataAddr, DeleteOutcome, FtpError, TransferOptions,
    TransferType,
};

#[test]
fn ascii_conversion_adds_carriage_returns() {
    assert_eq!(convert_to_ascii(b"a\nb\n"), b"a\r\nb\r\n".to_vec());
    assert_eq!(convert_to_ascii(b"no newline"), b"no newline".to_vec());
    assert_eq!(convert_to_ascii(b""), Vec::<u8>::new());
    // Already converted line ends gain another carriage return.
    assert_eq!(convert_to_ascii(b"x\r\n"), b"x\r\r\n".to_vec());
}

#[test]
fn ascii_conversion_by_chunks_equals_whole() {
    let whole = convert_to_ascii(b"one\ntwo\nthree");
    let mut chunked = convert_to_ascii(b"one\ntw");
    chunked.extend(convert_to_ascii(b"o\nthree"));
    assert_eq!(whole, chunked);
}

#[test]
fn binary_chunks_pass_unchanged() {
    assert_eq!(encode_chunk(TransferType::Binary, b"a\nb"), b"a\nb".to_vec());
    assert_eq!(encode_chunk(TransferType::Ascii, b"a\nb"), b"a\r\nb".to_vec());
}

#[test]
fn default_transfer_options() {
    let o = TransferOptions::default();
    assert_eq!(o, TransferOptions { offset: None, append: false });
}

#[test]
fn path_helpers_follow_std_path() {
    assert_eq!(cwd_candidate("/srv/ftp", "/srv/ftp", "/", "docs").0, "/srv/ftp/docs");
    assert_eq!(cdup_candidate("/srv", "/srv/ftp/docs", "/ftp/docs").0, "/srv/ftp");
    assert_eq!(cdup_candidate("/srv", "/", "/").0, "/srv");
}

#[test]
fn cwd_relative_and_absolute() {
    let (real, virt) = cwd_candidate("/srv", "/srv/a", "/a/", "b");
    assert_eq!(real, "/srv/a/b");
    assert_eq!(virt, "/a/b");
    let (real, virt) = cwd_candidate("/srv", "/srv/a", "/a", "/c/d");
    assert_eq!(real, "/srv/c/d");
    assert_eq!(virt, "/c/d");
}

#[test]
fn cdup_goes_to_parents() {
    let (real, virt) = cdup_candidate("/srv", "/srv/a/b", "/a/b");
    assert_eq!(real, "/srv/a");
    assert_eq!(virt, "/a");
    let (real, virt) = cdup_candidate("/srv", "/", "x");
    assert_eq!(real, "/srv");
    assert_eq!(virt, "");
}

#[test]
fn delete_strips_leading_separators() {
    assert_eq!(delete_path("/srv", "//\\notes.txt"), "/srv/notes.txt");
    assert_eq!(delete_path("/srv", "dir/f"), "/srv/dir/f");
}

#[test]
fn delete_replies() {
    assert_eq!(delete_reply(DeleteOutcome::NotFound), "550 File not found");
    assert_eq!(delete_reply(DeleteOutcome::Removed), "250 File deleted successfully\r\n");
    assert_eq!(
        delete_reply(DeleteOutcome::Failed("denied".to_string())),
        "550 Could not delete file: denied\r\n"
    );
}

#[test]
fn passive_port_in_range() {
    for _ in 0..20 {
        let p = choose_passive_port();
        assert!((50000..50256).contains(&p));
    }
}

#[test]
fn pasv_replies() {
    let (m, open) = pasv_reply(DataAddr::V4 { octets: (127, 0, 0, 1), port: 50001 });
    assert_eq!(m, "227 Entering Passive Mode (127,0,0,1,195,81)\r\n");
    assert!(open);
    let (m, open) = pasv_reply(DataAddr::V6);
    assert_eq!(m, "522 Network protocol not supported (IPv6 is not supported in PASV mode)\r\n");
    assert!(!open);
}

#[test]
fn port_addresses() {
    assert_eq!(port_address("192,168,1,2,4,1"), Ok("192.168.1.2:1025".to_string()));
    assert_eq!(port_address("1,2,3"), Err(FtpError::UnexpectedOctets));
    assert!(!port_param_would_panic("1,2,3"));
    assert!(port_param_would_panic("1,2,3,4,x,1"));
    assert!(port_param_would_panic("1,2,3,4,255,256"));
    assert!(!port_param_would_panic("1,2,3,4,255,255"));
    assert!(!port_param_would_panic("1,2,3,4,255,0"));
}

#[test]
fn listing_lines() {
    assert_eq!(
        list_line(false, 42, "Jan 01 10:00", "a.txt"),
        "-rw-r--r--          0          0          0         42 Jan 01 10:00 a.txt\r\n"
    );
    assert_eq!(
        list_line(true, 4096, "Feb 02 11:30", "docs"),
        "drwxr-xr-x          0          0          0       4096 Feb 02 11:30 docs\r\n"
    );
    let l = list_entry(false, 7, 0, "f");
    assert!(l.starts_with("-rw-r--r--          0          0          0          7 "));
    assert!(l.ends_with(" f\r\n"));
}

#[test]
fn pasv_numbers_read_back_through_port() {
    let (m, _) = pasv_reply(DataAddr::V4 { octets: (192, 168, 0, 7), port: 51234 });
    let params = m.trim_start_matches("227 Entering Passive Mode (").trim_end_matches(")\r\n");
    assert_eq!(port_address(params), Ok("192.168.0.7:51234".to_string()));
}

#[test]
fn ftp_error_messages() {
    assert_eq!(FtpError::ParamMissing.message(), "Parameter is missing");
    assert_eq!(
        FtpError::UnexpectedOctets.message(),
        "Active data connection address contains an unexpected number of octets"
    );
    assert_eq!(FtpError::BadOffset(IntError::InvalidDigit).message(), "invalid digit found in string");
    assert_eq!(FtpError::DataSocketNotOpen.message(), "The data socket has not been opened");
    assert_eq!(FtpError::DataAcceptFailed.message(), "Failed to accept a connection on the data socket");
    assert_eq!(FtpError::FileNotFound.message(), "File not found");
}

#[test]
fn chunked_encoding_matches_whole() {
    let whole = b"one\r\ntwo\nthree\n".to_vec();
    for tt in [TransferType::Ascii, TransferType::Binary] {
        for cut in 0..=whole.len() {
            let mut parts = encode_chunk(tt, &whole[..cut]);
            parts.extend(encode_chunk(tt, &whole[cut..]));
            assert_eq!(parts, encode_chunk(tt, &whole));
        }
    }
}
