use git_remote_util::pinentry::pinentry_request;
use git_remote_util::pinentry::scan_pinentry_output;

#[test]
fn request_script_is_four_fixed_lines() {
    assert_eq!(
        pinentry_request("https://example.com/repo"),
        "SETTITLE jj passphrase\n\
         SETDESC Enter passphrase for https://example.com/repo\n\
         SETPROMPT Passphrase:\n\
         GETPIN\n"
    );
}

#[test]
fn scan_finds_first_data_line() {
    let out = b"OK Pleased to meet you\nD s3cret\nOK\n";
    assert_eq!(scan_pinentry_output(out), Some(String::from("s3cret")));
}

#[test]
fn scan_without_data_line_yields_nothing() {
    assert_eq!(scan_pinentry_output(b"OK\nERR 83886179 Operation cancelled\n"), None);
    assert_eq!(scan_pinentry_output(b""), None);
}

#[test]
fn scan_decodes_payload_escapes() {
    assert_eq!(scan_pinentry_output(b"D pass%25word\nOK\n"), Some(String::from("pass%word")));
}

#[test]
fn scan_stops_at_first_data_line_even_if_malformed() {
    let out = b"D bad%\nD good\n";
    assert_eq!(scan_pinentry_output(out), None);
}

#[test]
fn scan_ignores_lines_with_other_markers() {
    let out = b"S PASSPHRASE_INFO\nOK\nD deep\n";
    assert_eq!(scan_pinentry_output(out), Some(String::from("deep")));
}
