use cs2_dumper::buttons::locate_button_list;
use cs2_dumper::config::Signature;
use cs2_dumper::offsets::{locate_signature, SignatureError};

fn find(pattern: &str, buf: &[u8]) -> Result<usize, SignatureError> {
    let signature = Signature {
        name: "dwTest".to_string(),
        pattern: pattern.to_string(),
        operations: vec![],
    };
    locate_signature(&signature, buf)
}

#[test]
fn parses_hex_bytes_and_wildcards() {
    let buf = [0x00, 0x48, 0x8B, 0x77, 0x05, 0x99];
    assert_eq!(find("48 8B ?? 05 ?", &buf), Ok(1));
    assert_eq!(find("  05  ", &buf), Ok(4));
    assert_eq!(find("8b", &buf), Ok(2));
}

#[test]
fn refuses_bad_patterns() {
    let buf = [0x00, 0x48];
    assert_eq!(find("", &buf), Err(SignatureError::Unparsable));
    assert_eq!(find("   ", &buf), Err(SignatureError::Unparsable));
    assert_eq!(find("?? ?", &buf), Err(SignatureError::Unparsable));
    assert_eq!(find("4", &buf), Err(SignatureError::Unparsable));
    assert_eq!(find("GG", &buf), Err(SignatureError::Unparsable));
    assert_eq!(find("0048", &buf), Err(SignatureError::Unparsable));
}

#[test]
fn scans_for_the_first_occurrence() {
    let buf = [0x00, 0x48, 0x8B, 0x05, 0x48, 0x00, 0x05];
    assert_eq!(find("48 ? 05", &buf), Ok(1));
    assert_eq!(find("48 ? 06", &buf), Err(SignatureError::NotFound));
    assert_eq!(find("48", &[]), Err(SignatureError::NotFound));
    assert_eq!(find("90", &[0x90]), Ok(0));
}

#[test]
fn the_button_list_pattern_matches_its_text_form() {
    let mut buf = vec![0xCCu8; 0x30];
    let load = [
        0x48, 0x8B, 0x05, 0x01, 0x02, 0x03, 0x04, 0x48, 0x89, 0x1D, 0x05, 0x06, 0x07, 0x08, 0x48,
        0x89, 0x83, 0x88, 0x00, 0x00, 0x00,
    ];
    buf[0x08..0x08 + load.len()].copy_from_slice(&load);
    let text = find("48 8B 05 ? ? ? ? 48 89 1D ? ? ? ? 48 89 83 88 00 00 00", &buf);
    assert_eq!(text, Ok(0x08));
    assert_eq!(locate_button_list(&buf, 0), Ok(Some(0x08)));
}
