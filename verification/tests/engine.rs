use cow_encryptor::descriptor::Direction;
use cow_encryptor::engine::{
    capture, presence_arguments, reports_supported_version, transform_arguments,
    version_arguments, version_supported, ENGINE, SUPPORTED_VERSION,
};

#[test]
fn the_engine_is_looked_up_by_its_name() {
    assert_eq!(ENGINE, "cow-translator");
    assert_eq!(SUPPORTED_VERSION, "1.");
}

#[test]
fn presence_probe_passes_the_diagnostic_flag() {
    assert_eq!(presence_arguments(), vec!["-v".to_string()]);
}

#[test]
fn version_query_passes_the_version_check_flag() {
    assert_eq!(version_arguments(), vec!["--version-check".to_string()]);
}

#[test]
fn forward_transform_arguments() {
    assert_eq!(
        transform_arguments(Direction::Forward, "hello"),
        vec!["-nc".to_string(), "-i".to_string(), "--".to_string(), "hello".to_string()]
    );
}

#[test]
fn inverse_transform_arguments() {
    assert_eq!(
        transform_arguments(Direction::Inverse, "moo1"),
        vec!["-nc".to_string(), "-t".to_string(), "--".to_string(), "moo1".to_string()]
    );
}

#[test]
fn content_is_one_argument_whatever_it_holds() {
    let content = "-t two words\nand a second line\n";
    let arguments = transform_arguments(Direction::Forward, content);
    assert_eq!(arguments.len(), 4);
    assert_eq!(arguments[2], "--");
    assert_eq!(arguments[3], content);
    let empty = transform_arguments(Direction::Inverse, "");
    assert_eq!(empty.len(), 4);
    assert_eq!(empty[3], "");
}

#[test]
fn versions_of_the_first_major_line_are_supported() {
    assert!(version_supported("1.0.0"));
    assert!(version_supported("1.4.2\n"));
    assert!(version_supported("1."));
    assert!(version_supported("1.x"));
}

#[test]
fn other_versions_are_not_supported() {
    assert!(!version_supported(""));
    assert!(!version_supported("1"));
    assert!(!version_supported("2.0.0"));
    assert!(!version_supported("0.1."));
    assert!(!version_supported("11.0"));
    assert!(!version_supported(" 1.0"));
    assert!(!version_supported("v1.0"));
    assert!(!version_supported("error: unknown flag"));
}

#[test]
fn raw_version_output_is_decoded_before_it_is_tested() {
    assert!(reports_supported_version(b"1.4.2\n"));
    assert!(reports_supported_version(b"1.\xff"));
    assert!(!reports_supported_version(b"2.0.0\n"));
    assert!(!reports_supported_version(b""));
    assert!(!reports_supported_version(b"\xff1.0"));
}

#[test]
fn capture_trims_the_output() {
    assert_eq!(capture(b"moo1\n"), "moo1");
    assert_eq!(capture(b"  moo MoO \r\n\n"), "moo MoO");
    assert_eq!(capture(b""), "");
    assert_eq!(capture(b"\n"), "");
}

#[test]
fn capture_decodes_utf8() {
    assert_eq!(capture("été 牛\n".as_bytes()), "été 牛");
    assert_eq!(capture("\u{3000}moo\u{2003}".as_bytes()), "moo");
}

#[test]
fn capture_replaces_what_is_not_utf8() {
    assert_eq!(capture(b"moo\xffMOO\n"), "moo\u{fffd}MOO");
    assert_eq!(capture(b"\xff moo \xfe"), "\u{fffd} moo \u{fffd}");
    assert_eq!(capture(b" \xc3 "), "\u{fffd}");
    assert_eq!(capture(b"\xe7\x89"), "\u{fffd}");
}

#[test]
fn capture_is_lossy_decoding_then_trimming() {
    let samples: [&[u8]; 5] =
        [b"moo\n", b" \xf0\x9f\x90\x84 ", b"\xf0\x9f\x90", b"a\x80b\xc0\x80c", b"\t\xed\xa0\x80\t"];
    for sample in samples {
        assert_eq!(capture(sample), String::from_utf8_lossy(sample).trim());
    }
}
