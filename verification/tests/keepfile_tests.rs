use delete_rest::keepfile::{KeepFile, KeepFileError, KeepFileFormatError};

fn keepfile(content: &str) -> KeepFile {
    match KeepFile::parse(content) {
        Ok(kf) => kf,
        Err(_) => panic!("keep file should parse"),
    }
}

#[test]
pub fn test_load_keepfile() {
    keepfile("1\n4\n");
}

#[test]
pub fn test_load_keepfile_error() {
    let result = KeepFile::parse("daf\nhello\n");
    assert!(result.is_err());

    let error = match result {
        Err(e) => e,
        Ok(_) => panic!("expected an error"),
    };

    assert_eq!(error.0.len(), 2);

    let mut lines = error.0.iter();
    let error = lines.next().unwrap();
    assert_eq!(error.0, 1);
    assert_eq!(error.1, "daf");
    let error = lines.next().unwrap();
    assert_eq!(error.0, 2);
    assert_eq!(error.1, "hello");

    assert!(lines.next().is_none(), "No more errors");
}

#[test]
pub fn test_keepfile_properly_loaded() {
    let keepfile = keepfile("1\n4\n");
    assert_eq!(keepfile.lines.len(), 2);
    // Keep TXT_1
    assert_eq!(keepfile.lines[0].0, 1);
    // Keep TXT_4
    assert_eq!(keepfile.lines[1].0, 4);
}

#[test]
pub fn test_keepfile_inclusion_matcher() {
    let keepfile = keepfile("1\n4\n");
    let matcher = keepfile.into_inclusion_matcher();

    // In the keepfile
    assert!(matcher.accepts("TXT_1"));
    assert!(matcher.accepts("TXT_4"));

    // Not in the keepfile
    assert!(!matcher.accepts("TXT_2"));
    assert!(!matcher.accepts("TXT_3"));
    assert!(!matcher.accepts("TXT_5"));

    // Without a number
    assert!(!matcher.accepts("TXT"));
}

#[test]
fn round_trip_of_written_lines() {
    let keepfile = keepfile("1\n16\n167\n33\n");
    let values: Vec<u32> = keepfile.lines.iter().map(|l| l.0).collect();
    assert_eq!(values, vec![1, 16, 167, 33]);
}

#[test]
fn crlf_lines_parse_like_lf_lines() {
    let keepfile = keepfile("1\r\n16\r\n167\r\n33");
    let values: Vec<u32> = keepfile.lines.iter().map(|l| l.0).collect();
    assert_eq!(values, vec![1, 16, 167, 33]);
}

#[test]
fn blank_and_signed_lines() {
    // A blank line is a format error, reported with its line number.
    let result = KeepFile::parse("1\n\n3\n");
    let error = match result {
        Err(e) => e,
        Ok(_) => panic!("expected an error"),
    };
    assert_eq!(error.0.len(), 1);
    assert_eq!(error.0[0].0, 2);
    assert_eq!(error.0[0].1, "");

    // A leading plus sign is accepted, a minus sign is not.
    let keepfile = keepfile("+12\n");
    assert_eq!(keepfile.lines[0].0, 12);
    assert!(KeepFile::parse("-12\n").is_err());
}

#[test]
fn oversized_number_is_rejected() {
    assert!(KeepFile::parse("4294967295\n").is_ok());
    let result = KeepFile::parse("4294967296\n");
    let error = match result {
        Err(e) => e,
        Ok(_) => panic!("expected an error"),
    };
    assert_eq!(error.0[0].1, "4294967296");
}

#[test]
fn no_digits_matches_no_number() {
    for name in ["TXT", "", "no-digits-here.txt"] {
        for num in [0u32, 1, 7, u32::MAX] {
            assert!(!KeepFile::matches_number(name, num));
        }
    }
}

#[test]
fn last_digit_run_wins() {
    // The last run of digits is the file's number: earlier runs don't count.
    assert!(KeepFile::matches_number("a12b34", 34));
    assert!(!KeepFile::matches_number("a12b34", 35));
    assert!(!KeepFile::matches_number("a12b34", 12));
    assert!(KeepFile::matches_number("IMG_0001.jpg", 1));
    assert!(!KeepFile::matches_number("IMG_0001.jpg", 2));
}

#[test]
fn digit_run_longer_than_u32_matches_nothing() {
    for num in [0u32, 1, u32::MAX] {
        assert!(!KeepFile::matches_number("a99999999999999999999", num));
    }
}

#[test]
fn inclusion_and_exclusion_are_negations() {
    let paths = ["TXT_1", "TXT_2", "TXT_4", "TXT_9", "TXT", "a12b34"];
    let included = keepfile("1\n4\n").into_inclusion_matcher();
    let excluded = keepfile("1\n4\n").into_exclusion_matcher();
    for path in paths {
        assert_eq!(included.accepts(path), !excluded.accepts(path));
    }
}

#[test]
fn keepfile_iter_yields_the_lines() {
    let keepfile = keepfile("5\n6\n");
    let values: Vec<u32> = keepfile.iter().map(|l| l.0).collect();
    assert_eq!(values, vec![5, 6]);
}

#[test]
fn keepfile_error_variants_hold_their_data() {
    let err = KeepFileError::Io("unreadable".to_owned());
    assert!(matches!(err, KeepFileError::Io(m) if m == "unreadable"));

    let bad = match KeepFile::parse("x\n") {
        Err(e) => e,
        Ok(_) => panic!("expected an error"),
    };
    let err = KeepFileError::Format {
        file: "keep.txt".to_owned(),
        lines: bad,
    };
    match err {
        KeepFileError::Format { file, lines } => {
            assert_eq!(file, "keep.txt");
            assert_eq!(lines.0.len(), 1);
        }
        KeepFileError::Io(_) => panic!("wrong variant"),
    }
}

#[test]
fn format_error_lists_every_bad_line() {
    let result: Result<KeepFile, KeepFileFormatError> =
        KeepFile::parse("1\nbad\n3\nworse\n");
    let error = match result {
        Err(e) => e,
        Ok(_) => panic!("expected an error"),
    };
    assert_eq!(error.0.len(), 2);
    assert_eq!(error.0[0].0, 2);
    assert_eq!(error.0[0].1, "bad");
    assert_eq!(error.0[1].0, 4);
    assert_eq!(error.0[1].1, "worse");
}
