use helis::parse::parse_blame;

const SAMPLE: &str = "abcdef1234567890 1 1 1\n\
author Jane Doe\n\
author-mail <jane@example.com>\n\
author-time 1610000000\n\
author-tz +0000\n\
summary Fix bug in parser\n";

#[test]
fn parses_full_porcelain_output() {
    let blame = parse_blame(SAMPLE.as_bytes()).expect("all three fields are present");
    assert_eq!(blame.hash, "abcdef1");
    assert_eq!(blame.author, "<jane@example.com>");
    assert_eq!(blame.summary, "Fix bug in parser");
}

#[test]
fn missing_author_mail_yields_nothing() {
    let out = "abcdef1234567890 1 1 1\n\
author Jane Doe\n\
summary Fix bug in parser\n";
    assert!(parse_blame(out.as_bytes()).is_none());
}

#[test]
fn missing_summary_yields_nothing() {
    let out = "abcdef1234567890 1 1 1\n\
author-mail <jane@example.com>\n";
    assert!(parse_blame(out.as_bytes()).is_none());
}

#[test]
fn short_header_line_yields_nothing() {
    let out = "abc\n\
author-mail <jane@example.com>\n\
summary Fix bug in parser\n";
    assert!(parse_blame(out.as_bytes()).is_none());
}

#[test]
fn empty_output_yields_nothing() {
    assert!(parse_blame(b"").is_none());
}

#[test]
fn fields_are_exact_substrings_after_the_prefixes() {
    let out = "0123456789 1 1\n\
author-mail no brackets here\n\
summary   leading spaces kept\n";
    let blame = parse_blame(out.as_bytes()).unwrap();
    assert_eq!(blame.hash, "0123456");
    assert_eq!(blame.author, "no brackets here");
    assert_eq!(blame.summary, "  leading spaces kept");
}

#[test]
fn first_occurrence_of_each_label_wins() {
    let out = "abcdef1234567890 1 1 1\n\
summary first summary\n\
author-mail <first@example.com>\n\
summary second summary\n\
author-mail <second@example.com>\n";
    let blame = parse_blame(out.as_bytes()).unwrap();
    assert_eq!(blame.author, "<first@example.com>");
    assert_eq!(blame.summary, "first summary");
}

#[test]
fn header_line_never_supplies_a_labelled_field() {
    // The labels count only past the first line; a header that happens to
    // open with one still leaves both fields missing.
    let out = "summary not a summary line\n";
    assert!(parse_blame(out.as_bytes()).is_none());
}

#[test]
fn output_without_trailing_newline_parses_too() {
    let out = "abcdef1234567890 1 1 1\n\
author-mail <jane@example.com>\n\
summary Fix bug in parser";
    let blame = parse_blame(out.as_bytes()).unwrap();
    assert_eq!(blame.summary, "Fix bug in parser");
}

#[test]
fn invalid_encoding_is_substituted_not_kept() {
    let mut out: Vec<u8> = Vec::new();
    out.extend_from_slice(b"abcdef1234567890 1 1 1\n");
    out.extend_from_slice(b"author-mail <jane@example.com>\n");
    out.extend_from_slice(b"summary bad ");
    out.push(0xff);
    out.push(b'\n');
    let blame = parse_blame(&out).unwrap();
    assert_eq!(blame.summary, "bad \u{fffd}");
}
