use hosts_manager::host_manager::{load_hosts_entries, parse, Dialect, Entry, Line};

fn entry(ip: &str, hostname: &str, enabled: bool, comment: Option<&str>) -> Line {
    Line::Entry(Entry {
        ip: ip.to_string(),
        hostname: hostname.to_string(),
        enabled,
        comment: comment.map(|c| c.to_string()),
    })
}

fn comment(text: &str) -> Line {
    Line::Comment(text.to_string())
}

#[test]
fn parse_reads_records_comments_and_blank_lines() {
    let lines = parse(
        "127.0.0.1 localhost\n# a comment\n\n192.168.1.5 myserver #note",
        Dialect::Simple,
    );
    assert_eq!(
        lines,
        vec![
            entry("127.0.0.1", "localhost", true, None),
            comment("# a comment"),
            Line::Empty,
            entry("192.168.1.5", "myserver", true, Some("note")),
        ]
    );
}

#[test]
fn parse_keeps_the_order_and_the_number_of_lines() {
    let lines = parse("b 2\n\na 1\n# c\n", Dialect::Simple);
    assert_eq!(
        lines,
        vec![entry("b", "2", true, None), Line::Empty, entry("a", "1", true, None), comment("# c")]
    );
}

#[test]
fn parse_of_empty_text_has_no_lines() {
    assert_eq!(parse("", Dialect::Simple), vec![]);
    assert_eq!(parse("", Dialect::Extended), vec![]);
}

#[test]
fn parse_of_one_line_feed_is_one_blank_line() {
    assert_eq!(parse("\n", Dialect::Simple), vec![Line::Empty]);
    assert_eq!(parse("\n\n", Dialect::Extended), vec![Line::Empty, Line::Empty]);
}

#[test]
fn a_line_of_white_space_is_blank() {
    assert_eq!(parse("   \t \n", Dialect::Simple), vec![Line::Empty]);
    assert_eq!(parse("\u{3000}\u{a0}", Dialect::Extended), vec![Line::Empty]);
}

#[test]
fn a_line_with_one_field_is_kept_as_a_comment_verbatim() {
    assert_eq!(parse("onlyonefield", Dialect::Simple), vec![comment("onlyonefield")]);
    assert_eq!(parse("  lonely  \nx", Dialect::Extended), vec![comment("  lonely  "), comment("x")]);
}

#[test]
fn a_record_whose_name_is_behind_the_hash_is_a_comment() {
    assert_eq!(parse("10.0.0.1 #name", Dialect::Simple), vec![comment("10.0.0.1 #name")]);
    assert_eq!(parse("10.0.0.1 #name", Dialect::Extended), vec![comment("10.0.0.1 #name")]);
}

#[test]
fn fields_after_the_second_are_ignored() {
    assert_eq!(
        parse("1.2.3.4 a b c", Dialect::Simple),
        vec![entry("1.2.3.4", "a", true, None)]
    );
}

#[test]
fn fields_may_be_separated_by_any_white_space() {
    assert_eq!(
        parse("  1.2.3.4\t\t a\u{3000}", Dialect::Simple),
        vec![entry("1.2.3.4", "a", true, None)]
    );
    assert_eq!(
        parse("1.2.3.4\u{2003}host", Dialect::Extended),
        vec![entry("1.2.3.4", "host", true, None)]
    );
}

#[test]
fn the_comment_is_what_follows_the_first_hash_trimmed() {
    assert_eq!(
        parse("1.2.3.4 a #  x # y  ", Dialect::Simple),
        vec![entry("1.2.3.4", "a", true, Some("x # y"))]
    );
}

#[test]
fn a_hash_with_nothing_behind_it_gives_an_empty_comment() {
    assert_eq!(parse("1.2.3.4 a #", Dialect::Simple), vec![entry("1.2.3.4", "a", true, Some(""))]);
    assert_eq!(
        parse("1.2.3.4 a #   ", Dialect::Extended),
        vec![entry("1.2.3.4", "a", true, Some(""))]
    );
}

#[test]
fn simple_dialect_reads_every_hash_line_as_a_comment() {
    assert_eq!(
        parse("# 10.0.0.1 build.local", Dialect::Simple),
        vec![comment("# 10.0.0.1 build.local")]
    );
    assert_eq!(parse("   #x y", Dialect::Simple), vec![comment("   #x y")]);
}

#[test]
fn extended_dialect_reads_a_marked_record_as_disabled() {
    let lines = parse("# 10.0.0.1 build.local # ci\n#\n# lonely", Dialect::Extended);
    assert_eq!(
        lines,
        vec![entry("10.0.0.1", "build.local", false, Some("ci")), comment("#"), comment("# lonely")]
    );
}

#[test]
fn extended_dialect_strips_every_leading_hash() {
    assert_eq!(
        parse("##  1.2.3.4 a", Dialect::Extended),
        vec![entry("1.2.3.4", "a", false, None)]
    );
    assert_eq!(parse("#1.2.3.4 a", Dialect::Extended), vec![entry("1.2.3.4", "a", false, None)]);
}

#[test]
fn extended_dialect_reads_a_two_word_comment_as_a_disabled_record() {
    assert_eq!(
        parse("# a comment", Dialect::Extended),
        vec![entry("a", "comment", false, None)]
    );
}

#[test]
fn a_carriage_return_before_a_line_feed_ends_the_line() {
    assert_eq!(
        parse("# x\r\n1.2.3.4 a\r\n", Dialect::Simple),
        vec![comment("# x"), entry("1.2.3.4", "a", true, None)]
    );
}

#[test]
fn a_carriage_return_at_the_end_of_the_text_stays_in_a_comment() {
    assert_eq!(parse("# x\r\n# y\r", Dialect::Simple), vec![comment("# x"), comment("# y\r")]);
}

#[test]
fn only_one_carriage_return_is_taken_from_a_line() {
    assert_eq!(parse("# x\r\r\n", Dialect::Simple), vec![comment("# x\r")]);
}

#[test]
fn load_hosts_entries_reads_the_extended_dialect() {
    let text = "127.0.0.1 localhost\n# 10.0.0.1 off\n# note\n";
    assert_eq!(load_hosts_entries(text), parse(text, Dialect::Extended));
    assert_eq!(
        load_hosts_entries(text),
        vec![
            entry("127.0.0.1", "localhost", true, None),
            entry("10.0.0.1", "off", false, None),
            comment("# note"),
        ]
    );
}

#[test]
fn parse_agrees_with_the_lines_of_the_standard_library() {
    let text = "a 1\r\n\n  # c \r\r\nb 2 # k\nlast\r";
    let expected: Vec<&str> = text.lines().collect();
    let lines = parse(text, Dialect::Simple);
    assert_eq!(lines.len(), expected.len());
    assert_eq!(lines[2], comment(expected[2]));
    assert_eq!(lines[4], comment(expected[4]));
}
