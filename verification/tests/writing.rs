use hosts_manager::host_manager::{
    default_true, ensure_localhost, get_hosts_file_path, is_localhost_line, localhost_entry,
    parse, serialize, write_hosts_entries_to_file, Dialect, Entry, Line,
};

fn record(ip: &str, hostname: &str, enabled: bool, comment: Option<&str>) -> Line {
    Line::Entry(Entry {
        ip: ip.to_string(),
        hostname: hostname.to_string(),
        enabled,
        comment: comment.map(|c| c.to_string()),
    })
}

fn note(text: &str) -> Line {
    Line::Comment(text.to_string())
}

fn sample() -> Vec<Line> {
    vec![
        note("#local-names"),
        record("127.0.0.1", "localhost", true, None),
        Line::Empty,
        record("10.0.0.2", "b", true, Some("kept # twice")),
        record("fe80::1ff:fe23:4567:890a", "v6", true, Some("")),
        note("   # indented"),
        Line::Empty,
    ]
}

#[test]
fn serialize_pads_the_address_to_fifteen_characters() {
    let text = serialize(
        &[
            record("10.0.0.1", "a", true, None),
            record("10.0.0.2", "b", false, Some("off")),
            note("# c"),
            Line::Empty,
        ],
        Dialect::Extended,
    );
    assert_eq!(text, "10.0.0.1        a\n# 10.0.0.2        b # off\n# c\n\n");
}

#[test]
fn serialize_does_not_pad_an_address_of_fifteen_characters_or_more() {
    let text = serialize(
        &[
            record("255.255.255.255", "broadcast", true, None),
            record("fe80::1ff:fe23:4567:890a", "v6", true, None),
        ],
        Dialect::Simple,
    );
    assert_eq!(text, "255.255.255.255 broadcast\nfe80::1ff:fe23:4567:890a v6\n");
}

#[test]
fn serialize_counts_characters_not_bytes_when_padding() {
    let text = serialize(&[record("\u{e9}\u{e9}", "h", true, None)], Dialect::Simple);
    assert_eq!(text, "\u{e9}\u{e9}              h\n");
}

#[test]
fn serialize_of_no_lines_is_empty() {
    assert_eq!(serialize(&[], Dialect::Simple), "");
    assert_eq!(serialize(&[], Dialect::Extended), "");
}

#[test]
fn serialize_writes_an_empty_comment_as_a_hash_and_a_space() {
    let text = serialize(&[record("1.2.3.4", "a", true, Some(""))], Dialect::Simple);
    assert_eq!(text, "1.2.3.4         a # \n");
}

#[test]
fn simple_dialect_writes_no_marker() {
    let text = serialize(&[record("10.0.0.2", "b", false, None)], Dialect::Simple);
    assert_eq!(text, "10.0.0.2        b\n");
}

#[test]
fn well_formed_lines_are_read_back_as_they_were_written() {
    let lines = sample();
    for dialect in [Dialect::Simple, Dialect::Extended] {
        let text = serialize(&lines, dialect);
        assert_eq!(parse(&text, dialect), lines);
        assert_eq!(serialize(&parse(&text, dialect), dialect), text);
    }
}

#[test]
fn a_comment_of_two_words_is_read_back_in_the_simple_dialect_only() {
    let lines = vec![note("# local names")];
    let text = serialize(&lines, Dialect::Simple);
    assert_eq!(parse(&text, Dialect::Simple), lines);
    assert_eq!(parse(&text, Dialect::Extended), vec![record("local", "names", false, None)]);
}

#[test]
fn a_disabled_record_is_read_back_in_the_extended_dialect() {
    let lines = vec![
        record("10.0.0.9", "off.local", false, Some("later")),
        record("10.0.0.9", "off.local", false, None),
        note("#"),
        note("# single"),
    ];
    let text = serialize(&lines, Dialect::Extended);
    assert_eq!(text, "# 10.0.0.9        off.local # later\n# 10.0.0.9        off.local\n#\n# single\n");
    assert_eq!(parse(&text, Dialect::Extended), lines);
}

#[test]
fn ensure_localhost_puts_one_localhost_record_behind_a_separator() {
    let given = vec![
        record("10.0.0.1", "a", true, None),
        record("127.0.0.1", "localhost", true, None),
        note("# c"),
        record("127.0.0.1", "localhost", false, Some("again")),
        record("127.0.0.1", "other", true, None),
        record("10.0.0.1", "localhost", true, None),
    ];
    let before = given.clone();
    let out = ensure_localhost(&given);
    assert_eq!(given, before);
    assert_eq!(
        out,
        vec![
            note(""),
            record("127.0.0.1", "localhost", true, None),
            record("10.0.0.1", "a", true, None),
            note("# c"),
            record("127.0.0.1", "other", true, None),
            record("10.0.0.1", "localhost", true, None),
        ]
    );
    assert_eq!(out.iter().filter(|l| is_localhost_line(l)).count(), 1);
}

#[test]
fn ensure_localhost_adds_the_record_where_there_is_none() {
    let out = ensure_localhost(&[]);
    assert_eq!(out, vec![note(""), localhost_entry()]);
    let out = ensure_localhost(&[Line::Empty]);
    assert_eq!(out, vec![note(""), localhost_entry(), Line::Empty]);
}

#[test]
fn localhost_entry_is_in_force_and_has_no_comment() {
    assert_eq!(localhost_entry(), record("127.0.0.1", "localhost", true, None));
    assert!(is_localhost_line(&localhost_entry()));
    assert!(!is_localhost_line(&note("127.0.0.1 localhost")));
    assert!(!is_localhost_line(&Line::Empty));
}

#[test]
fn written_content_begins_with_the_separator_and_localhost() {
    let content = write_hosts_entries_to_file(&[
        record("10.0.0.1", "a", true, None),
        record("127.0.0.1", "localhost", true, Some("mine")),
        record("10.0.0.2", "b", false, None),
    ]);
    assert_eq!(
        content,
        "\n127.0.0.1       localhost\n10.0.0.1        a\n# 10.0.0.2        b\n"
    );
}

#[test]
fn written_content_of_no_lines_still_maps_localhost() {
    assert_eq!(write_hosts_entries_to_file(&[]), "\n127.0.0.1       localhost\n");
}

#[test]
fn written_content_reads_back_with_exactly_one_localhost_record() {
    let content = write_hosts_entries_to_file(&sample());
    let back = parse(&content, Dialect::Extended);
    assert_eq!(back[0], Line::Empty);
    assert_eq!(back[1], localhost_entry());
    assert_eq!(back.iter().filter(|l| is_localhost_line(l)).count(), 1);
}

#[test]
fn writing_twice_keeps_one_localhost_record() {
    let once = parse(&write_hosts_entries_to_file(&sample()), Dialect::Extended);
    let twice = parse(&write_hosts_entries_to_file(&once), Dialect::Extended);
    assert_eq!(twice.iter().filter(|l| is_localhost_line(l)).count(), 1);
    assert_eq!(twice.len(), once.len() + 1);
}

#[test]
fn hosts_file_path_on_windows_lies_below_the_system_root() {
    assert_eq!(
        get_hosts_file_path("windows", Some("D:\\Win".to_string())),
        vec!["D:\\Win", "System32", "drivers", "etc", "hosts"]
    );
}

#[test]
fn hosts_file_path_on_windows_falls_back_to_the_default_root() {
    assert_eq!(
        get_hosts_file_path("windows", None),
        vec!["C:\\Windows", "System32", "drivers", "etc", "hosts"]
    );
}

#[test]
fn hosts_file_path_elsewhere_is_fixed() {
    assert_eq!(get_hosts_file_path("linux", None), vec!["/etc/hosts"]);
    assert_eq!(get_hosts_file_path("macos", Some("ignored".to_string())), vec!["/etc/hosts"]);
    assert_eq!(get_hosts_file_path("Windows", None), vec!["/etc/hosts"]);
}

#[test]
fn default_true_is_true() {
    assert!(default_true());
}

#[test]
fn lines_are_equal_when_all_their_fields_are() {
    assert_eq!(record("a", "b", true, Some("c")), record("a", "b", true, Some("c")));
    assert_ne!(record("a", "b", true, Some("c")), record("a", "b", true, None));
    assert_ne!(record("a", "b", true, None), record("a", "b", false, None));
    assert_ne!(record("a", "b", true, None), record("a", "c", true, None));
    assert_ne!(record("a", "b", true, None), record("x", "b", true, None));
    assert_ne!(note("a b"), record("a", "b", true, None));
    assert_ne!(note(""), Line::Empty);
    assert_eq!(Line::Empty, Line::Empty);
    assert_eq!(note("x").clone(), note("x"));
}

#[test]
fn what_is_read_is_read_again_from_what_is_written_of_it() {
    let text = "  10.0.0.1\t a   b c #  why # not \r\n\n \t \n#\n## 10.0.0.2 off#x\nlonely\n # one two\n1.2.3.4 #name\nlast  ";
    for dialect in [Dialect::Simple, Dialect::Extended] {
        let read = parse(text, dialect);
        assert_eq!(read.len(), 9);
        let written = serialize(&read, dialect);
        assert_eq!(parse(&written, dialect), read);
        assert_eq!(serialize(&parse(&written, dialect), dialect), written);
    }
}

#[test]
fn a_comment_that_ends_in_a_carriage_return_loses_it_when_written_and_read() {
    let read = parse("# x\r\r\n", Dialect::Simple);
    assert_eq!(read, vec![note("# x\r")]);
    let written = serialize(&read, Dialect::Simple);
    assert_eq!(written, "# x\r\n");
    assert_eq!(parse(&written, Dialect::Simple), vec![note("# x")]);
}
