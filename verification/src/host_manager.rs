//! The line model of a hosts file: its lines as typed values, the reader that
//! classifies them and the writer that renders them.

use crate::text::{
    after_first_word, chars_of, clone_option, find, first_word, is_text, option_eq, option_view,
    position, same_text, split_word, string_of, strings_view, trim, trimmed,
};
use vstd::prelude::*;
use vstd::slice::slice_subrange;
use vstd::std_specs::cmp::PartialEqSpecImpl;
use vstd::string::{StrSliceExecFns, StringExecFns};

verus! {

/// One host record: an address, a name, whether the record is in force, and
/// the comment that ends its line.
#[derive(Debug)]
pub struct Entry {
    pub ip: String,
    pub hostname: String,
    pub enabled: bool,
    pub comment: Option<String>,
}

/// One line of a hosts file.
#[derive(Debug)]
pub enum Line {
    Entry(Entry),
    Comment(String),
    Empty,
}

/// What an [`Entry`] holds, as character sequences.
pub struct EntryView {
    pub ip: Seq<char>,
    pub hostname: Seq<char>,
    pub enabled: bool,
    pub comment: Option<Seq<char>>,
}

/// What a [`Line`] holds, as character sequences.
pub enum LineView {
    Entry(EntryView),
    Comment(Seq<char>),
    Empty,
}

impl View for Entry {
    type V = EntryView;

    open spec fn view(&self) -> EntryView {
        EntryView {
            ip: self.ip@,
            hostname: self.hostname@,
            enabled: self.enabled,
            comment: option_view(self.comment),
        }
    }
}

impl View for Line {
    type V = LineView;

    open spec fn view(&self) -> LineView {
        match *self {
            Line::Entry(e) => LineView::Entry(e@),
            Line::Comment(t) => LineView::Comment(t@),
            Line::Empty => LineView::Empty,
        }
    }
}

/// The views of a sequence of lines, in order.
pub open spec fn lines_view(lines: Seq<Line>) -> Seq<LineView> {
    Seq::new(lines.len(), |i: int| lines[i]@)
}

/// The value that `enabled` takes where a stored record does not give it.
pub fn default_true() -> (r: bool)
    ensures
        r,
{
    true
}

impl Clone for Entry {
    fn clone(&self) -> (r: Self)
        ensures
            r == *self,
    {
        Entry {
            ip: self.ip.clone(),
            hostname: self.hostname.clone(),
            enabled: self.enabled,
            comment: clone_option(&self.comment),
        }
    }
}

impl Clone for Line {
    fn clone(&self) -> (r: Self)
        ensures
            r == *self,
    {
        match self {
            Line::Entry(e) => Line::Entry(e.clone()),
            Line::Comment(t) => Line::Comment(t.clone()),
            Line::Empty => Line::Empty,
        }
    }
}

impl PartialEq for Entry {
    fn eq(&self, other: &Self) -> (r: bool) {
        self.ip == other.ip && self.hostname == other.hostname && self.enabled == other.enabled
            && option_eq(&self.comment, &other.comment)
    }
}

impl PartialEqSpecImpl for Entry {
    open spec fn obeys_eq_spec() -> bool {
        true
    }

    open spec fn eq_spec(&self, other: &Self) -> bool {
        self@ == other@
    }
}

impl Eq for Entry {

}

impl PartialEq for Line {
    fn eq(&self, other: &Self) -> (r: bool) {
        match self {
            Line::Entry(a) => match other {
                Line::Entry(b) => *a == *b,
                _ => false,
            },
            Line::Comment(a) => match other {
                Line::Comment(b) => *a == *b,
                _ => false,
            },
            Line::Empty => match other {
                Line::Empty => true,
                _ => false,
            },
        }
    }
}

impl PartialEqSpecImpl for Line {
    open spec fn obeys_eq_spec() -> bool {
        true
    }

    open spec fn eq_spec(&self, other: &Self) -> bool {
        self@ == other@
    }
}

impl Eq for Line {

}

/// How a leading `#` is read and written.
#[derive(Clone, Copy, Debug, PartialEq, Eq, Structural)]
pub enum Dialect {
    /// A line that begins with `#` is a comment, and every record is in force.
    Simple,
    /// A leading `#` before a record marks the record as not in force.
    Extended,
}

/// `s` without a carriage return at its end.
pub open spec fn without_cr(s: Seq<char>) -> Seq<char> {
    if s.len() > 0 && s.last() == '\r' {
        s.drop_last()
    } else {
        s
    }
}

/// The lines of `s`. A line ends at a line feed, or at a carriage return
/// directly followed by one; the last line need not end at all.
pub open spec fn split_lines(s: Seq<char>) -> Seq<Seq<char>>
    decreases s.len(),
{
    let n = position(s, '\n');
    if s.len() == 0 {
        Seq::empty()
    } else if 0 <= n < s.len() {
        seq![without_cr(s.take(n))] + split_lines(s.skip(n + 1))
    } else {
        seq![s]
    }
}

/// `s` without the `#` characters that it begins with.
pub open spec fn unmarked(s: Seq<char>) -> Seq<char>
    decreases s.len(),
{
    if s.len() > 0 && s[0] == '#' {
        unmarked(s.drop_first())
    } else {
        s
    }
}

/// The record that `body` holds: its first two fields are the address and the
/// name, and what follows the first `#` is the comment. `None` where `body`
/// has fewer than two fields before the comment.
pub open spec fn parsed_record(body: Seq<char>, enabled: bool) -> Option<EntryView> {
    let k = position(body, '#');
    let fields = body.take(k);
    let comment = if k < body.len() {
        Some(trimmed(body.skip(k + 1)))
    } else {
        None
    };
    let ip = first_word(fields);
    let hostname = first_word(after_first_word(fields));
    if hostname.len() > 0 {
        Some(EntryView { ip, hostname, enabled, comment })
    } else {
        None
    }
}

/// The line that the characters `line` stand for.
pub open spec fn parsed_line(line: Seq<char>, dialect: Dialect) -> LineView {
    let t = trimmed(line);
    if t.len() == 0 {
        LineView::Empty
    } else if t[0] == '#' && dialect == Dialect::Simple {
        LineView::Comment(line)
    } else {
        let marked = t[0] == '#';
        let body = if marked {
            trimmed(unmarked(t))
        } else {
            t
        };
        match parsed_record(body, !marked) {
            Some(e) => LineView::Entry(e),
            None => LineView::Comment(line),
        }
    }
}

/// Each of `lines` read as a line.
pub open spec fn parsed_lines(lines: Seq<Seq<char>>, dialect: Dialect) -> Seq<LineView> {
    Seq::new(lines.len(), |i: int| parsed_line(lines[i], dialect))
}

/// The lines that the text `s` stands for, in the order of the text.
pub open spec fn parsed(s: Seq<char>, dialect: Dialect) -> Seq<LineView> {
    parsed_lines(split_lines(s), dialect)
}

/// The width to which an address is padded.
pub open spec fn ip_width() -> nat {
    15
}

/// `s` followed by as many spaces as it takes to reach `width` characters.
pub open spec fn padded(s: Seq<char>, width: nat) -> Seq<char> {
    if s.len() >= width {
        s
    } else {
        s + Seq::new((width - s.len()) as nat, |i: int| ' ')
    }
}

/// The text of a record, without the line feed.
pub open spec fn rendered_entry(e: EntryView, dialect: Dialect) -> Seq<char> {
    let marker = if dialect == Dialect::Extended && !e.enabled {
        seq!['#', ' ']
    } else {
        Seq::empty()
    };
    let comment = match e.comment {
        Some(c) => seq![' ', '#', ' '] + c,
        None => Seq::empty(),
    };
    marker + padded(e.ip, ip_width()) + seq![' '] + e.hostname + comment
}

/// The text of a line, without the line feed.
pub open spec fn rendered_line(line: LineView, dialect: Dialect) -> Seq<char> {
    match line {
        LineView::Entry(e) => rendered_entry(e, dialect),
        LineView::Comment(t) => t,
        LineView::Empty => Seq::empty(),
    }
}

/// The text of `lines`: each line in order, each followed by a line feed.
pub open spec fn rendered(lines: Seq<LineView>, dialect: Dialect) -> Seq<char>
    decreases lines.len(),
{
    if lines.len() == 0 {
        Seq::empty()
    } else {
        rendered_line(lines[0], dialect) + seq!['\n'] + rendered(lines.drop_first(), dialect)
    }
}

/// Reading lines one after another reads their concatenation.
pub proof fn lemma_parsed_lines_concat(a: Seq<Seq<char>>, b: Seq<Seq<char>>, dialect: Dialect)
    ensures
        parsed_lines(a + b, dialect) == parsed_lines(a, dialect) + parsed_lines(b, dialect),
{
    assert(parsed_lines(a + b, dialect) =~= parsed_lines(a, dialect) + parsed_lines(
        b,
        dialect,
    ));
}

/// `s` without the `#` characters that it begins with.
pub fn skip_marker<'a>(s: &'a [char]) -> (r: &'a [char])
    ensures
        r@ == unmarked(s@),
{
    let mut i: usize = 0;
    assert(s@.skip(0) =~= s@);
    while i < s.len() && s[i] == '#'
        invariant
            i <= s.len(),
            unmarked(s@) == unmarked(s@.skip(i as int)),
        decreases s.len() - i,
    {
        assert(s@.skip(i as int).drop_first() == s@.skip(i + 1));
        i = i + 1;
    }
    slice_subrange(s, i, s.len())
}

/// Reads a record from `body`.
pub fn parse_record(body: &[char], enabled: bool) -> (r: Option<Entry>)
    ensures
        r is Some == parsed_record(body@, enabled) is Some,
        r matches Some(e) ==> parsed_record(body@, enabled) == Some(e@),
{
    let k = find(body, '#');
    let fields = slice_subrange(body, 0, k);
    let comment = if k < body.len() {
        Some(string_of(trim(slice_subrange(body, k + 1, body.len()))))
    } else {
        None
    };
    let (ip, rest) = split_word(fields);
    let (hostname, _) = split_word(rest);
    if hostname.len() > 0 {
        Some(Entry { ip: string_of(ip), hostname: string_of(hostname), enabled, comment })
    } else {
        None
    }
}

/// Reads one line.
pub fn parse_line(line: &[char], dialect: Dialect) -> (r: Line)
    ensures
        r@ == parsed_line(line@, dialect),
{
    let t = trim(line);
    if t.len() == 0 {
        return Line::Empty;
    }
    let marked = t[0] == '#';
    if marked && dialect == Dialect::Simple {
        return Line::Comment(string_of(line));
    }
    let body = if marked {
        trim(skip_marker(t))
    } else {
        t
    };
    match parse_record(body, !marked) {
        Some(e) => Line::Entry(e),
        None => Line::Comment(string_of(line)),
    }
}

/// Reads the text of a hosts file into its lines, in the order of the text.
/// No line is dropped: one that holds no record is kept as a comment.
pub fn parse(text: &str, dialect: Dialect) -> (lines: Vec<Line>)
    ensures
        lines_view(lines@) == parsed(text@, dialect),
{
    let chars = chars_of(text);
    let mut rest: &[char] = chars.as_slice();
    let mut lines: Vec<Line> = Vec::new();
    while rest.len() > 0
        invariant
            parsed(text@, dialect) == lines_view(lines@) + parsed(rest@, dialect),
        decreases rest.len(),
    {
        let ghost before = lines_view(lines@);
        let ghost whole = rest@;
        let n = find(rest, '\n');
        if n < rest.len() {
            let mut line = slice_subrange(rest, 0, n);
            if n > 0 && line[n - 1] == '\r' {
                line = slice_subrange(line, 0, n - 1);
            }
            lines.push(parse_line(line, dialect));
            rest = slice_subrange(rest, n + 1, rest.len());
            proof {
                lemma_parsed_lines_concat(seq![line@], split_lines(rest@), dialect);
                assert(parsed_lines(seq![line@], dialect) =~= seq![parsed_line(line@, dialect)]);
            }
        } else {
            lines.push(parse_line(rest, dialect));
            rest = slice_subrange(rest, n, n);
            proof {
                assert(parsed(whole, dialect) =~= seq![parsed_line(whole, dialect)]);
                assert(parsed(rest@, dialect) =~= Seq::empty());
            }
        }
        assert(lines_view(lines@) =~= before.push(lines@.last()@));
    }
    assert(parsed(rest@, dialect) =~= Seq::empty());
    lines
}

/// Appends the text of a record to `out`.
pub fn push_entry(out: &mut String, entry: &Entry, dialect: Dialect)
    ensures
        final(out)@ == old(out)@ + rendered_entry(entry@, dialect),
{
    if dialect == Dialect::Extended && !entry.enabled {
        out.push('#');
        out.push(' ');
    }
    let ghost marked = out@;
    out.append(entry.ip.as_str());
    let mut n: usize = entry.ip.as_str().unicode_len();
    while n < 15
        invariant
            n >= entry.ip@.len(),
            n <= 15 || n == entry.ip@.len(),
            out@ == marked + entry.ip@ + Seq::new((n - entry.ip@.len()) as nat, |i: int| ' '),
        decreases 15 - n,
    {
        out.push(' ');
        n = n + 1;
        assert(Seq::new((n - entry.ip@.len()) as nat, |i: int| ' ') =~= Seq::new(
            (n - 1 - entry.ip@.len()) as nat,
            |i: int| ' ',
        ).push(' '));
    }
    assert(out@ =~= marked + padded(entry.ip@, ip_width()));
    out.push(' ');
    out.append(entry.hostname.as_str());
    match &entry.comment {
        Some(c) => {
            out.push(' ');
            out.push('#');
            out.push(' ');
            out.append(c.as_str());
        },
        None => {},
    }
    assert(out@ =~= old(out)@ + rendered_entry(entry@, dialect));
}

/// Appends the text of a line, without a line feed, to `out`.
pub fn push_line(out: &mut String, line: &Line, dialect: Dialect)
    ensures
        final(out)@ == old(out)@ + rendered_line(line@, dialect),
{
    match line {
        Line::Entry(e) => push_entry(out, e, dialect),
        Line::Comment(t) => out.append(t.as_str()),
        Line::Empty => {
            assert(out@ =~= old(out)@ + rendered_line(line@, dialect));
        },
    }
}

/// Writes `lines` as text: each line in order, each followed by a line feed.
pub fn serialize(lines: &[Line], dialect: Dialect) -> (text: String)
    ensures
        text@ == rendered(lines_view(lines@), dialect),
{
    let mut text = String::new();
    let mut i: usize = 0;
    let ghost all = lines_view(lines@);
    assert(all.skip(0) =~= all);
    while i < lines.len()
        invariant
            i <= lines.len(),
            all == lines_view(lines@),
            text@ + rendered(all.skip(i as int), dialect) == rendered(all, dialect),
        decreases lines.len() - i,
    {
        let ghost before = text@;
        push_line(&mut text, &lines[i], dialect);
        text.push('\n');
        proof {
            let tail = all.skip(i as int);
            assert(tail[0] == lines@[i as int]@);
            assert(tail.drop_first() =~= all.skip(i + 1));
            assert(text@ + rendered(all.skip(i + 1), dialect) =~= before + rendered(
                tail,
                dialect,
            ));
        }
        i = i + 1;
    }
    assert(text@ =~= text@ + rendered(all.skip(i as int), dialect));
    text
}

/// Whether `line` is a record that maps `127.0.0.1` to `localhost`, whatever
/// its comment and whether or not it is in force.
pub open spec fn is_localhost(line: LineView) -> bool {
    line matches LineView::Entry(e) && e.ip == "127.0.0.1"@ && e.hostname == "localhost"@
}

/// The record that every written hosts file holds.
pub open spec fn localhost_line() -> LineView {
    LineView::Entry(
        EntryView { ip: "127.0.0.1"@, hostname: "localhost"@, enabled: true, comment: None },
    )
}

/// The lines of `lines` that are no localhost record, in their order.
pub open spec fn without_localhost(lines: Seq<LineView>) -> Seq<LineView>
    decreases lines.len(),
{
    if lines.len() == 0 {
        Seq::empty()
    } else if is_localhost(lines.last()) {
        without_localhost(lines.drop_last())
    } else {
        without_localhost(lines.drop_last()).push(lines.last())
    }
}

/// What is written for `lines`: a blank separator, the localhost record, then
/// the lines of `lines` that are no localhost record.
pub open spec fn with_localhost(lines: Seq<LineView>) -> Seq<LineView> {
    seq![LineView::Comment(Seq::empty()), localhost_line()] + without_localhost(lines)
}

/// Whether `line` maps `127.0.0.1` to `localhost`.
pub fn is_localhost_line(line: &Line) -> (r: bool)
    ensures
        r == is_localhost(line@),
{
    match line {
        Line::Entry(e) => is_text(&e.ip, "127.0.0.1") && is_text(&e.hostname, "localhost"),
        _ => false,
    }
}

/// The record that maps `127.0.0.1` to `localhost`.
pub fn localhost_entry() -> (r: Line)
    ensures
        r@ == localhost_line(),
{
    Line::Entry(
        Entry {
            ip: String::from_str("127.0.0.1"),
            hostname: String::from_str("localhost"),
            enabled: true,
            comment: None,
        },
    )
}

/// A copy of `entries` that holds the localhost record exactly once: after a
/// blank separator at the head, with every localhost record of `entries` left
/// out. `entries` itself is not changed.
pub fn ensure_localhost(entries: &[Line]) -> (out: Vec<Line>)
    ensures
        lines_view(out@) == with_localhost(lines_view(entries@)),
{
    let mut out: Vec<Line> = Vec::new();
    out.push(Line::Comment(String::new()));
    out.push(localhost_entry());
    let ghost head = lines_view(out@);
    let ghost all = lines_view(entries@);
    assert(head =~= seq![LineView::Comment(Seq::empty()), localhost_line()]);
    assert(all.take(0) =~= Seq::empty());
    let mut i: usize = 0;
    while i < entries.len()
        invariant
            i <= entries.len(),
            all == lines_view(entries@),
            lines_view(out@) == head + without_localhost(all.take(i as int)),
        decreases entries.len() - i,
    {
        let ghost before = lines_view(out@);
        assert(all.take(i + 1).drop_last() =~= all.take(i as int));
        assert(all.take(i + 1).last() == entries@[i as int]@);
        if !is_localhost_line(&entries[i]) {
            out.push(entries[i].clone());
            assert(lines_view(out@) =~= before.push(entries@[i as int]@));
        }
        i = i + 1;
        assert(lines_view(out@) =~= head + without_localhost(all.take(i as int)));
    }
    assert(all.take(i as int) =~= all);
    out
}

/// The text that a write of `entries` puts in the hosts file: the lines of
/// [`ensure_localhost`], in the extended dialect.
pub fn write_hosts_entries_to_file(entries: &[Line]) -> (content: String)
    ensures
        content@ == rendered(with_localhost(lines_view(entries@)), Dialect::Extended),
{
    let lines = ensure_localhost(entries);
    serialize(lines.as_slice(), Dialect::Extended)
}

/// The lines of a hosts file whose text is `contents`, in the extended dialect.
pub fn load_hosts_entries(contents: &str) -> (lines: Vec<Line>)
    ensures
        lines_view(lines@) == parsed(contents@, Dialect::Extended),
{
    parse(contents, Dialect::Extended)
}

/// The root under which the hosts file lies on Windows where the system
/// names none.
pub open spec fn default_system_root() -> Seq<char> {
    "C:\\Windows"@
}

/// Where the hosts file lies, as the parts of its path: on Windows the system
/// root and the four names below it, elsewhere the one fixed path.
pub open spec fn hosts_path_parts(os: Seq<char>, system_root: Option<Seq<char>>) -> Seq<Seq<char>> {
    if os == "windows"@ {
        let root = match system_root {
            Some(r) => r,
            None => default_system_root(),
        };
        seq![root, "System32"@, "drivers"@, "etc"@, "hosts"@]
    } else {
        seq!["/etc/hosts"@]
    }
}

/// The parts of the path of the hosts file on the system named `os`, where
/// `system_root` is what the system gives as its root, if anything.
pub fn get_hosts_file_path(os: &str, system_root: Option<String>) -> (parts: Vec<String>)
    ensures
        strings_view(parts@) == hosts_path_parts(os@, option_view(system_root)),
{
    let mut parts: Vec<String> = Vec::new();
    if same_text(os, "windows") {
        let root = match system_root {
            Some(r) => r,
            None => String::from_str("C:\\Windows"),
        };
        parts.push(root);
        parts.push(String::from_str("System32"));
        parts.push(String::from_str("drivers"));
        parts.push(String::from_str("etc"));
        parts.push(String::from_str("hosts"));
    } else {
        parts.push(String::from_str("/etc/hosts"));
    }
    assert(strings_view(parts@) =~= hosts_path_parts(os@, option_view(system_root)));
    parts
}

} // verus!
