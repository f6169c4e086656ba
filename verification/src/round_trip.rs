//! Writing lines and reading them back: which lines come back as they were.

use crate::host_manager::{
    ip_width, is_localhost, localhost_line, padded, parsed, parsed_line, parsed_lines,
    parsed_record, rendered, rendered_entry, rendered_line, split_lines, unmarked,
    with_localhost, without_cr, without_localhost, Dialect, EntryView, LineView,
};
use crate::text::{
    after_first_word, first_word, is_space, lacks, lemma_first_word_is, lemma_first_word_lacks,
    lemma_position_bounds, lemma_position_is, lemma_trimmed_ends, lemma_trimmed_lacks,
    lemma_trimmed_end_after, lemma_trimmed_start_after, position, spaceless, trimmed,
    trimmed_end, trimmed_start,
};
use vstd::prelude::*;

verus! {

/// A field of a record: not empty, with no white space and no `#` in it.
pub open spec fn is_word(s: Seq<char>) -> bool {
    &&& s.len() > 0
    &&& forall|i: int| 0 <= i < s.len() ==> !is_space(#[trigger] s[i]) && s[i] != '#'
}

/// The comment of a record as a reader gives it: on one line, with no white
/// space at either end.
pub open spec fn is_comment_text(c: Seq<char>) -> bool {
    &&& lacks(c, '\n')
    &&& c.len() > 0 ==> !is_space(c[0]) && !is_space(c.last())
}

/// A line that is read back as it was written. A record has words for its
/// address and its name and a comment as a reader gives it, and in the simple
/// dialect it is in force. A comment stands on one line, does not end in a
/// carriage return, and is read as a comment: it is not blank, and where the
/// dialect looks for a record in it, it has fewer than two fields before its
/// first `#`.
pub open spec fn well_formed(line: LineView, dialect: Dialect) -> bool {
    match line {
        LineView::Entry(e) => {
            &&& is_word(e.ip)
            &&& is_word(e.hostname)
            &&& dialect == Dialect::Simple ==> e.enabled
            &&& e.comment matches Some(c) ==> is_comment_text(c)
        },
        LineView::Comment(t) => {
            &&& lacks(t, '\n')
            &&& t.len() > 0 ==> t.last() != '\r'
            &&& parsed_line(t, dialect) is Comment
        },
        LineView::Empty => true,
    }
}

/// Every line of `lines` is well formed.
pub open spec fn all_well_formed(lines: Seq<LineView>, dialect: Dialect) -> bool {
    forall|i: int| 0 <= i < lines.len() ==> well_formed(#[trigger] lines[i], dialect)
}

/// The address and the name of a record as they are written.
spec fn core_text(e: EntryView) -> Seq<char> {
    padded(e.ip, ip_width()) + seq![' '] + e.hostname
}

/// The comment of a record as it is written.
spec fn comment_text(comment: Option<Seq<char>>) -> Seq<char> {
    match comment {
        Some(c) => seq![' ', '#', ' '] + c,
        None => Seq::empty(),
    }
}

/// The text of a record without its marker and without white space at its
/// end.
spec fn record_text(e: EntryView) -> Seq<char> {
    match e.comment {
        Some(c) => if c.len() > 0 {
            core_text(e) + seq![' ', '#'] + (seq![' '] + c)
        } else {
            core_text(e) + seq![' ', '#']
        },
        None => core_text(e),
    }
}

/// The address and the name as they are written begin with the address, end
/// with the name, and hold neither `#` nor a line feed.
proof fn lemma_core_text(e: EntryView)
    requires
        is_word(e.ip),
        is_word(e.hostname),
    ensures
        core_text(e).len() > e.ip.len() + e.hostname.len(),
        core_text(e)[0] == e.ip[0],
        core_text(e).last() == e.hostname.last(),
        forall|i: int| 0 <= i < core_text(e).len() ==> (#[trigger] core_text(e)[i]) != '#',
        forall|i: int| 0 <= i < core_text(e).len() ==> (#[trigger] core_text(e)[i]) != '\n',
{
    let p = padded(e.ip, ip_width());
    assert(p.len() >= e.ip.len());
    assert(p[0] == e.ip[0]);
    assert forall|i: int| 0 <= i < p.len() implies (#[trigger] p[i]) != '#' && p[i] != '\n' by {
        if i < e.ip.len() {
            assert(p[i] == e.ip[i]);
            assert(!is_space(e.ip[i]));
        }
    }
    let t = core_text(e);
    assert forall|i: int| 0 <= i < t.len() implies (#[trigger] t[i]) != '#' && t[i] != '\n' by {
        if i < p.len() {
            assert(t[i] == p[i]);
        } else if i > p.len() {
            assert(t[i] == e.hostname[i - p.len() - 1]);
            assert(!is_space(e.hostname[i - p.len() - 1]));
        }
    }
    assert(t.last() == e.hostname[e.hostname.len() - 1]);
}

/// The first two fields of a record as it is written are its address and
/// its name.
proof fn lemma_fields(e: EntryView, tail: Seq<char>)
    requires
        is_word(e.ip),
        is_word(e.hostname),
        tail.len() > 0 ==> is_space(tail[0]),
    ensures
        first_word(core_text(e) + tail) == e.ip,
        first_word(after_first_word(core_text(e) + tail)) == e.hostname,
{
    let p = padded(e.ip, ip_width());
    let gap = p.skip(e.ip.len() as int) + seq![' '];
    let rest = gap + (e.hostname + tail);
    assert(p.take(e.ip.len() as int) =~= e.ip);
    assert(core_text(e) + tail =~= e.ip + rest);
    assert(is_space(rest[0])) by {
        assert(rest[0] == gap[0]);
        if p.len() > e.ip.len() {
            assert(gap[0] == p[e.ip.len() as int]);
        }
    }
    assert(spaceless(e.ip));
    lemma_first_word_is(e.ip, rest);
    assert forall|i: int| 0 <= i < gap.len() implies is_space(#[trigger] gap[i]) by {
        if i < p.len() - e.ip.len() {
            assert(gap[i] == p[i + e.ip.len()]);
        }
    }
    lemma_trimmed_start_after(gap, e.hostname + tail);
    assert(spaceless(e.hostname));
    lemma_first_word_is(e.hostname, tail);
}

/// A record that is written is read as it was.
proof fn lemma_parsed_record(e: EntryView, enabled: bool)
    requires
        is_word(e.ip),
        is_word(e.hostname),
        e.comment matches Some(c) ==> is_comment_text(c),
    ensures
        parsed_record(record_text(e), enabled) == Some(EntryView { enabled, ..e }),
{
    let t = record_text(e);
    let core = core_text(e);
    lemma_core_text(e);
    match e.comment {
        None => {
            lemma_position_is(t, '#', t.len() as int);
            assert(t.take(t.len() as int) =~= t);
            assert(t =~= core + Seq::<char>::empty());
            lemma_fields(e, Seq::empty());
        },
        Some(c) => {
            let k: int = core.len() as int + 1;
            assert forall|i: int| 0 <= i < k implies t[i] != '#' by {
                if i < core.len() {
                    assert(t[i] == core[i]);
                }
            }
            assert(t[k] == '#');
            lemma_position_is(t, '#', k);
            assert(t.take(k) =~= core + seq![' ']);
            lemma_fields(e, seq![' ']);
            if c.len() > 0 {
                assert(t.skip(k + 1) =~= seq![' '] + c);
                lemma_trimmed_start_after(seq![' '], c);
                assert(trimmed_start(c) == c);
                assert(trimmed_end(c) == c);
            } else {
                assert(t.skip(k + 1) =~= Seq::<char>::empty());
                assert(c =~= Seq::<char>::empty());
            }
        },
    }
}

/// Trimming the written record at its end leaves a text that begins with the
/// address and ends with no white space.
proof fn lemma_record_text(e: EntryView)
    requires
        is_word(e.ip),
        is_word(e.hostname),
        e.comment matches Some(c) ==> is_comment_text(c),
    ensures
        trimmed_end(core_text(e) + comment_text(e.comment)) == record_text(e),
        record_text(e).len() > 0,
        record_text(e)[0] == e.ip[0],
        !is_space(record_text(e).last()),
{
    let full = core_text(e) + comment_text(e.comment);
    let t = record_text(e);
    let core = core_text(e);
    lemma_core_text(e);
    assert(t[0] == core[0]);
    match e.comment {
        None => {
            assert(full =~= t);
            assert(!is_space(e.hostname[e.hostname.len() - 1]));
            assert(t.last() == e.hostname.last());
            assert(trimmed_end(t) == t);
        },
        Some(c) => {
            if c.len() > 0 {
                assert(full =~= t);
                assert(t.last() == c.last());
                assert(trimmed_end(t) == t);
            } else {
                assert(full.drop_last() =~= t);
                assert(full.last() == ' ');
                assert(t.last() == '#');
                assert(trimmed_end(t) == t);
            }
        },
    }
}

/// A well-formed record that is written is read as it was.
proof fn lemma_entry_round_trip(e: EntryView, dialect: Dialect)
    requires
        well_formed(LineView::Entry(e), dialect),
    ensures
        parsed_line(rendered_entry(e, dialect), dialect) == LineView::Entry(e),
{
    let full = core_text(e) + comment_text(e.comment);
    let t = record_text(e);
    let r = rendered_entry(e, dialect);
    lemma_record_text(e);
    lemma_core_text(e);
    assert(full[0] == e.ip[0]);
    if dialect == Dialect::Extended && !e.enabled {
        let marker = seq!['#', ' '];
        assert(r =~= marker + full);
        assert(r[0] == '#');
        lemma_trimmed_end_after(marker, full);
        let line = marker + t;
        assert(trimmed(r) == line);
        assert(line[0] == '#');
        assert(line.drop_first() =~= seq![' '] + t);
        assert(unmarked(seq![' '] + t) == seq![' '] + t) by {
            assert((seq![' '] + t)[0] == ' ');
        }
        assert(unmarked(line) == seq![' '] + t);
        lemma_trimmed_start_after(seq![' '], t);
        assert(trimmed(seq![' '] + t) == t);
        lemma_parsed_record(e, false);
    } else {
        assert(r =~= full);
        assert(trimmed(r) == t);
        lemma_parsed_record(e, true);
    }
}

/// A well-formed line that is written is read as it was.
pub proof fn lemma_line_round_trip(line: LineView, dialect: Dialect)
    requires
        well_formed(line, dialect),
    ensures
        parsed_line(rendered_line(line, dialect), dialect) == line,
{
    match line {
        LineView::Entry(e) => {
            lemma_entry_round_trip(e, dialect);
        },
        LineView::Comment(t) => {},
        LineView::Empty => {},
    }
}

/// A well-formed line is written on one line, which does not end in a
/// carriage return.
pub proof fn lemma_rendered_on_one_line(line: LineView, dialect: Dialect)
    requires
        well_formed(line, dialect),
    ensures
        lacks(rendered_line(line, dialect), '\n'),
        without_cr(rendered_line(line, dialect)) == rendered_line(line, dialect),
{
    match line {
        LineView::Entry(e) => {
            let full = core_text(e) + comment_text(e.comment);
            let r = rendered_entry(e, dialect);
            lemma_core_text(e);
            let core = core_text(e);
            assert forall|i: int| 0 <= i < full.len() implies full[i] != '\n' by {
                if i < core.len() {
                    assert(full[i] == core[i]);
                } else {
                    let c = e.comment->0;
                    if i >= core.len() + 3 {
                        assert(full[i] == c[i - core.len() - 3]);
                    }
                }
            }
            assert(full.last() != '\r') by {
                match e.comment {
                    None => {
                        assert(full =~= core);
                        assert(!is_space(e.hostname.last()));
                    },
                    Some(c) => {
                        if c.len() > 0 {
                            assert(full.last() == c.last());
                        } else {
                            assert(full.last() == ' ');
                        }
                    },
                }
            }
            if dialect == Dialect::Extended && !e.enabled {
                assert(r =~= seq!['#', ' '] + full);
                assert(r.last() == full.last());
                assert forall|i: int| 0 <= i < r.len() implies r[i] != '\n' by {
                    if i >= 2 {
                        assert(r[i] == full[i - 2]);
                    }
                }
            } else {
                assert(r =~= full);
            }
        },
        LineView::Comment(t) => {},
        LineView::Empty => {},
    }
}

/// Each of `lines` as it is written, without the line feed.
pub open spec fn rendered_lines(lines: Seq<LineView>, dialect: Dialect) -> Seq<Seq<char>> {
    Seq::new(lines.len(), |i: int| rendered_line(lines[i], dialect))
}

/// The text of well-formed lines splits into the texts of the lines.
pub proof fn lemma_split_rendered(lines: Seq<LineView>, dialect: Dialect)
    requires
        all_well_formed(lines, dialect),
    ensures
        split_lines(rendered(lines, dialect)) == rendered_lines(lines, dialect),
    decreases lines.len(),
{
    if lines.len() == 0 {
        assert(split_lines(rendered(lines, dialect)) =~= rendered_lines(lines, dialect));
    } else {
        let first = rendered_line(lines[0], dialect);
        let rest = lines.drop_first();
        let text = rendered(lines, dialect);
        lemma_rendered_on_one_line(lines[0], dialect);
        assert forall|i: int| 0 <= i < rest.len() implies well_formed(
            #[trigger] rest[i],
            dialect,
        ) by {
            assert(rest[i] == lines[i + 1]);
        }
        lemma_split_rendered(rest, dialect);
        let n = first.len() as int;
        assert(text == first + seq!['\n'] + rendered(rest, dialect));
        assert forall|i: int| 0 <= i < n implies text[i] != '\n' by {
            assert(text[i] == first[i]);
        }
        assert(text[n] == '\n');
        lemma_position_is(text, '\n', n);
        assert(text.take(n) =~= first);
        assert(text.skip(n + 1) =~= rendered(rest, dialect));
        assert(split_lines(text) =~= seq![first] + rendered_lines(rest, dialect));
        assert(seq![first] + rendered_lines(rest, dialect) =~= rendered_lines(lines, dialect)) by {
            assert forall|i: int| 0 < i < lines.len() implies rendered_lines(rest, dialect)[i - 1]
                == rendered_lines(lines, dialect)[i] by {
                assert(rest[i - 1] == lines[i]);
            }
        }
    }
}

/// Well-formed lines that are written and read back are the lines that were
/// written: in the same order, each with the same kind and the same fields.
pub proof fn lemma_round_trip(lines: Seq<LineView>, dialect: Dialect)
    requires
        all_well_formed(lines, dialect),
    ensures
        parsed(rendered(lines, dialect), dialect) == lines,
        rendered(parsed(rendered(lines, dialect), dialect), dialect) == rendered(lines, dialect),
{
    lemma_split_rendered(lines, dialect);
    let texts = rendered_lines(lines, dialect);
    assert forall|i: int| 0 <= i < lines.len() implies parsed_lines(texts, dialect)[i]
        == lines[i] by {
        lemma_line_round_trip(lines[i], dialect);
    }
    assert(parsed_lines(texts, dialect) =~= lines);
}

/// In the simple dialect a comment is well formed where it stands on one
/// line, does not end in a carriage return, and has `#` as its first
/// character that is no white space.
pub proof fn lemma_hash_comment_well_formed(t: Seq<char>)
    requires
        lacks(t, '\n'),
        t.len() > 0 ==> t.last() != '\r',
        trimmed(t).len() > 0,
        trimmed(t)[0] == '#',
    ensures
        well_formed(LineView::Comment(t), Dialect::Simple),
{
}

/// A text without white space holds no record.
proof fn lemma_one_word_is_no_record(w: Seq<char>, enabled: bool)
    requires
        spaceless(w),
    ensures
        parsed_record(w, enabled) is None,
{
    let k = position(w, '#');
    lemma_position_bounds(w, '#');
    let fields = w.take(k);
    assert(spaceless(fields)) by {
        assert forall|i: int| 0 <= i < fields.len() implies !is_space(#[trigger] fields[i]) by {
            assert(fields[i] == w[i]);
        }
    }
    if fields.len() > 0 {
        assert(fields + Seq::<char>::empty() =~= fields);
        lemma_first_word_is(fields, Seq::empty());
    } else {
        assert(trimmed_start(fields) == fields);
        assert(fields.skip(0) =~= fields);
    }
    assert(after_first_word(fields).len() == 0);
    assert(first_word(after_first_word(fields)).len() == 0);
}

/// What is left of a text without white space when its leading `#` are taken
/// away holds no white space.
proof fn lemma_unmarked_spaceless(w: Seq<char>)
    requires
        spaceless(w),
    ensures
        spaceless(unmarked(w)),
    decreases w.len(),
{
    if w.len() > 0 && w[0] == '#' {
        let rest = w.drop_first();
        assert forall|i: int| 0 <= i < rest.len() implies !is_space(#[trigger] rest[i]) by {
            assert(rest[i] == w[i + 1]);
        }
        lemma_unmarked_spaceless(rest);
    }
}

/// Trimming a text without white space changes nothing.
proof fn lemma_trimmed_spaceless(w: Seq<char>)
    requires
        spaceless(w),
    ensures
        trimmed(w) == w,
{
    if w.len() > 0 {
        assert(!is_space(w[0]));
        assert(!is_space(w[w.len() - 1]));
    }
}

/// In either dialect a comment is well formed where it stands on one line,
/// does not end in a carriage return, and is one word when trimmed, with or
/// without `#` in it.
pub proof fn lemma_one_word_comment_well_formed(t: Seq<char>, dialect: Dialect)
    requires
        lacks(t, '\n'),
        t.len() > 0 ==> t.last() != '\r',
        trimmed(t).len() > 0,
        spaceless(trimmed(t)),
    ensures
        well_formed(LineView::Comment(t), dialect),
{
    let w = trimmed(t);
    if w[0] == '#' {
        lemma_unmarked_spaceless(w);
        lemma_trimmed_spaceless(unmarked(w));
        lemma_one_word_is_no_record(unmarked(w), false);
    } else {
        lemma_one_word_is_no_record(w, true);
    }
}

/// Taking the leading `#` away brings no character into a text.
proof fn lemma_unmarked_lacks(s: Seq<char>, c: char)
    requires
        lacks(s, c),
    ensures
        lacks(unmarked(s), c),
    decreases s.len(),
{
    if s.len() > 0 && s[0] == '#' {
        let rest = s.drop_first();
        assert forall|i: int| 0 <= i < rest.len() implies rest[i] != c by {
            assert(rest[i] == s[i + 1]);
        }
        lemma_unmarked_lacks(rest, c);
    }
}

/// A record that is read from one line is well formed but for its being in
/// force: its address and its name are words, and its comment is on one line
/// and trimmed.
proof fn lemma_parsed_record_is_well_formed(body: Seq<char>, enabled: bool)
    requires
        lacks(body, '\n'),
    ensures
        parsed_record(body, enabled) matches Some(e) ==> {
            &&& is_word(e.ip)
            &&& is_word(e.hostname)
            &&& e.enabled == enabled
            &&& e.comment matches Some(c) ==> is_comment_text(c)
        },
{
    let k = position(body, '#');
    lemma_position_bounds(body, '#');
    let fields = body.take(k);
    assert(lacks(fields, '#')) by {
        assert forall|i: int| 0 <= i < fields.len() implies fields[i] != '#' by {
            assert(fields[i] == body[i]);
        }
    }
    let ip = first_word(fields);
    let rest = after_first_word(fields);
    let hostname = first_word(rest);
    lemma_first_word_lacks(fields, '#');
    lemma_first_word_lacks(rest, '#');
    if hostname.len() > 0 {
        assert(rest.len() > 0) by {
            if rest.len() == 0 {
                assert(rest =~= Seq::<char>::empty());
                assert(trimmed_start(rest) == rest);
                assert(hostname.len() == 0);
            }
        }
        assert(ip.len() > 0);
        assert(is_word(ip));
        assert(is_word(hostname));
        if k < body.len() {
            let tail = body.skip(k + 1);
            assert(lacks(tail, '\n')) by {
                assert forall|i: int| 0 <= i < tail.len() implies tail[i] != '\n' by {
                    assert(tail[i] == body[i + k + 1]);
                }
            }
            lemma_trimmed_lacks(tail, '\n');
            lemma_trimmed_ends(tail);
        }
    }
}

/// What is read from one line is well formed, unless it is a comment that
/// ends in a carriage return.
pub proof fn lemma_parsed_line_is_well_formed(line: Seq<char>, dialect: Dialect)
    requires
        lacks(line, '\n'),
        parsed_line(line, dialect) is Comment ==> line.len() > 0 ==> line.last() != '\r',
    ensures
        well_formed(parsed_line(line, dialect), dialect),
{
    let t = trimmed(line);
    lemma_trimmed_lacks(line, '\n');
    if t.len() > 0 && !(t[0] == '#' && dialect == Dialect::Simple) {
        if t[0] == '#' {
            lemma_unmarked_lacks(t, '\n');
            lemma_trimmed_lacks(unmarked(t), '\n');
            lemma_parsed_record_is_well_formed(trimmed(unmarked(t)), false);
        } else {
            lemma_parsed_record_is_well_formed(t, true);
        }
    }
}

/// No line of a text holds a line feed.
pub proof fn lemma_split_lines_lack_line_feeds(s: Seq<char>)
    ensures
        forall|i: int|
            0 <= i < split_lines(s).len() ==> lacks(#[trigger] split_lines(s)[i], '\n'),
    decreases s.len(),
{
    let n = position(s, '\n');
    lemma_position_bounds(s, '\n');
    if s.len() == 0 {
    } else if 0 <= n < s.len() {
        let first = without_cr(s.take(n));
        let rest = split_lines(s.skip(n + 1));
        lemma_split_lines_lack_line_feeds(s.skip(n + 1));
        assert(lacks(first, '\n')) by {
            assert forall|i: int| 0 <= i < first.len() implies first[i] != '\n' by {
                assert(first[i] == s[i]);
            }
        }
        assert forall|i: int| 0 <= i < split_lines(s).len() implies lacks(
            #[trigger] split_lines(s)[i],
            '\n',
        ) by {
            if i > 0 {
                assert(split_lines(s)[i] == rest[i - 1]);
            }
        }
    } else {
        assert(split_lines(s)[0] == s);
    }
}

/// No comment among `lines` ends in a carriage return.
pub open spec fn no_comment_ends_in_cr(lines: Seq<LineView>) -> bool {
    forall|i: int|
        0 <= i < lines.len() ==> ((#[trigger] lines[i]) matches LineView::Comment(t) ==> t.len()
            > 0 ==> t.last() != '\r')
}

/// What is read from a text is read again from what is written of it: the
/// same lines in the same order, each with the same kind and the same
/// fields. This holds of every text but one with a comment that ends in a
/// carriage return, which a writer ends anew with a line feed and a reader
/// then takes for the end of the line.
pub proof fn lemma_reading_is_stable(text: Seq<char>, dialect: Dialect)
    requires
        no_comment_ends_in_cr(parsed(text, dialect)),
    ensures
        all_well_formed(parsed(text, dialect), dialect),
        parsed(rendered(parsed(text, dialect), dialect), dialect) == parsed(text, dialect),
{
    let lines = split_lines(text);
    let read = parsed(text, dialect);
    lemma_split_lines_lack_line_feeds(text);
    assert forall|i: int| 0 <= i < read.len() implies well_formed(#[trigger] read[i], dialect) by {
        assert(read[i] == parsed_line(lines[i], dialect));
        assert(lacks(lines[i], '\n'));
        lemma_parsed_line_is_well_formed(lines[i], dialect);
    }
    lemma_round_trip(read, dialect);
}

/// No localhost record is left among the lines that are kept.
pub proof fn lemma_without_localhost(lines: Seq<LineView>)
    ensures
        forall|i: int|
            0 <= i < without_localhost(lines).len() ==> !is_localhost(
                #[trigger] without_localhost(lines)[i],
            ),
    decreases lines.len(),
{
    if lines.len() > 0 {
        let init = without_localhost(lines.drop_last());
        lemma_without_localhost(lines.drop_last());
        let kept = without_localhost(lines);
        assert forall|i: int| 0 <= i < kept.len() implies !is_localhost(#[trigger] kept[i]) by {
            if i < init.len() {
                assert(kept[i] == init[i]);
            }
        }
    }
}

/// What is written holds the localhost record exactly once, as its second
/// line, whatever the lines were.
pub proof fn lemma_localhost_once(lines: Seq<LineView>)
    ensures
        with_localhost(lines).len() >= 2,
        with_localhost(lines)[1] == localhost_line(),
        is_localhost(localhost_line()),
        forall|i: int|
            0 <= i < with_localhost(lines).len() && i != 1 ==> !is_localhost(
                #[trigger] with_localhost(lines)[i],
            ),
{
    lemma_without_localhost(lines);
    let w = with_localhost(lines);
    let kept = without_localhost(lines);
    assert forall|i: int| 0 <= i < w.len() && i != 1 implies !is_localhost(#[trigger] w[i]) by {
        if i >= 2 {
            assert(w[i] == kept[i - 2]);
        }
    }
}

/// The localhost record is well formed in either dialect.
pub proof fn lemma_localhost_well_formed(dialect: Dialect)
    ensures
        well_formed(localhost_line(), dialect),
{
    reveal_strlit("127.0.0.1");
    reveal_strlit("localhost");
    let ip = "127.0.0.1"@;
    let name = "localhost"@;
    assert(is_word(ip)) by {
        assert forall|i: int| 0 <= i < ip.len() implies !is_space(#[trigger] ip[i]) && ip[i]
            != '#' by {
            assert(ip[i] == '1' || ip[i] == '2' || ip[i] == '7' || ip[i] == '.' || ip[i] == '0');
        }
    }
    assert(is_word(name)) by {
        assert forall|i: int| 0 <= i < name.len() implies !is_space(#[trigger] name[i])
            && name[i] != '#' by {
            assert(name[i] == 'l' || name[i] == 'o' || name[i] == 'c' || name[i] == 'a'
                || name[i] == 'h' || name[i] == 's' || name[i] == 't');
        }
    }
}

/// The text that is written reads, in its second line, as the localhost
/// record, whatever the lines were: what is written always maps `127.0.0.1`
/// to `localhost`.
pub proof fn lemma_written_maps_localhost(lines: Seq<LineView>)
    ensures
        parsed(rendered(with_localhost(lines), Dialect::Extended), Dialect::Extended).len() >= 2,
        parsed(rendered(with_localhost(lines), Dialect::Extended), Dialect::Extended)[1]
            == localhost_line(),
{
    let d = Dialect::Extended;
    let w = with_localhost(lines);
    let text = rendered(w, d);
    let second = rendered_line(localhost_line(), d);
    let tail = rendered(w.drop_first().drop_first(), d);
    let after_first = rendered(w.drop_first(), d);
    lemma_localhost_well_formed(d);
    lemma_rendered_on_one_line(localhost_line(), d);
    lemma_line_round_trip(localhost_line(), d);
    assert(w[0] == LineView::Comment(Seq::empty()));
    assert(w.drop_first()[0] == localhost_line());
    assert(after_first == second + seq!['\n'] + tail);
    assert(text =~= seq!['\n'] + after_first);
    lemma_position_is(text, '\n', 0);
    assert(text.skip(1) =~= after_first);
    let n = second.len() as int;
    assert forall|i: int| 0 <= i < n implies after_first[i] != '\n' by {
        assert(after_first[i] == second[i]);
    }
    assert(after_first[n] == '\n');
    lemma_position_is(after_first, '\n', n);
    assert(after_first.take(n) =~= second);
    let first_split = split_lines(text);
    let second_split = split_lines(after_first);
    assert(second_split[0] == second);
    assert(first_split =~= seq![without_cr(text.take(0))] + second_split);
    assert(first_split[1] == second);
}

} // verus!
