//! The calendar feed grammar: physical lines, continuation unfolding,
//! content-line splitting, and grouping into entries.
//!
//! A feed is read line by line. A physical line is terminated by a line
//! feed, with one trailing carriage return removed; a physical line starting
//! with a space or tab continues the previous logical line. A content line
//! is `NAME;PARAM=V,V;...:VALUE`, where the separators count only outside
//! double quotes. Entries are the property runs between the event begin and
//! end markers; nested subcomponents are skipped whole. A content line with
//! no separating colon, or an unmatched end marker, makes the feed
//! unreadable.

use vstd::prelude::*;
use crate::ical::{CalendarEntry, CalendarError, EntryView, Param, ParamView, Property, PropertyView};
use crate::strutil::{find_char, str_eq, str_to_string, starts_with_str};

verus! {

pub open spec fn views_of(v: Seq<String>) -> Seq<Seq<char>> {
    v.map_values(|s: String| s@)
}

/// The physical lines of the text: split at each line feed, one trailing
/// carriage return removed from each line.
pub open spec fn split_lines(s: Seq<char>) -> Seq<Seq<char>>
    decreases s.len(),
{
    if s.len() == 0 {
        Seq::empty()
    } else {
        let nl = newline_index(s);
        if 0 <= nl && nl < s.len() {
            seq![strip_cr(s.subrange(0, nl))] + split_lines(s.subrange(nl + 1, s.len() as int))
        } else {
            seq![strip_cr(s)]
        }
    }
}

pub open spec fn newline_index(s: Seq<char>) -> int {
    crate::strutil::first_char(s, '\n')
}

pub open spec fn strip_cr(l: Seq<char>) -> Seq<char> {
    if l.len() > 0 && l.last() == '\r' {
        l.drop_last()
    } else {
        l
    }
}

/// Folds one physical line into the logical lines so far: a line starting
/// with a space or tab extends the previous logical line by its remainder.
pub open spec fn unfold_step(acc: Seq<Seq<char>>, line: Seq<char>) -> Seq<Seq<char>> {
    if line.len() > 0 && (line[0] == ' ' || line[0] == '\t') && acc.len() > 0 {
        acc.update(acc.len() - 1, acc.last() + line.drop_first())
    } else {
        acc.push(line)
    }
}

pub open spec fn unfold_fold(lines: Seq<Seq<char>>) -> Seq<Seq<char>>
    decreases lines.len(),
{
    if lines.len() == 0 {
        Seq::empty()
    } else {
        unfold_step(unfold_fold(lines.drop_last()), lines.last())
    }
}

/// Position of the first occurrence of `c` outside double quotes, starting
/// in the given quoting state.
pub open spec fn find_unquoted(s: Seq<char>, c: char, inq: bool) -> Option<int>
    decreases s.len(),
{
    if s.len() == 0 {
        None
    } else if !inq && s[0] == c {
        Some(0int)
    } else {
        let inq2 = if s[0] == '"' {
            !inq
        } else {
            inq
        };
        match find_unquoted(s.drop_first(), c, inq2) {
            Some(i) => Some(1 + i),
            None => None,
        }
    }
}

/// Splits at each occurrence of `c` outside double quotes.
pub open spec fn split_unquoted(s: Seq<char>, c: char) -> Seq<Seq<char>>
    decreases s.len(),
{
    match find_unquoted(s, c, false) {
        Some(i) => {
            if 0 <= i && i < s.len() {
                seq![s.subrange(0, i)] + split_unquoted(s.subrange(i + 1, s.len() as int), c)
            } else {
                seq![s]
            }
        },
        None => seq![s],
    }
}

pub open spec fn strip_quotes(v: Seq<char>) -> Seq<char> {
    if v.len() >= 2 && v[0] == '"' && v.last() == '"' {
        v.subrange(1, v.len() - 1)
    } else {
        v
    }
}

/// One `NAME=V,V,...` parameter; without an equals sign the parameter keeps
/// its text as a name and has no values.
pub open spec fn parse_param(s: Seq<char>) -> ParamView {
    match find_unquoted(s, '=', false) {
        Some(i) => {
            if 0 <= i && i < s.len() {
                ParamView {
                    name: s.subrange(0, i),
                    values: split_unquoted(s.subrange(i + 1, s.len() as int), ',').map_values(
                        |v: Seq<char>| strip_quotes(v),
                    ),
                }
            } else {
                ParamView { name: s, values: Seq::empty() }
            }
        },
        None => ParamView { name: s, values: Seq::empty() },
    }
}

/// One content line: the name before the first unquoted semicolon, the
/// parameters up to the first unquoted colon, and the value after it.
/// A line with no unquoted colon is malformed.
pub open spec fn parse_content_line(line: Seq<char>) -> Option<PropertyView> {
    match find_unquoted(line, ':', false) {
        Some(i) => {
            if 0 <= i && i < line.len() {
                let left = line.subrange(0, i);
                let value = line.subrange(i + 1, line.len() as int);
                let parts = split_unquoted(left, ';');
                if parts.len() > 0 {
                    Some(
                        PropertyView {
                            name: parts[0],
                            value: Some(value),
                            params: parts.drop_first().map_values(|p: Seq<char>| parse_param(p)),
                        },
                    )
                } else {
                    None
                }
            } else {
                None
            }
        },
        None => None,
    }
}

#[verifier::ext_equal]
pub ghost struct FeedState {
    pub entries: Seq<EntryView>,
    pub current: Option<Seq<PropertyView>>,
    pub depth: int,
    pub bad: bool,
}

pub open spec fn feed_init() -> FeedState {
    FeedState { entries: Seq::empty(), current: None, depth: 0, bad: false }
}

pub open spec fn is_begin(line: Seq<char>) -> bool {
    "BEGIN:"@.is_prefix_of(line)
}

pub open spec fn is_end(line: Seq<char>) -> bool {
    "END:"@.is_prefix_of(line)
}

/// One logical line applied to the reading state. Outside an entry only the
/// event begin marker matters; inside, the matching end marker closes the
/// entry, begin and end markers bracket skipped subcomponents, and any other
/// line must be a well-formed content line.
pub open spec fn feed_step(st: FeedState, line: Seq<char>) -> FeedState {
    if st.bad {
        st
    } else if line.len() == 0 {
        st
    } else {
        match st.current {
            None => {
                if line == "BEGIN:VEVENT"@ {
                    FeedState { current: Some(Seq::empty()), ..st }
                } else {
                    st
                }
            },
            Some(props) => {
                if st.depth == 0 && line == "END:VEVENT"@ {
                    FeedState {
                        entries: st.entries.push(EntryView { properties: props }),
                        current: None,
                        ..st
                    }
                } else if is_begin(line) {
                    FeedState { depth: st.depth + 1, ..st }
                } else if is_end(line) {
                    if st.depth > 0 {
                        FeedState { depth: st.depth - 1, ..st }
                    } else {
                        FeedState { bad: true, ..st }
                    }
                } else if st.depth > 0 {
                    st
                } else {
                    match parse_content_line(line) {
                        Some(p) => FeedState { current: Some(props.push(p)), ..st },
                        None => FeedState { bad: true, ..st },
                    }
                }
            },
        }
    }
}

pub open spec fn feed_fold(lines: Seq<Seq<char>>) -> FeedState
    decreases lines.len(),
{
    if lines.len() == 0 {
        feed_init()
    } else {
        feed_step(feed_fold(lines.drop_last()), lines.last())
    }
}

/// The entries of a feed text, or nothing when the text is not a readable
/// calendar (a malformed content line, an unmatched end marker, or an entry
/// left open at the end).
pub open spec fn spec_parse_feed(text: Seq<char>) -> Option<Seq<EntryView>> {
    let st = feed_fold(unfold_fold(split_lines(text)));
    if st.bad || st.current is Some {
        None
    } else {
        Some(st.entries)
    }
}

proof fn lemma_feed_bad_sticky(lines: Seq<Seq<char>>, k: int)
    requires
        0 <= k <= lines.len(),
        feed_fold(lines.take(k)).bad,
    ensures
        feed_fold(lines).bad,
    decreases lines.len() - k,
{
    if k < lines.len() {
        assert(lines.take(k + 1).drop_last() =~= lines.take(k));
        assert(feed_fold(lines.take(k + 1)).bad);
        lemma_feed_bad_sticky(lines, k + 1);
    } else {
        assert(lines.take(k) =~= lines);
    }
}

fn split_lines_exec(s: &str, out: &mut Vec<String>)
    ensures
        views_of(final(out)@) == views_of(old(out)@) + split_lines(s@),
    decreases s@.len(),
{
    let n = s.unicode_len();
    if n == 0 {
        proof {
            assert(views_of(out@) =~= views_of(out@) + split_lines(s@));
        }
        return ;
    }
    let nl = find_char(s, '\n');
    let line = if nl > 0 && s.get_char(nl - 1) == '\r' {
        proof {
            assert(s@.subrange(0, nl as int).last() == s@[nl as int - 1]);
            assert(s@.subrange(0, nl as int).drop_last() =~= s@.subrange(0, nl as int - 1));
        }
        s.substring_char(0, nl - 1)
    } else {
        s.substring_char(0, nl)
    };
    proof {
        if nl == n {
            assert(s@.subrange(0, n as int) =~= s@);
            if s@.last() == '\r' {
                assert(s@.subrange(0, n as int - 1) =~= s@.drop_last());
            }
        }
        assert(line@ == strip_cr(s@.subrange(0, nl as int)));
    }
    let owned = str_to_string(line);
    out.push(owned);
    proof {
        assert(views_of(out@) =~= views_of(old(out)@).push(line@));
    }
    if nl < n {
        let rest = s.substring_char(nl + 1, n);
        split_lines_exec(rest, out);
        proof {
            assert(views_of(out@) =~= views_of(old(out)@) + split_lines(s@));
        }
    } else {
        proof {
            assert(views_of(out@) =~= views_of(old(out)@) + split_lines(s@));
        }
    }
}

fn unfold_lines_exec(lines: &Vec<String>) -> (r: Vec<String>)
    ensures
        views_of(r@) == unfold_fold(views_of(lines@)),
{
    let ghost lv = views_of(lines@);
    let n = lines.len();
    let mut acc: Vec<String> = Vec::new();
    let mut i: usize = 0;
    proof {
        assert(lv.take(0) =~= Seq::<Seq<char>>::empty());
        assert(views_of(acc@) =~= unfold_fold(lv.take(0)));
    }
    while i < n
        invariant
            lv == views_of(lines@),
            n == lines@.len(),
            i <= n,
            views_of(acc@) == unfold_fold(lv.take(i as int)),
        decreases n - i,
    {
        proof {
            assert(lv.take(i as int + 1).drop_last() =~= lv.take(i as int));
            assert(lv.take(i as int + 1).last() == lv[i as int]);
            assert(lv[i as int] == lines@[i as int]@);
        }
        let l = &lines[i];
        let llen = l.as_str().unicode_len();
        let mut cont = false;
        if llen > 0 && acc.len() > 0 {
            let c0 = l.as_str().get_char(0);
            if c0 == ' ' || c0 == '\t' {
                cont = true;
            }
        }
        if cont {
            let mut last = match acc.pop() {
                Some(x) => x,
                None => {
                    proof {
                        assert(false);
                    }
                    String::new()
                },
            };
            let tail = l.as_str().substring_char(1, llen);
            proof {
                assert(tail@ =~= l@.drop_first());
            }
            last.append(tail);
            acc.push(last);
            proof {
                assert(views_of(acc@) =~= unfold_step(unfold_fold(lv.take(i as int)), lv[i as int]));
            }
        } else {
            let owned = l.clone();
            acc.push(owned);
            proof {
                assert(views_of(acc@) =~= unfold_step(unfold_fold(lv.take(i as int)), lv[i as int]));
            }
        }
        i += 1;
    }
    proof {
        assert(lv.take(n as int) =~= lv);
    }
    acc
}

fn find_unquoted_exec(s: &str, c: char, inq: bool) -> (r: Option<usize>)
    ensures
        match r {
            Some(i) => find_unquoted(s@, c, inq) == Some(i as int) && i < s@.len(),
            None => find_unquoted(s@, c, inq) is None,
        },
    decreases s@.len(),
{
    let n = s.unicode_len();
    if n == 0 {
        return None;
    }
    let c0 = s.get_char(0);
    if !inq && c0 == c {
        return Some(0);
    }
    let inq2 = if c0 == '"' {
        !inq
    } else {
        inq
    };
    let rest = s.substring_char(1, n);
    proof {
        assert(rest@ =~= s@.drop_first());
    }
    match find_unquoted_exec(rest, c, inq2) {
        Some(i) => Some(i + 1),
        None => None,
    }
}

fn split_unquoted_exec(s: &str, c: char, out: &mut Vec<String>)
    ensures
        views_of(final(out)@) == views_of(old(out)@) + split_unquoted(s@, c),
    decreases s@.len(),
{
    let n = s.unicode_len();
    match find_unquoted_exec(s, c, false) {
        Some(i) => {
            let piece = s.substring_char(0, i);
            out.push(str_to_string(piece));
            proof {
                assert(views_of(out@) =~= views_of(old(out)@).push(s@.subrange(0, i as int)));
            }
            let rest = s.substring_char(i + 1, n);
            split_unquoted_exec(rest, c, out);
            proof {
                assert(views_of(out@) =~= views_of(old(out)@) + split_unquoted(s@, c));
            }
        },
        None => {
            out.push(str_to_string(s));
            proof {
                assert(views_of(out@) =~= views_of(old(out)@) + split_unquoted(s@, c));
            }
        },
    }
}

fn strip_quotes_exec(s: &str) -> (r: String)
    ensures
        r@ == strip_quotes(s@),
{
    let n = s.unicode_len();
    if n >= 2 && s.get_char(0) == '"' && s.get_char(n - 1) == '"' {
        str_to_string(s.substring_char(1, n - 1))
    } else {
        str_to_string(s)
    }
}

fn parse_param_exec(s: &str) -> (r: Param)
    ensures
        r@ == parse_param(s@),
{
    let n = s.unicode_len();
    match find_unquoted_exec(s, '=', false) {
        Some(i) => {
            let name = str_to_string(s.substring_char(0, i));
            let rest = s.substring_char(i + 1, n);
            let mut vals: Vec<String> = Vec::new();
            split_unquoted_exec(rest, ',', &mut vals);
            let ghost raw = split_unquoted(rest@, ',');
            proof {
                assert(views_of(vals@) =~= raw);
            }
            let m = vals.len();
            let mut stripped: Vec<String> = Vec::new();
            let mut j: usize = 0;
            while j < m
                invariant
                    m == vals@.len(),
                    j <= m,
                    raw == views_of(vals@),
                    stripped@.len() == j,
                    forall|k: int| 0 <= k < j ==> stripped@[k]@ == strip_quotes(raw[k]),
                decreases m - j,
            {
                let v = strip_quotes_exec(vals[j].as_str());
                stripped.push(v);
                j += 1;
            }
            let result = Param { name, values: stripped };
            proof {
                assert(result@.values =~= raw.map_values(|v: Seq<char>| strip_quotes(v)));
                assert(result@ =~= parse_param(s@));
            }
            result
        },
        None => {
            let result = Param { name: str_to_string(s), values: Vec::new() };
            proof {
                assert(result@.values =~= Seq::<Seq<char>>::empty());
                assert(result@ =~= parse_param(s@));
            }
            result
        },
    }
}

fn parse_content_line_exec(line: &str) -> (r: Option<Property>)
    ensures
        match r {
            Some(p) => parse_content_line(line@) == Some(p@),
            None => parse_content_line(line@) is None,
        },
{
    let n = line.unicode_len();
    let i = match find_unquoted_exec(line, ':', false) {
        Some(i) => i,
        None => return None,
    };
    let left = line.substring_char(0, i);
    let value = str_to_string(line.substring_char(i + 1, n));
    let mut parts: Vec<String> = Vec::new();
    split_unquoted_exec(left, ';', &mut parts);
    let ghost pv = split_unquoted(left@, ';');
    proof {
        assert(views_of(parts@) =~= pv);
    }
    if parts.len() == 0 {
        return None;
    }
    let name = parts[0].clone();
    let m = parts.len();
    let mut params: Vec<Param> = Vec::new();
    let mut j: usize = 1;
    while j < m
        invariant
            m == parts@.len(),
            1 <= j <= m,
            pv == views_of(parts@),
            params@.len() == j - 1,
            forall|k: int| 0 <= k < j - 1 ==> params@[k]@ == parse_param(pv[k + 1]),
        decreases m - j,
    {
        let p = parse_param_exec(parts[j].as_str());
        params.push(p);
        j += 1;
    }
    let result = Property { name, value: Some(value), params };
    proof {
        assert(result@.params =~= pv.drop_first().map_values(|p: Seq<char>| parse_param(p)));
        assert(result@ =~= (match parse_content_line(line@) {
            Some(p) => p,
            None => result@,
        }));
    }
    Some(result)
}

/// Parses a feed text into its calendar entries.
pub fn parse_feed(text: &str) -> (r: Result<Vec<CalendarEntry>, CalendarError>)
    ensures
        match r {
            Ok(es) => spec_parse_feed(text@) == Some(es@.map_values(|e: CalendarEntry| e@)),
            Err(e) => spec_parse_feed(text@) is None && (e matches CalendarError::InvalidFormat(_)),
        },
{
    let mut phys: Vec<String> = Vec::new();
    split_lines_exec(text, &mut phys);
    proof {
        assert(views_of(phys@) =~= split_lines(text@));
    }
    let lines = unfold_lines_exec(&phys);
    let ghost lv = views_of(lines@);
    proof {
        assert(lv == unfold_fold(split_lines(text@)));
    }
    let n = lines.len();
    let mut entries: Vec<CalendarEntry> = Vec::new();
    let mut props: Vec<Property> = Vec::new();
    let mut in_event = false;
    let mut depth: usize = 0;
    let mut i: usize = 0;
    proof {
        assert(lv.take(0) =~= Seq::<Seq<char>>::empty());
        assert(entries@.map_values(|e: CalendarEntry| e@) =~= Seq::<EntryView>::empty());
        assert(props@.map_values(|p: Property| p@) =~= Seq::<PropertyView>::empty());
    }
    while i < n
        invariant
            lv == views_of(lines@),
            lv == unfold_fold(split_lines(text@)),
            n == lines@.len(),
            i <= n,
            depth <= i,
            !feed_fold(lv.take(i as int)).bad,
            feed_fold(lv.take(i as int)).entries == entries@.map_values(|e: CalendarEntry| e@),
            feed_fold(lv.take(i as int)).depth == depth as int,
            (if in_event {
                feed_fold(lv.take(i as int)).current == Some(
                    props@.map_values(|p: Property| p@),
                )
            } else {
                feed_fold(lv.take(i as int)).current is None
            }),
        decreases n - i,
    {
        proof {
            assert(lv.take(i as int + 1).drop_last() =~= lv.take(i as int));
            assert(lv.take(i as int + 1).last() == lv[i as int]);
            assert(lv[i as int] == lines@[i as int]@);
        }
        let ghost pre = feed_fold(lv.take(i as int));
        let ghost post = feed_fold(lv.take(i as int + 1));
        let l = lines[i].as_str();
        let llen = l.unicode_len();
        if llen == 0 {
            // blank line: state unchanged
        } else if !in_event {
            if str_eq(l, "BEGIN:VEVENT") {
                in_event = true;
                props = Vec::new();
                proof {
                    assert(props@.map_values(|p: Property| p@) =~= Seq::<PropertyView>::empty());
                }
            }
        } else {
            if depth == 0 && str_eq(l, "END:VEVENT") {
                let done = CalendarEntry { properties: props };
                entries.push(done);
                props = Vec::new();
                in_event = false;
                proof {
                    assert(entries@.map_values(|e: CalendarEntry| e@) =~= pre.entries.push(
                        EntryView { properties: pre.current.unwrap() },
                    ));
                }
            } else if starts_with_str(l, "BEGIN:") {
                depth += 1;
            } else if starts_with_str(l, "END:") {
                if depth > 0 {
                    depth -= 1;
                } else {
                    proof {
                        assert(post.bad);
                        lemma_feed_bad_sticky(lv, i as int + 1);
                    }
                    return Err(
                        CalendarError::InvalidFormat(
                            str_to_string("unmatched component end marker"),
                        ),
                    );
                }
            } else if depth > 0 {
                // subcomponent content: skipped
            } else {
                match parse_content_line_exec(l) {
                    Some(p) => {
                        props.push(p);
                        proof {
                            assert(props@.map_values(|q: Property| q@) =~= pre.current.unwrap()
                                .push(p@));
                        }
                    },
                    None => {
                        proof {
                            assert(post.bad);
                            lemma_feed_bad_sticky(lv, i as int + 1);
                        }
                        return Err(
                            CalendarError::InvalidFormat(
                                str_to_string("content line without a colon"),
                            ),
                        );
                    },
                }
            }
        }
        i += 1;
    }
    proof {
        assert(lv.take(n as int) =~= lv);
    }
    if in_event {
        return Err(CalendarError::InvalidFormat(str_to_string("entry left open at end of feed")));
    }
    Ok(entries)
}

} // verus!
