use vstd::prelude::*;

use crate::sshconfig::{
    Config, Key, KEY_COUNT, RecordView, key_at, key_named, lemma_key_named, records,
};
use crate::text::{
    find_from, is_space, split_once, split_once_str, str_equal, trim, trim_end, trim_start, trim_str,
};

verus! {

/// Why a configuration text was refused, as plain character sequences.
pub enum ParseFailure {
    MalformedLine(Seq<char>),
    UnknownKey(Seq<char>),
}

/// Why a configuration text was refused.
#[derive(Debug)]
pub enum ParseError {
    /// A line that is neither blank nor a comment and has no separator; holds the trimmed line.
    MalformedLine(String),
    /// A key outside the vocabulary; holds the key as written.
    UnknownKey(String),
}

impl View for ParseError {
    type V = ParseFailure;

    open spec fn view(&self) -> ParseFailure {
        match self {
            ParseError::MalformedLine(s) => ParseFailure::MalformedLine(s@),
            ParseError::UnknownKey(s) => ParseFailure::UnknownKey(s@),
        }
    }
}

impl ParseError {
    /// A one-line description of the error.
    pub fn message(&self) -> (r: String)
        ensures
            r@ == match self@ {
                ParseFailure::MalformedLine(l) => "invalid key value syntax: `"@ + l + "`"@,
                ParseFailure::UnknownKey(k) => "Unknown key: `"@ + k + "`"@,
            },
    {
        let (mut r, detail) = match self {
            ParseError::MalformedLine(l) => (String::from_str("invalid key value syntax: `"), l),
            ParseError::UnknownKey(k) => (String::from_str("Unknown key: `"), k),
        };
        r.append(detail.as_str());
        r.append("`");
        r
    }
}

/// The views of a sequence of strings.
pub open spec fn views(v: Seq<String>) -> Seq<Seq<char>> {
    v.map_values(|s: String| s@)
}

/// What the parser has gathered so far: finished records and the one being filled.
pub type ParseState = (Seq<RecordView>, Option<RecordView>);

/// The finished records, with the record being filled appended.
pub open spec fn flush(st: ParseState) -> Seq<RecordView> {
    match st.1 {
        Some(r) => st.0.push(r),
        None => st.0,
    }
}

/// A trimmed line split into key and value: at the first `" ="`, else at the first
/// `"="`, else at the first `" "`.
pub open spec fn split_entry(t: Seq<char>) -> Option<(Seq<char>, Seq<char>)> {
    match split_once(t, " ="@) {
        Some(kv) => Some(kv),
        None => match split_once(t, "="@) {
            Some(kv) => Some(kv),
            None => split_once(t, " "@),
        },
    }
}

/// The effect of one line on the parser's state.
pub open spec fn parse_step(st: ParseState, line: Seq<char>) -> Result<ParseState, ParseFailure> {
    let t = trim(line);
    if t.len() == 0 || t[0] == '#' {
        Ok(st)
    } else {
        match split_entry(t) {
            None => Err(ParseFailure::MalformedLine(t)),
            Some((k, v)) => if k == "Host"@ {
                Ok((flush(st), Some(RecordView { host: v, fields: Map::empty() })))
            } else {
                match key_named(k) {
                    None => Err(ParseFailure::UnknownKey(k)),
                    Some(key) => Ok(
                        (
                            st.0,
                            match st.1 {
                                Some(r) => Some(
                                    RecordView { host: r.host, fields: r.fields.insert(key, v) },
                                ),
                                None => None,
                            },
                        ),
                    ),
                }
            },
        }
    }
}

/// The parser's state after the lines `lines`, starting from `st`.
pub open spec fn parse_from(st: Result<ParseState, ParseFailure>, lines: Seq<Seq<char>>) -> Result<
    ParseState,
    ParseFailure,
>
    decreases lines.len(),
{
    if lines.len() == 0 {
        st
    } else {
        match parse_from(st, lines.drop_last()) {
            Ok(s) => parse_step(s, lines.last()),
            Err(e) => Err(e),
        }
    }
}

/// The records that the lines `lines` describe, or the first error in them.
pub open spec fn parse_lines(lines: Seq<Seq<char>>) -> Result<Seq<RecordView>, ParseFailure> {
    match parse_from(Ok((Seq::empty(), None)), lines) {
        Ok(st) => Ok(flush(st)),
        Err(e) => Err(e),
    }
}

/// Once the parser has failed, later lines do not change the outcome.
proof fn lemma_error_persists(st: Result<ParseState, ParseFailure>, ls: Seq<Seq<char>>, j: int)
    requires
        0 <= j <= ls.len(),
        parse_from(st, ls.take(j)) is Err,
    ensures
        parse_from(st, ls) == parse_from(st, ls.take(j)),
    decreases ls.len(),
{
    if j < ls.len() {
        assert(ls.drop_last().take(j) =~= ls.take(j));
        lemma_error_persists(st, ls.drop_last(), j);
    } else {
        assert(ls.take(j) =~= ls);
    }
}

spec fn opt_view(c: Option<Config>) -> Option<RecordView> {
    match c {
        Some(c) => Some(c@),
        None => None,
    }
}

/// Parses the lines of a configuration text into its host records, in order.
pub fn parse(lines: &Vec<String>) -> (r: Result<Vec<Config>, ParseError>)
    ensures
        match r {
            Ok(v) => parse_lines(views(lines@)) == Ok::<_, ParseFailure>(records(v@)),
            Err(e) => parse_lines(views(lines@)) == Err::<Seq<RecordView>, _>(e@),
        },
{
    let mut result: Vec<Config> = Vec::new();
    let mut context: Option<Config> = None;
    let ghost ls = views(lines@);
    let mut i: usize = 0;
    assert(ls.take(0) =~= Seq::<Seq<char>>::empty());
    assert(records(result@) =~= Seq::<RecordView>::empty());
    while i < lines.len()
        invariant
            ls == views(lines@),
            i <= lines.len(),
            parse_from(Ok((Seq::empty(), None)), ls.take(i as int)) == Ok::<_, ParseFailure>(
                (records(result@), opt_view(context)),
            ),
        decreases lines.len() - i,
    {
        assert(ls.take(i + 1).drop_last() =~= ls.take(i as int));
        assert(ls.take(i + 1).last() == lines@[i as int]@);
        let t = trim_str(lines[i].as_str());
        if t.unicode_len() == 0 || t.get_char(0) == '#' {
        } else {
            let kv = match split_once_str(t, " =") {
                Some(kv) => Some(kv),
                None => match split_once_str(t, "=") {
                    Some(kv) => Some(kv),
                    None => split_once_str(t, " "),
                },
            };
            match kv {
                None => {
                    proof {
                        lemma_error_persists(Ok((Seq::empty(), None)), ls, i + 1);
                    }
                    return Err(ParseError::MalformedLine(String::from_str(t)));
                },
                Some((k, v)) => {
                    if str_equal(k, "Host") {
                        let ghost before = result@;
                        if let Some(c) = context.take() {
                            result.push(c);
                            assert(records(result@) =~= records(before).push(c@));
                        }
                        context = Some(Config::new(String::from_str(v)));
                    } else {
                        match Key::from_name(k) {
                            None => {
                                proof {
                                    lemma_error_persists(Ok((Seq::empty(), None)), ls, i + 1);
                                }
                                return Err(ParseError::UnknownKey(String::from_str(k)));
                            },
                            Some(key) => {
                                match &mut context {
                                    Some(c) => c.set(key, String::from_str(v)),
                                    None => {},
                                }
                            },
                        }
                    }
                },
            }
        }
        i = i + 1;
    }
    assert(ls.take(i as int) =~= ls);
    let ghost before = result@;
    if let Some(c) = context.take() {
        result.push(c);
        assert(records(result@) =~= records(before).push(c@));
    }
    Ok(result)
}

/// The line that writes field `k` with value `v`.
pub open spec fn entry_line(k: Key, v: Seq<char>) -> Seq<char> {
    "  "@ + k.name() + " "@ + v
}

/// The lines for the fields of `f` among the first `n` keys, in canonical order.
pub open spec fn field_lines(f: Map<Key, Seq<char>>, n: int) -> Seq<Seq<char>>
    decreases n,
{
    if n <= 0 {
        Seq::empty()
    } else {
        field_lines(f, n - 1) + if f.contains_key(key_at(n - 1)) {
            seq![entry_line(key_at(n - 1), f[key_at(n - 1)])]
        } else {
            Seq::empty()
        }
    }
}

/// The lines that write one record: its `Host` line, its fields, a blank line.
pub open spec fn record_lines(r: RecordView) -> Seq<Seq<char>> {
    seq!["Host "@ + r.host] + field_lines(r.fields, KEY_COUNT as int) + seq![Seq::<char>::empty()]
}

/// The lines that write the records `rs`, in order.
pub open spec fn serialize(rs: Seq<RecordView>) -> Seq<Seq<char>>
    decreases rs.len(),
{
    if rs.len() == 0 {
        Seq::empty()
    } else {
        serialize(rs.drop_last()) + record_lines(rs.last())
    }
}

proof fn lemma_views_push(v: Seq<String>, s: String)
    ensures
        views(v.push(s)) == views(v).push(s@),
{
    assert(views(v.push(s)) =~= views(v).push(s@));
}

/// The lines of the configuration text that holds `cfg`, fields in canonical key order.
pub fn save_config(cfg: &Vec<Config>) -> (r: Vec<String>)
    ensures
        views(r@) == serialize(records(cfg@)),
{
    let mut out: Vec<String> = Vec::new();
    let ghost rs = records(cfg@);
    let mut j: usize = 0;
    assert(rs.take(0) =~= Seq::<RecordView>::empty());
    assert(views(out@) =~= Seq::<Seq<char>>::empty());
    while j < cfg.len()
        invariant
            rs == records(cfg@),
            j <= cfg.len(),
            views(out@) == serialize(rs.take(j as int)),
        decreases cfg.len() - j,
    {
        let c = &cfg[j];
        let ghost start = views(out@);
        let mut h = String::from_str("Host ");
        h.append(c.host().as_str());
        proof {
            lemma_views_push(out@, h);
        }
        out.push(h);
        let mut i: usize = 0;
        assert(field_lines(c@.fields, 0) =~= Seq::<Seq<char>>::empty());
        while i < KEY_COUNT
            invariant
                i <= KEY_COUNT,
                c == cfg@[j as int],
                views(out@) == start + seq!["Host "@ + c@.host] + field_lines(c@.fields, i as int),
            decreases KEY_COUNT - i,
        {
            let k = Key::at(i);
            match c.get(k) {
                Some(v) => {
                    let mut l = String::from_str("  ");
                    l.append(k.str());
                    l.append(" ");
                    l.append(v.as_str());
                    proof {
                        lemma_views_push(out@, l);
                    }
                    out.push(l);
                },
                None => {},
            }
            i = i + 1;
        }
        let blank = String::new();
        proof {
            lemma_views_push(out@, blank);
        }
        out.push(blank);
        assert(rs.take(j + 1).drop_last() =~= rs.take(j as int));
        assert(views(out@) =~= serialize(rs.take(j + 1)));
        j = j + 1;
    }
    assert(rs.take(j as int) =~= rs);
    out
}

/// An ASCII letter.
pub open spec fn is_letter(c: char) -> bool {
    (65 <= c as u32 && c as u32 <= 90) || (97 <= c as u32 && c as u32 <= 122)
}

/// A word of ASCII letters.
pub open spec fn is_word(s: Seq<char>) -> bool {
    s.len() > 0 && forall|i: int| 0 <= i < s.len() ==> is_letter(#[trigger] s[i])
}

/// A host or value that is written and read back unchanged: not empty, not ending in
/// white space, and without `=`.
pub open spec fn plain_value(s: Seq<char>) -> bool {
    &&& s.len() > 0
    &&& !is_space(s.last())
    &&& forall|i: int| 0 <= i < s.len() ==> #[trigger] s[i] != '='
}

proof fn lemma_name_is_word(k: Key)
    ensures
        is_word(k.name()),
        k.name() != "Host"@,
{
    reveal_strlit("Host");
    match k {
        Key::HostName => {
            reveal_strlit("HostName");
        },
        Key::User => {
            reveal_strlit("User");
            assert(k.name()[0] != "Host"@[0]);
        },
        Key::IdentityFile => {
            reveal_strlit("IdentityFile");
        },
        Key::IdentitiesOnly => {
            reveal_strlit("IdentitiesOnly");
        },
        Key::LogLevel => {
            reveal_strlit("LogLevel");
        },
        Key::Port => {
            reveal_strlit("Port");
            assert(k.name()[0] != "Host"@[0]);
        },
        Key::UserKnownHostsFile => {
            reveal_strlit("UserKnownHostsFile");
        },
        Key::PasswordAuthentication => {
            reveal_strlit("PasswordAuthentication");
        },
        Key::StrictHostKeyChecking => {
            reveal_strlit("StrictHostKeyChecking");
        },
    }
}

proof fn lemma_find_none(s: Seq<char>, p: Seq<char>, i: int, j: int)
    requires
        0 <= j < p.len(),
        forall|x: int| 0 <= x < s.len() ==> #[trigger] s[x] != p[j],
    ensures
        find_from(s, p, i) is None,
    decreases s.len() + 1 - i,
{
    if i < 0 || i + p.len() > s.len() {
    } else {
        assert(s.subrange(i, i + p.len())[j] == s[i + j]);
        lemma_find_none(s, p, i + 1, j);
    }
}

proof fn lemma_find_at(s: Seq<char>, p: Seq<char>, i: int, j: int)
    requires
        0 <= i <= j,
        j + p.len() <= s.len(),
        s.subrange(j, j + p.len()) == p,
        forall|x: int| i <= x < j ==> #[trigger] s.subrange(x, x + p.len()) != p,
    ensures
        find_from(s, p, i) == Some(j),
    decreases j - i,
{
    if i < j {
        lemma_find_at(s, p, i + 1, j);
    }
}

/// A line `name value` with a word for a name and a plain value trims to itself and
/// splits into that name and value.
proof fn lemma_split_word_line(name: Seq<char>, v: Seq<char>)
    requires
        is_word(name),
        plain_value(v),
    ensures
        trim(name + " "@ + v) == name + " "@ + v,
        split_entry(name + " "@ + v) == Some((name, v)),
{
    reveal_strlit(" ");
    reveal_strlit(" =");
    reveal_strlit("=");
    let s = name + " "@ + v;
    let n = name.len() as int;
    assert(!is_space(s[0])) by {
        assert(s[0] == name[0]);
        assert(is_letter(name[0]));
    }
    assert(trim_start(s) == s);
    assert(s.last() == v.last());
    assert(trim_end(s) == s);
    assert forall|x: int| 0 <= x < s.len() implies #[trigger] s[x] != '=' by {
        if x < n {
            assert(is_letter(name[x]));
        } else if x > n {
            assert(s[x] == v[x - n - 1]);
        }
    }
    lemma_find_none(s, " ="@, 0, 1);
    lemma_find_none(s, "="@, 0, 0);
    assert forall|x: int| 0 <= x < n implies #[trigger] s.subrange(x, x + 1) != " "@ by {
        assert(s.subrange(x, x + 1)[0] == name[x]);
        assert(is_letter(name[x]));
    }
    assert(s.subrange(n, n + 1) =~= " "@);
    lemma_find_at(s, " "@, 0, n);
    assert(s.subrange(0, n) =~= name);
    assert(s.subrange(n + 1, s.len() as int) =~= v);
}

proof fn lemma_entry_line_step(done: Seq<RecordView>, r: RecordView, k: Key, v: Seq<char>)
    requires
        plain_value(v),
    ensures
        parse_step((done, Some(r)), entry_line(k, v)) == Ok::<_, ParseFailure>(
            (done, Some(RecordView { host: r.host, fields: r.fields.insert(k, v) })),
        ),
{
    reveal_strlit("  ");
    reveal_strlit(" ");
    lemma_name_is_word(k);
    lemma_key_named(k);
    let t = k.name() + " "@ + v;
    lemma_split_word_line(k.name(), v);
    let s = entry_line(k, v);
    assert(s[0] == ' ');
    assert(s.drop_first()[0] == ' ');
    assert(s.drop_first().drop_first() =~= t);
    assert(trim_start(s) == trim_start(s.drop_first()));
    assert(trim_start(s.drop_first()) == trim_start(t));
    assert(trim_start(t) == t) by {
        assert(trim(t) == t);
        assert(t[0] == k.name()[0]);
        assert(is_letter(k.name()[0]));
    }
    assert(trim(s) == t);
}

proof fn lemma_host_line_step(st: ParseState, h: Seq<char>)
    requires
        plain_value(h),
    ensures
        parse_step(st, "Host "@ + h) == Ok::<_, ParseFailure>(
            (flush(st), Some(RecordView { host: h, fields: Map::empty() })),
        ),
{
    reveal_strlit("Host ");
    reveal_strlit("Host");
    reveal_strlit(" ");
    assert("Host "@ + h =~= "Host"@ + " "@ + h);
    assert(is_word("Host"@)) by {
        assert forall|i: int| 0 <= i < 4 implies is_letter(#[trigger] "Host"@[i]) by {}
    }
    lemma_split_word_line("Host"@, h);
}

proof fn lemma_blank_line_step(st: ParseState)
    ensures
        parse_step(st, Seq::empty()) == Ok::<_, ParseFailure>(st),
{
    assert(trim(Seq::<char>::empty()) =~= Seq::<char>::empty());
}

proof fn lemma_parse_from_append(
    st: Result<ParseState, ParseFailure>,
    a: Seq<Seq<char>>,
    b: Seq<Seq<char>>,
)
    ensures
        parse_from(st, a + b) == parse_from(parse_from(st, a), b),
    decreases b.len(),
{
    if b.len() == 0 {
        assert(a + b =~= a);
    } else {
        assert((a + b).drop_last() =~= a + b.drop_last());
        assert((a + b).last() == b.last());
        lemma_parse_from_append(st, a, b.drop_last());
    }
}

proof fn lemma_key_at_index(k: Key)
    ensures
        key_at(k.index_of()) == k,
        0 <= k.index_of() < KEY_COUNT,
{
}

/// The fields of `f` among the first `n` keys.
spec fn fields_upto(f: Map<Key, Seq<char>>, n: int) -> Map<Key, Seq<char>> {
    Map::new(|k: Key| f.contains_key(k) && k.index_of() < n, |k: Key| f[k])
}

proof fn lemma_field_lines_parse(done: Seq<RecordView>, r: RecordView, n: int)
    requires
        0 <= n <= KEY_COUNT,
        forall|k: Key| r.fields.contains_key(k) ==> plain_value(#[trigger] r.fields[k]),
    ensures
        parse_from(
            Ok((done, Some(RecordView { host: r.host, fields: Map::empty() }))),
            field_lines(r.fields, n),
        ) == Ok::<_, ParseFailure>(
            (done, Some(RecordView { host: r.host, fields: fields_upto(r.fields, n) })),
        ),
    decreases n,
{
    let start = Ok::<_, ParseFailure>(
        (done, Some(RecordView { host: r.host, fields: Map::<Key, Seq<char>>::empty() })),
    );
    if n == 0 {
        assert(fields_upto(r.fields, 0) =~= Map::<Key, Seq<char>>::empty());
        assert(field_lines(r.fields, 0) =~= Seq::<Seq<char>>::empty());
        assert(parse_from(start, Seq::<Seq<char>>::empty()) == start);
    } else {
        lemma_field_lines_parse(done, r, n - 1);
        let k = key_at(n - 1);
        assert(k.index_of() == n - 1);
        assert forall|k2: Key| k2.index_of() == n - 1 implies k2 == k by {
            lemma_key_at_index(k2);
        }
        let tail = if r.fields.contains_key(k) {
            seq![entry_line(k, r.fields[k])]
        } else {
            Seq::<Seq<char>>::empty()
        };
        lemma_parse_from_append(start, field_lines(r.fields, n - 1), tail);
        assert(field_lines(r.fields, n) == field_lines(r.fields, n - 1) + tail);
        if r.fields.contains_key(k) {
            lemma_entry_line_step(
                done,
                RecordView { host: r.host, fields: fields_upto(r.fields, n - 1) },
                k,
                r.fields[k],
            );
            let mid = Ok::<_, ParseFailure>(
                (done, Some(RecordView { host: r.host, fields: fields_upto(r.fields, n - 1) })),
            );
            assert(tail.drop_last() =~= Seq::<Seq<char>>::empty());
            assert(parse_from(mid, Seq::<Seq<char>>::empty()) == mid);
            assert(parse_from(mid, tail) == parse_step(mid->Ok_0, entry_line(k, r.fields[k])));
            assert(fields_upto(r.fields, n - 1).insert(k, r.fields[k]) =~= fields_upto(
                r.fields,
                n,
            ));
        } else {
            assert(fields_upto(r.fields, n - 1) =~= fields_upto(r.fields, n));
            assert(field_lines(r.fields, n - 1) + tail =~= field_lines(r.fields, n - 1));
            assert(parse_from(parse_from(start, field_lines(r.fields, n - 1)), tail) == parse_from(
                start,
                field_lines(r.fields, n - 1),
            ));
        }
    }
}

/// A record that is written and read back unchanged.
pub open spec fn plain_record(r: RecordView) -> bool {
    &&& plain_value(r.host)
    &&& forall|k: Key| r.fields.contains_key(k) ==> plain_value(#[trigger] r.fields[k])
}

proof fn lemma_record_lines_parse(st: ParseState, r: RecordView)
    requires
        plain_record(r),
    ensures
        parse_from(Ok(st), record_lines(r)) == Ok::<_, ParseFailure>((flush(st), Some(r))),
{
    let host_line = seq!["Host "@ + r.host];
    let fl = field_lines(r.fields, KEY_COUNT as int);
    let blank = seq![Seq::<char>::empty()];
    let empty = Seq::<Seq<char>>::empty();
    assert(record_lines(r) == host_line + fl + blank);
    lemma_parse_from_append(Ok(st), host_line + fl, blank);
    lemma_parse_from_append(Ok(st), host_line, fl);
    lemma_host_line_step(st, r.host);
    assert(host_line.drop_last() =~= empty);
    assert(parse_from(Ok(st), empty) == Ok::<_, ParseFailure>(st));
    let after_host = Ok::<_, ParseFailure>(
        (flush(st), Some(RecordView { host: r.host, fields: Map::empty() })),
    );
    assert(parse_from(Ok(st), host_line) == after_host);
    lemma_field_lines_parse(flush(st), r, KEY_COUNT as int);
    assert forall|k: Key| #![auto] k.index_of() < KEY_COUNT by {
        lemma_key_at_index(k);
    }
    assert(fields_upto(r.fields, KEY_COUNT as int) =~= r.fields);
    let after_fields = Ok::<_, ParseFailure>((flush(st), Some(r)));
    assert(parse_from(after_host, fl) == after_fields);
    assert(blank.drop_last() =~= empty);
    assert(parse_from(after_fields, empty) == after_fields);
    lemma_blank_line_step((flush(st), Some(r)));
    assert(parse_from(after_fields, blank) == after_fields);
}

proof fn lemma_serialize_parse(rs: Seq<RecordView>)
    requires
        forall|i: int| 0 <= i < rs.len() ==> plain_record(#[trigger] rs[i]),
    ensures
        parse_from(Ok((Seq::empty(), None)), serialize(rs)) == Ok::<_, ParseFailure>(
            if rs.len() == 0 {
                (Seq::<RecordView>::empty(), None)
            } else {
                (rs.drop_last(), Some(rs.last()))
            },
        ),
    decreases rs.len(),
{
    if rs.len() > 0 {
        let init = Ok::<ParseState, ParseFailure>((Seq::empty(), None));
        let prev = rs.drop_last();
        lemma_serialize_parse(prev);
        lemma_parse_from_append(init, serialize(prev), record_lines(rs.last()));
        let st: ParseState = if prev.len() == 0 {
            (Seq::<RecordView>::empty(), None)
        } else {
            (prev.drop_last(), Some(prev.last()))
        };
        lemma_record_lines_parse(st, rs.last());
        if prev.len() > 0 {
            assert(prev.drop_last().push(prev.last()) =~= prev);
        } else {
            assert(prev =~= Seq::<RecordView>::empty());
        }
    }
}

/// Reading back what `save_config` writes gives the same records, in the same order,
/// with the same fields, for every record whose host and values are plain (not empty,
/// not ending in white space, without `=`).
pub proof fn lemma_round_trip(rs: Seq<RecordView>)
    requires
        forall|i: int| 0 <= i < rs.len() ==> plain_record(#[trigger] rs[i]),
    ensures
        parse_lines(serialize(rs)) == Ok::<_, ParseFailure>(rs),
{
    lemma_serialize_parse(rs);
    if rs.len() > 0 {
        assert(rs.drop_last().push(rs.last()) =~= rs);
    } else {
        assert(rs =~= Seq::<RecordView>::empty());
    }
}

/// Inside a `Host` block, a line for a known key sets that key to the line's value and
/// replaces any earlier value: of several lines for one key, the last one wins.
pub proof fn lemma_last_write_wins(st: ParseState, line: Seq<char>, k: Key, v: Seq<char>)
    requires
        st.1 is Some,
        trim(line).len() > 0,
        trim(line)[0] != '#',
        split_entry(trim(line)) == Some((k.name(), v)),
    ensures
        parse_step(st, line) == Ok::<_, ParseFailure>(
            (
                st.0,
                Some(
                    RecordView {
                        host: st.1->Some_0.host,
                        fields: st.1->Some_0.fields.insert(k, v),
                    },
                ),
            ),
        ),
        parse_step(st, line) matches Ok(s) && s.1 matches Some(r) && r.fields[k] == v,
{
    lemma_name_is_word(k);
    lemma_key_named(k);
}

} // verus!
