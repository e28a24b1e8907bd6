use vstd::prelude::*;
use crate::model::{HostsEntry, EntryView, entry_views};
use crate::text::{is_ws, is_whitespace, push_char, chars_of};

verus! {

/// The token begun in `cur`, if it holds anything.
pub open spec fn word_or_none(cur: Seq<char>) -> Seq<Seq<char>> {
    if cur.len() > 0 {
        seq![cur]
    } else {
        seq![]
    }
}

/// The white-space separated tokens of `cur + s`, where `cur` holds no white space.
pub open spec fn tokens_from(s: Seq<char>, cur: Seq<char>) -> Seq<Seq<char>>
    decreases s.len(),
{
    if s.len() == 0 {
        word_or_none(cur)
    } else if is_ws(s[0]) {
        word_or_none(cur) + tokens_from(s.drop_first(), seq![])
    } else {
        tokens_from(s.drop_first(), cur.push(s[0]))
    }
}

/// The white-space separated tokens of a line, in order.
pub open spec fn tokens(s: Seq<char>) -> Seq<Seq<char>> {
    tokens_from(s, seq![])
}

/// The lines of `cur + s`, split at each newline; `cur` holds no newline.
pub open spec fn lines_from(s: Seq<char>, cur: Seq<char>) -> Seq<Seq<char>>
    decreases s.len(),
{
    if s.len() == 0 {
        seq![cur]
    } else if s[0] == '\n' {
        seq![cur] + lines_from(s.drop_first(), seq![])
    } else {
        lines_from(s.drop_first(), cur.push(s[0]))
    }
}

/// The lines of a text: the pieces between newlines.
pub open spec fn lines(s: Seq<char>) -> Seq<Seq<char>> {
    lines_from(s, seq![])
}

/// Tokens rejoined with single spaces.
pub open spec fn join_spaces(ts: Seq<Seq<char>>) -> Seq<char>
    decreases ts.len(),
{
    if ts.len() == 0 {
        seq![]
    } else if ts.len() == 1 {
        ts[0]
    } else {
        join_spaces(ts.drop_last()) + seq![' '] + ts.last()
    }
}

pub open spec fn starts_with_hash(w: Seq<char>) -> bool {
    w.len() > 0 && w[0] == '#'
}

/// The entry that a line of tokens gives: none for a blank line, a comment line
/// or a line of fewer than two tokens.
pub open spec fn entry_of_tokens(t: Seq<Seq<char>>) -> Option<EntryView> {
    if t.len() < 2 || starts_with_hash(t[0]) {
        None
    } else {
        Some(
            EntryView {
                ip: t[0],
                domain: t[1],
                comment: if t.len() > 2 && starts_with_hash(t[2]) {
                    Some(join_spaces(t.skip(2)))
                } else {
                    None
                },
                enabled: true,
            },
        )
    }
}

pub open spec fn parse_line_spec(l: Seq<char>) -> Option<EntryView> {
    entry_of_tokens(tokens(l))
}

pub open spec fn opt_seq(o: Option<EntryView>) -> Seq<EntryView> {
    match o {
        Some(e) => seq![e],
        None => seq![],
    }
}

/// The entries of a sequence of lines, in order.
pub open spec fn parse_lines(ls: Seq<Seq<char>>) -> Seq<EntryView>
    decreases ls.len(),
{
    if ls.len() == 0 {
        seq![]
    } else {
        parse_lines(ls.drop_last()) + opt_seq(parse_line_spec(ls.last()))
    }
}

/// The entries that a hosts-file text holds, in order.
pub open spec fn parse_text(s: Seq<char>) -> Seq<EntryView> {
    parse_lines(lines(s))
}

/// The line that an entry is written as: tab-separated fields, no newline.
pub open spec fn entry_line(e: EntryView) -> Seq<char> {
    e.ip + seq!['\t'] + e.domain + match e.comment {
        Some(c) => seq!['\t'] + c,
        None => seq![],
    }
}

/// What an entry adds to the file: its line if enabled, else nothing.
pub open spec fn entry_piece(e: EntryView) -> Seq<char> {
    if e.enabled {
        entry_line(e) + seq!['\n']
    } else {
        seq![]
    }
}

pub open spec fn render_body(es: Seq<EntryView>) -> Seq<char>
    decreases es.len(),
{
    if es.len() == 0 {
        seq![]
    } else {
        entry_piece(es[0]) + render_body(es.drop_first())
    }
}

pub open spec fn banner() -> Seq<char> {
    "# Hosts file managed by IntellijHosts"@
}

pub open spec fn stamp_prefix() -> Seq<char> {
    "# Last updated: "@
}

/// The whole hosts file: banner, time stamp line, a blank line, then the body.
pub open spec fn render_text(es: Seq<EntryView>, stamp: Seq<char>) -> Seq<char> {
    banner() + seq!['\n'] + stamp_prefix() + stamp + seq!['\n', '\n'] + render_body(es)
}

pub open spec fn no_newline(s: Seq<char>) -> bool {
    forall|i: int| 0 <= i < s.len() ==> s[i] != '\n'
}

/// A character that chrono writes in a local date, time and offset.
pub open spec fn is_stamp_char(c: char) -> bool {
    ('0' <= c && c <= '9') || c == '-' || c == ':' || c == '.' || c == '+' || c == ' '
}

/// Text made only of digits, `-`, `:`, `.`, `+` and spaces.
pub open spec fn stamp_text(s: Seq<char>) -> bool {
    forall|i: int| 0 <= i < s.len() ==> is_stamp_char(s[i])
}

pub open spec fn str_views(s: Seq<String>) -> Seq<Seq<char>> {
    s.map_values(|t: String| t@)
}

pub open spec fn opt_entry_view(o: Option<HostsEntry>) -> Option<EntryView> {
    match o {
        Some(e) => Some(e@),
        None => None,
    }
}

/// Splits a line into its white-space separated tokens.
pub fn split_tokens(line: &Vec<char>) -> (r: Vec<String>)
    ensures
        str_views(r@) == tokens(line@),
{
    let mut r: Vec<String> = Vec::new();
    let mut cur = String::new();
    let mut started = false;
    let mut i: usize = 0;
    assert(line@.skip(0) =~= line@);
    assert(str_views(r@) =~= seq![]);
    assert(cur@ =~= seq![]);
    while i < line.len()
        invariant
            i <= line.len(),
            started == (cur@.len() > 0),
            str_views(r@) + tokens_from(line@.skip(i as int), cur@) == tokens(line@),
        decreases line.len() - i,
    {
        let c = line[i];
        let ghost rest = line@.skip(i as int);
        assert(rest.drop_first() =~= line@.skip(i + 1));
        assert(rest[0] == c);
        if is_whitespace(c) {
            if started {
                let ghost old_r = r@;
                r.push(cur);
                assert(str_views(r@) =~= str_views(old_r) + word_or_none(r@.last()@));
                cur = String::new();
                started = false;
            } else {
                assert(word_or_none(cur@) =~= seq![]);
                assert(cur@ =~= seq![]);
            }
        } else {
            push_char(&mut cur, c);
            started = true;
        }
        i = i + 1;
    }
    assert(line@.skip(i as int) =~= seq![]);
    if started {
        let ghost old_r = r@;
        r.push(cur);
        assert(str_views(r@) =~= str_views(old_r) + word_or_none(r@.last()@));
    } else {
        assert(str_views(r@) =~= str_views(r@) + word_or_none(cur@));
    }
    r
}

/// Whether a string begins with `#`.
fn begins_with_hash(s: &String) -> (r: bool)
    ensures
        r == starts_with_hash(s@),
{
    let t = s.as_str();
    t.unicode_len() > 0 && t.get_char(0) == '#'
}

/// The entry that one line of a hosts file gives, if any.
pub fn parse_line(line: &Vec<char>) -> (r: Option<HostsEntry>)
    ensures
        opt_entry_view(r) == parse_line_spec(line@),
{
    let t = split_tokens(line);
    let ghost tv = str_views(t@);
    assert(tv.len() == t@.len());
    if t.len() < 2 {
        return None;
    }
    assert(tv[0] == t@[0]@);
    assert(tv[1] == t@[1]@);
    if begins_with_hash(&t[0]) {
        return None;
    }
    let mut comment: Option<String> = None;
    if t.len() > 2 && begins_with_hash(&t[2]) {
        assert(tv[2] == t@[2]@);
        let mut acc = t[2].clone();
        let mut i: usize = 3;
        assert(tv.subrange(2, 3).drop_last() =~= seq![]);
        while i < t.len()
            invariant
                3 <= i <= t.len(),
                tv == str_views(t@),
                tv.len() == t@.len(),
                acc@ == join_spaces(tv.subrange(2, i as int)),
            decreases t.len() - i,
        {
            assert(tv.subrange(2, i + 1).drop_last() =~= tv.subrange(2, i as int));
            assert(tv[i as int] == t@[i as int]@);
            acc.append(" ");
            proof {
                reveal_strlit(" ");
            }
            acc.append(t[i].as_str());
            i = i + 1;
        }
        assert(tv.subrange(2, t.len() as int) =~= tv.skip(2));
        comment = Some(acc);
    }
    Some(
        HostsEntry {
            ip: t[0].clone(),
            domain: t[1].clone(),
            comment: comment,
            enabled: true,
        },
    )
}

/// Parses hosts-file text into its entries, in order. Blank lines, comment
/// lines and lines of fewer than two tokens are skipped; every entry is enabled.
pub fn parse_hosts(text: &str) -> (r: Vec<HostsEntry>)
    ensures
        entry_views(r@) == parse_text(text@),
{
    let cs = chars_of(text);
    let mut r: Vec<HostsEntry> = Vec::new();
    let mut line: Vec<char> = Vec::new();
    let ghost mut done: Seq<Seq<char>> = seq![];
    let mut i: usize = 0;
    assert(cs@.skip(0) =~= cs@);
    assert(line@ =~= seq![]);
    assert(entry_views(r@) =~= seq![]);
    while i < cs.len()
        invariant
            i <= cs.len(),
            cs@ == text@,
            entry_views(r@) == parse_lines(done),
            done + lines_from(cs@.skip(i as int), line@) == lines(cs@),
        decreases cs.len() - i,
    {
        let c = cs[i];
        let ghost rest = cs@.skip(i as int);
        assert(rest.drop_first() =~= cs@.skip(i + 1));
        assert(rest[0] == c);
        if c == '\n' {
            let p = parse_line(&line);
            let ghost old_r = r@;
            assert(done.push(line@).drop_last() =~= done);
            match p {
                Some(e) => {
                    r.push(e);
                    assert(entry_views(r@) =~= entry_views(old_r) + opt_seq(opt_entry_view(p)));
                },
                None => {
                    assert(entry_views(r@) =~= entry_views(old_r) + opt_seq(opt_entry_view(p)));
                },
            }
            assert(done.push(line@) + lines_from(rest.drop_first(), seq![]) =~= done + lines_from(
                rest,
                line@,
            ));
            proof {
                done = done.push(line@);
            }
            line = Vec::new();
            assert(line@ =~= seq![]);
        } else {
            line.push(c);
        }
        i = i + 1;
    }
    assert(cs@.skip(i as int) =~= seq![]);
    let p = parse_line(&line);
    let ghost old_r = r@;
    assert(done.push(line@).drop_last() =~= done);
    assert(done + seq![line@] =~= done.push(line@));
    match p {
        Some(e) => {
            r.push(e);
            assert(entry_views(r@) =~= entry_views(old_r) + opt_seq(opt_entry_view(p)));
        },
        None => {
            assert(entry_views(r@) =~= entry_views(old_r) + opt_seq(opt_entry_view(p)));
        },
    }
    r
}

/// The body of the file: a line per enabled entry, in order, the rest appended.
proof fn lemma_render_body_append(a: Seq<EntryView>, b: Seq<EntryView>)
    ensures
        render_body(a + b) == render_body(a) + render_body(b),
    decreases a.len(),
{
    if a.len() == 0 {
        assert(a + b =~= b);
        assert(render_body(a) + render_body(b) =~= render_body(b));
    } else {
        assert((a + b).drop_first() =~= a.drop_first() + b);
        lemma_render_body_append(a.drop_first(), b);
        assert(render_body(a + b) =~= render_body(a) + render_body(b));
    }
}

proof fn lemma_render_body_single(e: EntryView)
    ensures
        render_body(seq![e]) == entry_piece(e),
{
    assert(seq![e].drop_first() =~= seq![]);
    assert(render_body(seq![e].drop_first()) == Seq::<char>::empty());
    assert(entry_piece(e) + seq![] =~= entry_piece(e));
}

/// Writes entries as hosts-file text under the banner and the given time stamp.
pub fn render_hosts(entries: &Vec<HostsEntry>, stamp: &str) -> (r: String)
    ensures
        r@ == render_text(entry_views(entries@), stamp@),
{
    let ghost es = entry_views(entries@);
    let mut acc = String::new();
    acc.append("# Hosts file managed by IntellijHosts");
    acc.append("\n");
    acc.append("# Last updated: ");
    acc.append(stamp);
    acc.append("\n\n");
    proof {
        reveal_strlit("\n");
        reveal_strlit("\n\n");
        assert(es.take(0) =~= seq![]);
    }
    let ghost head = acc@;
    assert(head == banner() + seq!['\n'] + stamp_prefix() + stamp@ + seq!['\n', '\n']);
    let mut i: usize = 0;
    while i < entries.len()
        invariant
            i <= entries.len(),
            es == entry_views(entries@),
            es.len() == entries@.len(),
            acc@ == head + render_body(es.take(i as int)),
        decreases entries.len() - i,
    {
        let e = &entries[i];
        let ghost before = acc@;
        proof {
            reveal_strlit("\n");
            reveal_strlit("\t");
            assert(es[i as int] == e@);
            assert(es.take(i + 1) =~= es.take(i as int) + seq![es[i as int]]);
            lemma_render_body_append(es.take(i as int), seq![es[i as int]]);
            lemma_render_body_single(es[i as int]);
        }
        if e.enabled {
            acc.append(e.ip.as_str());
            acc.append("\t");
            acc.append(e.domain.as_str());
            proof {
                reveal_strlit("\t");
            }
            match &e.comment {
                Some(c) => {
                    acc.append("\t");
                    acc.append(c.as_str());
                },
                None => {},
            }
            acc.append("\n");
        }
        assert(acc@ =~= before + entry_piece(e@));
        assert(acc@ =~= head + render_body(es.take(i + 1)));
        i = i + 1;
    }
    assert(es.take(i as int) =~= es);
    acc
}

/// Relies on chrono's `Local::now` and the `Display` of its `DateTime`: the
/// local date, a space, the time, a space and the offset, written with digits,
/// `-`, `:`, `.` and `+` only.
#[verifier::external_body]
fn local_now_text() -> (r: String)
    ensures
        stamp_text(r@),
{
    chrono::Local::now().to_string()
}

/// Writes entries as hosts-file text stamped with the current local time.
pub fn serialize_hosts(entries: &Vec<HostsEntry>) -> (r: String)
    ensures
        exists|stamp: Seq<char>|
            stamp_text(stamp) && r@ == render_text(entry_views(entries@), stamp),
{
    let stamp = local_now_text();
    render_hosts(entries, stamp.as_str())
}

/// A disabled entry adds nothing to the file: the text is the one written
/// without that entry.
pub proof fn lemma_disabled_omitted(es: Seq<EntryView>, i: int, stamp: Seq<char>)
    requires
        0 <= i < es.len(),
        !es[i].enabled,
    ensures
        render_text(es, stamp) == render_text(es.remove(i), stamp),
{
    let a = es.take(i);
    let b = es.skip(i + 1);
    assert(es =~= a + (seq![es[i]] + b));
    assert(es.remove(i) =~= a + b);
    lemma_render_body_append(a, seq![es[i]] + b);
    lemma_render_body_append(seq![es[i]], b);
    lemma_render_body_append(a, b);
    lemma_render_body_single(es[i]);
    assert(render_body(seq![es[i]]) =~= seq![]);
    assert(render_body(es) =~= render_body(es.remove(i)));
}

/// A non-empty run of characters without white space.
pub open spec fn is_token(w: Seq<char>) -> bool {
    w.len() > 0 && forall|i: int| 0 <= i < w.len() ==> !is_ws(w[i])
}

/// An entry that reads back as itself once written: enabled, its address and
/// name single tokens, the address not a comment, and its comment (if any) a
/// single-spaced run of tokens that starts with `#`, on one line.
pub open spec fn round_trips(e: EntryView) -> bool {
    &&& e.enabled
    &&& is_token(e.ip)
    &&& !starts_with_hash(e.ip)
    &&& is_token(e.domain)
    &&& match e.comment {
        None => true,
        Some(c) => no_newline(c) && tokens(c).len() > 0 && starts_with_hash(tokens(c)[0])
            && join_spaces(tokens(c)) == c,
    }
}

proof fn lemma_lines_split(a: Seq<char>, rest: Seq<char>, cur: Seq<char>)
    requires
        no_newline(a),
    ensures
        lines_from(a + seq!['\n'] + rest, cur) == seq![cur + a] + lines_from(rest, seq![]),
    decreases a.len(),
{
    let s = a + seq!['\n'] + rest;
    if a.len() == 0 {
        assert(s.drop_first() =~= rest);
        assert(cur + a =~= cur);
    } else {
        assert(s.drop_first() =~= a.drop_first() + seq!['\n'] + rest);
        lemma_lines_split(a.drop_first(), rest, cur.push(a[0]));
        assert(cur.push(a[0]) + a.drop_first() =~= cur + a);
    }
}

proof fn lemma_parse_lines_append(a: Seq<Seq<char>>, b: Seq<Seq<char>>)
    ensures
        parse_lines(a + b) == parse_lines(a) + parse_lines(b),
    decreases b.len(),
{
    if b.len() == 0 {
        assert(a + b =~= a);
        assert(parse_lines(a) + parse_lines(b) =~= parse_lines(a));
    } else {
        assert((a + b).drop_last() =~= a + b.drop_last());
        lemma_parse_lines_append(a, b.drop_last());
        assert(parse_lines(a + b) =~= parse_lines(a) + parse_lines(b));
    }
}

proof fn lemma_tokens_word(w: Seq<char>, c: char, rest: Seq<char>, cur: Seq<char>)
    requires
        forall|i: int| 0 <= i < w.len() ==> !is_ws(w[i]),
        is_ws(c),
        (cur + w).len() > 0,
    ensures
        tokens_from(w + seq![c] + rest, cur) == seq![cur + w] + tokens_from(rest, seq![]),
    decreases w.len(),
{
    let s = w + seq![c] + rest;
    if w.len() == 0 {
        assert(s.drop_first() =~= rest);
        assert(cur + w =~= cur);
    } else {
        assert(s.drop_first() =~= w.drop_first() + seq![c] + rest);
        lemma_tokens_word(w.drop_first(), c, rest, cur.push(w[0]));
        assert(cur.push(w[0]) + w.drop_first() =~= cur + w);
    }
}

proof fn lemma_tokens_last(w: Seq<char>, cur: Seq<char>)
    requires
        forall|i: int| 0 <= i < w.len() ==> !is_ws(w[i]),
        (cur + w).len() > 0,
    ensures
        tokens_from(w, cur) == seq![cur + w],
    decreases w.len(),
{
    if w.len() == 0 {
        assert(cur + w =~= cur);
    } else {
        lemma_tokens_last(w.drop_first(), cur.push(w[0]));
        assert(cur.push(w[0]) + w.drop_first() =~= cur + w);
    }
}

proof fn lemma_tokens_head(s: Seq<char>, cur: Seq<char>)
    requires
        cur.len() > 0,
    ensures
        tokens_from(s, cur).len() > 0,
        tokens_from(s, cur)[0].len() > 0,
        tokens_from(s, cur)[0][0] == cur[0],
    decreases s.len(),
{
    if s.len() > 0 && !is_ws(s[0]) {
        lemma_tokens_head(s.drop_first(), cur.push(s[0]));
    }
}

proof fn lemma_comment_line(s: Seq<char>)
    requires
        s.len() > 0,
        s[0] == '#',
    ensures
        parse_line_spec(s) is None,
{
    assert(!is_ws('#'));
    lemma_tokens_head(s.drop_first(), seq![s[0]]);
    assert(seq![].push(s[0]) =~= seq![s[0]]);
}

proof fn lemma_entry_line(e: EntryView)
    requires
        round_trips(e),
    ensures
        no_newline(entry_line(e)),
        parse_line_spec(entry_line(e)) == Some(e),
{
    let t = seq!['\t'];
    assert(is_ws('\t'));
    assert(is_ws('\n'));
    assert(seq![] + e.ip =~= e.ip);
    assert(seq![] + e.domain =~= e.domain);
    match e.comment {
        None => {
            assert(entry_line(e) =~= e.ip + t + e.domain);
            lemma_tokens_word(e.ip, '\t', e.domain, seq![]);
            lemma_tokens_last(e.domain, seq![]);
            assert(tokens(entry_line(e)) =~= seq![e.ip, e.domain]);
        },
        Some(c) => {
            assert(entry_line(e) =~= e.ip + t + (e.domain + t + c));
            lemma_tokens_word(e.ip, '\t', e.domain + t + c, seq![]);
            lemma_tokens_word(e.domain, '\t', c, seq![]);
            let tk = tokens(entry_line(e));
            assert(tk =~= seq![e.ip, e.domain] + tokens(c));
            assert(tk.skip(2) =~= tokens(c));
        },
    }
}

proof fn lemma_body_round_trip(es: Seq<EntryView>)
    requires
        forall|i: int| 0 <= i < es.len() ==> round_trips(#[trigger] es[i]),
    ensures
        parse_lines(lines(render_body(es))) == es,
    decreases es.len(),
{
    if es.len() == 0 {
        let z = Seq::<char>::empty();
        assert(render_body(es) == z);
        assert(lines(z) == seq![z]);
        assert(tokens(z) =~= seq![]);
        assert(parse_line_spec(z) is None);
        assert(seq![z].drop_last() =~= seq![]);
        assert(parse_lines(Seq::<Seq<char>>::empty()) == Seq::<EntryView>::empty());
        assert(parse_lines(seq![z]) =~= seq![]);
        assert(parse_lines(lines(render_body(es))) =~= es);
    } else {
        let e = es[0];
        let rest = es.drop_first();
        assert(round_trips(e));
        assert forall|i: int| 0 <= i < rest.len() implies round_trips(#[trigger] rest[i]) by {
            assert(rest[i] == es[i + 1]);
        }
        lemma_body_round_trip(rest);
        lemma_entry_line(e);
        let l = entry_line(e);
        assert(render_body(es) == l + seq!['\n'] + render_body(rest));
        lemma_lines_split(l, render_body(rest), seq![]);
        assert(seq![] + l =~= l);
        lemma_parse_lines_append(seq![l], lines(render_body(rest)));
        assert(seq![l].drop_last() =~= seq![]);
        assert(parse_lines(Seq::<Seq<char>>::empty()) == Seq::<EntryView>::empty());
        assert(parse_lines(seq![l]) =~= seq![e]);
        assert(seq![e] + rest =~= es);
    }
}

/// Text written from entries that read back as themselves parses to those
/// same entries, in order: the banner, the time stamp line and the blank line
/// give none.
pub proof fn lemma_round_trip(es: Seq<EntryView>, stamp: Seq<char>)
    requires
        forall|i: int| 0 <= i < es.len() ==> round_trips(#[trigger] es[i]),
        no_newline(stamp),
    ensures
        parse_text(render_text(es, stamp)) == es,
{
    reveal_strlit("# Hosts file managed by IntellijHosts");
    reveal_strlit("# Last updated: ");
    let b = banner();
    let h = stamp_prefix() + stamp;
    let body = render_body(es);
    assert(no_newline(b));
    assert(no_newline(h));
    assert(no_newline(Seq::<char>::empty()));
    let nl = seq!['\n'];
    assert(render_text(es, stamp) =~= b + nl + (h + nl + (Seq::<char>::empty() + nl + body)));
    lemma_lines_split(b, h + nl + (Seq::<char>::empty() + nl + body), seq![]);
    lemma_lines_split(h, Seq::<char>::empty() + nl + body, seq![]);
    lemma_lines_split(Seq::<char>::empty(), body, seq![]);
    assert(seq![] + b =~= b);
    assert(seq![] + h =~= h);
    assert(Seq::<char>::empty() + Seq::<char>::empty() =~= Seq::<char>::empty());
    let head = seq![b, h, Seq::<char>::empty()];
    assert(lines(render_text(es, stamp)) =~= head + lines(body));
    lemma_parse_lines_append(head, lines(body));
    lemma_comment_line(b);
    lemma_comment_line(h);
    assert(tokens(seq![]) =~= seq![]);
    assert(head.drop_last() =~= seq![b, h]);
    assert(seq![b, h].drop_last() =~= seq![b]);
    assert(seq![b].drop_last() =~= seq![]);
    assert(parse_lines(Seq::<Seq<char>>::empty()) == Seq::<EntryView>::empty());
    assert(parse_line_spec(Seq::<char>::empty()) is None);
    assert(parse_lines(seq![b]) =~= seq![]);
    assert(parse_lines(seq![b, h]) =~= seq![]);
    assert(parse_lines(head) =~= seq![]);
    lemma_body_round_trip(es);
    assert(parse_lines(head) + es =~= es);
}

pub open spec fn no_tab(s: Seq<char>) -> bool {
    forall|i: int| 0 <= i < s.len() ==> s[i] != '\t'
}

/// The tab-separated fields of `cur + s`; `cur` holds no tab.
pub open spec fn tab_fields_from(s: Seq<char>, cur: Seq<char>) -> Seq<Seq<char>>
    decreases s.len(),
{
    if s.len() == 0 {
        seq![cur]
    } else if s[0] == '\t' {
        seq![cur] + tab_fields_from(s.drop_first(), seq![])
    } else {
        tab_fields_from(s.drop_first(), cur.push(s[0]))
    }
}

/// The tab-separated fields of a line.
pub open spec fn tab_fields(s: Seq<char>) -> Seq<Seq<char>> {
    tab_fields_from(s, seq![])
}

/// Whether a line's first two tab-separated fields are this address and name.
pub open spec fn line_maps(l: Seq<char>, ip: Seq<char>, domain: Seq<char>) -> bool {
    tab_fields(l).len() >= 2 && tab_fields(l)[0] == ip && tab_fields(l)[1] == domain
}

/// Entry fields free of tabs and newlines.
pub open spec fn plain_entry(e: EntryView) -> bool {
    &&& no_tab(e.ip) && no_newline(e.ip)
    &&& no_tab(e.domain) && no_newline(e.domain)
    &&& match e.comment {
        Some(c) => no_tab(c) && no_newline(c),
        None => true,
    }
}

/// The line is the line of an enabled entry.
pub open spec fn is_enabled_line(es: Seq<EntryView>, l: Seq<char>) -> bool {
    exists|j: int| 0 <= j < es.len() && es[j].enabled && l == entry_line(es[j])
}

/// The lines of the enabled entries, in order.
pub open spec fn enabled_lines(es: Seq<EntryView>) -> Seq<Seq<char>>
    decreases es.len(),
{
    if es.len() == 0 {
        seq![]
    } else {
        (if es[0].enabled {
            seq![entry_line(es[0])]
        } else {
            seq![]
        }) + enabled_lines(es.drop_first())
    }
}

proof fn lemma_tab_split(a: Seq<char>, rest: Seq<char>, cur: Seq<char>)
    requires
        no_tab(a),
    ensures
        tab_fields_from(a + seq!['\t'] + rest, cur) == seq![cur + a] + tab_fields_from(
            rest,
            seq![],
        ),
    decreases a.len(),
{
    let s = a + seq!['\t'] + rest;
    if a.len() == 0 {
        assert(s.drop_first() =~= rest);
        assert(cur + a =~= cur);
    } else {
        assert(s.drop_first() =~= a.drop_first() + seq!['\t'] + rest);
        lemma_tab_split(a.drop_first(), rest, cur.push(a[0]));
        assert(cur.push(a[0]) + a.drop_first() =~= cur + a);
    }
}

proof fn lemma_tab_last(a: Seq<char>, cur: Seq<char>)
    requires
        no_tab(a),
    ensures
        tab_fields_from(a, cur) == seq![cur + a],
    decreases a.len(),
{
    if a.len() == 0 {
        assert(cur + a =~= cur);
    } else {
        lemma_tab_last(a.drop_first(), cur.push(a[0]));
        assert(cur.push(a[0]) + a.drop_first() =~= cur + a);
    }
}

proof fn lemma_plain_line(e: EntryView)
    requires
        plain_entry(e),
    ensures
        no_newline(entry_line(e)),
        line_maps(entry_line(e), e.ip, e.domain),
{
    let t = seq!['\t'];
    assert(seq![] + e.ip =~= e.ip);
    assert(seq![] + e.domain =~= e.domain);
    match e.comment {
        None => {
            assert(entry_line(e) =~= e.ip + t + e.domain);
            lemma_tab_split(e.ip, e.domain, seq![]);
            lemma_tab_last(e.domain, seq![]);
        },
        Some(c) => {
            assert(entry_line(e) =~= e.ip + t + (e.domain + t + c));
            lemma_tab_split(e.ip, e.domain + t + c, seq![]);
            lemma_tab_split(e.domain, c, seq![]);
        },
    }
}

proof fn lemma_body_lines(es: Seq<EntryView>)
    requires
        forall|i: int| 0 <= i < es.len() ==> plain_entry(#[trigger] es[i]),
    ensures
        lines(render_body(es)) == enabled_lines(es) + seq![Seq::<char>::empty()],
        forall|m: int|
            0 <= m < enabled_lines(es).len() ==> is_enabled_line(es, #[trigger] enabled_lines(es)[m]),
    decreases es.len(),
{
    if es.len() == 0 {
        assert(lines(Seq::<char>::empty()) == seq![Seq::<char>::empty()]);
        assert(enabled_lines(es) == Seq::<Seq<char>>::empty());
        assert(enabled_lines(es) + seq![Seq::<char>::empty()] =~= seq![Seq::<char>::empty()]);
    } else {
        let e = es[0];
        let rest = es.drop_first();
        assert(plain_entry(e));
        assert forall|i: int| 0 <= i < rest.len() implies plain_entry(#[trigger] rest[i]) by {
            assert(rest[i] == es[i + 1]);
        }
        lemma_body_lines(rest);
        if e.enabled {
            lemma_plain_line(e);
            let l = entry_line(e);
            assert(render_body(es) == l + seq!['\n'] + render_body(rest));
            lemma_lines_split(l, render_body(rest), seq![]);
            assert(seq![] + l =~= l);
            assert(lines(render_body(es)) =~= enabled_lines(es) + seq![Seq::<char>::empty()]);
            assert forall|m: int| 0 <= m < enabled_lines(es).len() implies is_enabled_line(es, #[trigger] enabled_lines(es)[m]) by {
                if m == 0 {
                    assert(enabled_lines(es)[m] == entry_line(es[0]));
                } else {
                    assert(enabled_lines(es)[m] == enabled_lines(rest)[m - 1]);
                    let j = choose|j: int|
                        0 <= j < rest.len() && rest[j].enabled && enabled_lines(rest)[m - 1]
                            == entry_line(rest[j]);
                    assert(es[j + 1] == rest[j]);
                }
            }
        } else {
            assert(render_body(es) =~= render_body(rest));
            assert(enabled_lines(es) =~= enabled_lines(rest));
            assert forall|m: int| 0 <= m < enabled_lines(es).len() implies is_enabled_line(es, #[trigger] enabled_lines(es)[m]) by {
                assert(enabled_lines(es)[m] == enabled_lines(rest)[m]);
                let j = choose|j: int|
                    0 <= j < rest.len() && rest[j].enabled && enabled_lines(rest)[m] == entry_line(
                        rest[j],
                    );
                assert(es[j + 1] == rest[j]);
            }
        }
    }
}

/// No line of the written file maps a disabled entry's address to its name,
/// unless an enabled entry maps the same pair: after the banner and the time
/// stamp line come a blank line, one line per enabled entry, and nothing else.
pub proof fn lemma_disabled_line_absent(es: Seq<EntryView>, i: int, stamp: Seq<char>)
    requires
        0 <= i < es.len(),
        !es[i].enabled,
        forall|j: int| 0 <= j < es.len() ==> plain_entry(#[trigger] es[j]),
        forall|j: int|
            0 <= j < es.len() && #[trigger] es[j].enabled ==> !(es[j].ip == es[i].ip
                && es[j].domain == es[i].domain),
        stamp_text(stamp),
    ensures
        forall|k: int|
            2 <= k < lines(render_text(es, stamp)).len() ==> !line_maps(
                #[trigger] lines(render_text(es, stamp))[k],
                es[i].ip,
                es[i].domain,
            ),
{
    reveal_strlit("# Hosts file managed by IntellijHosts");
    reveal_strlit("# Last updated: ");
    let b = banner();
    let h = stamp_prefix() + stamp;
    let z = Seq::<char>::empty();
    let body = render_body(es);
    assert(no_newline(b));
    assert(no_newline(h));
    assert(no_newline(z));
    let nl = seq!['\n'];
    assert(render_text(es, stamp) =~= b + nl + (h + nl + (z + nl + body)));
    lemma_lines_split(b, h + nl + (z + nl + body), seq![]);
    lemma_lines_split(h, z + nl + body, seq![]);
    lemma_lines_split(z, body, seq![]);
    assert(seq![] + b =~= b);
    assert(seq![] + h =~= h);
    assert(z + z =~= z);
    lemma_body_lines(es);
    let el = enabled_lines(es);
    let ls = lines(render_text(es, stamp));
    assert(ls =~= seq![b, h, z] + (el + seq![z]));
    assert(tab_fields(z) == seq![z]);
    assert forall|k: int| 2 <= k < ls.len() implies !line_maps(
        #[trigger] ls[k],
        es[i].ip,
        es[i].domain,
    ) by {
        if k == 2 || k == ls.len() - 1 {
            assert(ls[k] == z);
        } else {
            assert(ls[k] == el[k - 3]);
            assert(is_enabled_line(es, el[k - 3]));
            let j = choose|j: int| 0 <= j < es.len() && es[j].enabled && el[k - 3] == entry_line(es[j]);
            lemma_plain_line(es[j]);
        }
    }
}

} // verus!
