//! The HTML served by the dashboard: the log page, the status pips and dots,
//! and the page of service cards.

use vstd::prelude::*;

use crate::page::{
    CARD_ACTIONS_OPEN, CARD_BADGE_OPEN, CARD_CLOSE, CARD_LOGS_OPEN, CARD_META_OPEN, CARD_META_SEP,
    CARD_OPEN, CARD_SPARK_OPEN, CI_CLOSE, CI_IMG, CI_OPEN, EMPTY_CARD, LINK_CLOSE, LINK_MID,
    LINK_OPEN, LOG_PAGE_HEAD, LOG_PAGE_PRE_OPEN, LOG_PAGE_TAIL, LOG_PAGE_TITLE_END, PAGE_HEAD,
    PAGE_TAIL,
};
use crate::db::{CheckRow, ServiceSnapshot};
use crate::text::{decimal, push_decimal, push_signed, signed_decimal, str_eq};

verus! {

/// The escape character that opens an ANSI control sequence.
pub open spec fn is_escape(c: char) -> bool {
    c == '\x1b'
}

/// A final byte of a control sequence: `@` through `~`.
pub open spec fn is_final_byte(c: char) -> bool {
    0x40 <= (c as u32) && (c as u32) <= 0x7e
}

/// Where the scan for ANSI sequences stands between two characters.
#[derive(PartialEq, Eq, Structural, Clone, Copy)]
pub enum AnsiMode {
    /// Plain text: characters are kept.
    Text,
    /// Just after an escape character.
    Escape,
    /// Inside `ESC [ ...`, until a final byte.
    Control,
}

/// One character of the scan: the kept characters so far and the mode.
pub open spec fn ansi_step(kept: Seq<char>, mode: AnsiMode, c: char) -> (Seq<char>, AnsiMode) {
    match mode {
        AnsiMode::Text => if is_escape(c) {
            (kept, AnsiMode::Escape)
        } else {
            (kept.push(c), AnsiMode::Text)
        },
        AnsiMode::Escape => if c == '[' {
            (kept, AnsiMode::Control)
        } else if is_escape(c) {
            (kept, AnsiMode::Escape)
        } else {
            (kept.push(c), AnsiMode::Text)
        },
        AnsiMode::Control => if is_final_byte(c) {
            (kept, AnsiMode::Text)
        } else {
            (kept, AnsiMode::Control)
        },
    }
}

/// The scan of a whole text, from its first character to its last.
pub open spec fn ansi_scan(s: Seq<char>) -> (Seq<char>, AnsiMode)
    decreases s.len(),
{
    if s.len() == 0 {
        (Seq::empty(), AnsiMode::Text)
    } else {
        let prev = ansi_scan(s.drop_last());
        ansi_step(prev.0, prev.1, s.last())
    }
}

/// A text with its ANSI sequences removed: an escape character is dropped;
/// when `[` follows it, everything up to and including the next final byte
/// (or the rest of the text, where none comes) is dropped too.
pub open spec fn strip_ansi_spec(s: Seq<char>) -> Seq<char> {
    ansi_scan(s).0
}

fn is_final_char(c: char) -> (r: bool)
    ensures
        r == is_final_byte(c),
{
    let n = c as u32;
    0x40 <= n && n <= 0x7e
}

/// The scan after a text depends only on where the scan of that text ended.
proof fn lemma_scan_congruent(p1: Seq<char>, p2: Seq<char>, t: Seq<char>)
    requires
        ansi_scan(p1) == ansi_scan(p2),
    ensures
        ansi_scan(p1 + t) == ansi_scan(p2 + t),
    decreases t.len(),
{
    if t.len() == 0 {
        assert(p1 + t == p1);
        assert(p2 + t == p2);
    } else {
        let t0 = t.drop_last();
        lemma_scan_congruent(p1, p2, t0);
        assert((p1 + t).drop_last() == p1 + t0);
        assert((p2 + t).drop_last() == p2 + t0);
        assert((p1 + t).last() == t.last());
        assert((p2 + t).last() == t.last());
    }
}

proof fn lemma_scan_of_control_start(c: char)
    ensures
        ansi_scan(seq!['\x1b', '[']) == (Seq::<char>::empty(), AnsiMode::Control),
        ansi_scan(seq!['\x1b', '[', c]) == (if 0x40 <= (c as u32) && (c as u32) <= 0x7e {
            (Seq::<char>::empty(), AnsiMode::Text)
        } else {
            (Seq::<char>::empty(), AnsiMode::Control)
        }),
{
    let s1 = seq!['\x1b'];
    let s2 = seq!['\x1b', '['];
    let s3 = seq!['\x1b', '[', c];
    assert(s1.drop_last() == Seq::<char>::empty());
    assert(s2.drop_last() == s1);
    assert(s3.drop_last() == s2);
    assert(ansi_scan(Seq::<char>::empty()) == (Seq::<char>::empty(), AnsiMode::Text));
    assert(ansi_scan(s1) == (Seq::<char>::empty(), AnsiMode::Escape));
    assert(ansi_scan(s2) == (Seq::<char>::empty(), AnsiMode::Control));
}

/// Every character from `@` (0x40) through `~` (0x7e) ends a control
/// sequence: `ESC [` and that character vanish, and the rest of the text is
/// stripped as if they had never been there.
pub proof fn lemma_final_byte_ends_sequence(c: char, t: Seq<char>)
    requires
        0x40 <= (c as u32) && (c as u32) <= 0x7e,
    ensures
        strip_ansi_spec(seq!['\x1b', '[', c] + t) == strip_ansi_spec(t),
{
    lemma_scan_of_control_start(c);
    lemma_scan_congruent(seq!['\x1b', '[', c], Seq::<char>::empty(), t);
    assert(Seq::<char>::empty() + t == t);
}

/// Every other character inside a control sequence is dropped and the
/// sequence goes on.
pub proof fn lemma_other_byte_continues_sequence(c: char, t: Seq<char>)
    requires
        !(0x40 <= (c as u32) && (c as u32) <= 0x7e),
    ensures
        strip_ansi_spec(seq!['\x1b', '[', c] + t) == strip_ansi_spec(seq!['\x1b', '['] + t),
{
    lemma_scan_of_control_start(c);
    lemma_scan_congruent(seq!['\x1b', '[', c], seq!['\x1b', '['], t);
}

/// Text before an escape character is kept as it is.
pub proof fn lemma_plain_prefix_kept(p: Seq<char>, t: Seq<char>)
    requires
        forall|i: int| 0 <= i < p.len() ==> !is_escape(#[trigger] p[i]),
    ensures
        strip_ansi_spec(p + t) == p + strip_ansi_spec(t),
{
    lemma_strip_plain_text(p);
    lemma_plain_prefix_kept_scan(p, t);
}

proof fn lemma_plain_prefix_kept_scan(p: Seq<char>, t: Seq<char>)
    requires
        ansi_scan(p) == (p, AnsiMode::Text),
    ensures
        ansi_scan(p + t) == (p + ansi_scan(t).0, ansi_scan(t).1),
    decreases t.len(),
{
    if t.len() == 0 {
        assert(p + t == p);
        assert(p + Seq::<char>::empty() == p);
    } else {
        let t0 = t.drop_last();
        lemma_plain_prefix_kept_scan(p, t0);
        assert((p + t).drop_last() == p + t0);
        assert((p + t).last() == t.last());
        let prev = ansi_scan(t0);
        assert((p + prev.0).push(t.last()) == p + prev.0.push(t.last()));
    }
}

/// Removes ANSI escape sequences from a log text.
pub fn strip_ansi(s: &str) -> (out: String)
    ensures
        out@ == strip_ansi_spec(s@),
{
    let mut out = String::new();
    let mut mode = AnsiMode::Text;
    for c in iter: s.chars()
        invariant
            iter.seq() == s@,
            (out@, mode) == ansi_scan(s@.take(iter.index())),
    {
        proof {
            assert(s@.take(iter.index() + 1).drop_last() == s@.take(iter.index()));
        }
        match mode {
            AnsiMode::Text => {
                if c == '\x1b' {
                    mode = AnsiMode::Escape;
                } else {
                    out.push(c);
                }
            },
            AnsiMode::Escape => {
                if c == '[' {
                    mode = AnsiMode::Control;
                } else if c == '\x1b' {
                    mode = AnsiMode::Escape;
                } else {
                    out.push(c);
                    mode = AnsiMode::Text;
                }
            },
            AnsiMode::Control => {
                if is_final_char(c) {
                    mode = AnsiMode::Text;
                }
            },
        }
    }
    proof {
        assert(s@.take(s@.len() as int) == s@);
    }
    out
}

/// Stripping leaves no escape character behind.
pub proof fn lemma_strip_leaves_no_escape(s: Seq<char>)
    ensures
        forall|i: int| 0 <= i < strip_ansi_spec(s).len() ==> !is_escape(#[trigger] strip_ansi_spec(s)[i]),
    decreases s.len(),
{
    if s.len() > 0 {
        let p = s.drop_last();
        lemma_strip_leaves_no_escape(p);
        let prev = ansi_scan(p);
        let kept = strip_ansi_spec(s);
        assert(kept == prev.0 || (kept == prev.0.push(s.last()) && !is_escape(s.last())));
        assert forall|i: int| 0 <= i < kept.len() implies !is_escape(#[trigger] kept[i]) by {
            if i < prev.0.len() {
                assert(kept[i] == strip_ansi_spec(p)[i]);
            } else {
                assert(kept[i] == s.last());
            }
        }
    }
}

/// A text without escape characters comes out of stripping unchanged.
pub proof fn lemma_strip_plain_text(s: Seq<char>)
    requires
        forall|i: int| 0 <= i < s.len() ==> !is_escape(#[trigger] s[i]),
    ensures
        ansi_scan(s) == (s, AnsiMode::Text),
        strip_ansi_spec(s) == s,
    decreases s.len(),
{
    if s.len() > 0 {
        let p = s.drop_last();
        assert forall|i: int| 0 <= i < p.len() implies !is_escape(#[trigger] p[i]) by {
            assert(p[i] == s[i]);
        }
        lemma_strip_plain_text(p);
        assert(p.push(s.last()) == s);
    }
}

/// Stripping twice gives what stripping once gives.
pub proof fn lemma_strip_idempotent(s: Seq<char>)
    ensures
        strip_ansi_spec(strip_ansi_spec(s)) == strip_ansi_spec(s),
{
    lemma_strip_leaves_no_escape(s);
    lemma_strip_plain_text(strip_ansi_spec(s));
}

/// The HTML text of one character of a log: `&`, `<` and `>` become entities.
pub open spec fn escape_char(c: char) -> Seq<char> {
    if c == '&' {
        "&amp;"@
    } else if c == '<' {
        "&lt;"@
    } else if c == '>' {
        "&gt;"@
    } else {
        seq![c]
    }
}

/// The HTML text of a log text, character by character.
pub open spec fn escape_html(s: Seq<char>) -> Seq<char>
    decreases s.len(),
{
    if s.len() == 0 {
        Seq::empty()
    } else {
        escape_html(s.drop_last()) + escape_char(s.last())
    }
}

/// A log as shown on its page: ANSI sequences removed, then HTML-escaped.
pub open spec fn escaped_log(s: Seq<char>) -> Seq<char> {
    escape_html(strip_ansi_spec(s))
}

/// Removes ANSI sequences from a log and escapes it for HTML.
pub fn html_escape_log(s: &str) -> (out: String)
    ensures
        out@ == escaped_log(s@),
{
    let stripped = strip_ansi(s);
    let mut out = String::new();
    for c in iter: stripped.as_str().chars()
        invariant
            iter.seq() == stripped@,
            out@ == escape_html(stripped@.take(iter.index())),
    {
        proof {
            assert(stripped@.take(iter.index() + 1).drop_last() == stripped@.take(iter.index()));
        }
        if c == '&' {
            out.append("&amp;");
        } else if c == '<' {
            out.append("&lt;");
        } else if c == '>' {
            out.append("&gt;");
        } else {
            out.push(c);
        }
    }
    proof {
        assert(stripped@.take(stripped@.len() as int) == stripped@);
    }
    out
}

/// Whether a character could open a tag or an escape sequence in the page.
pub open spec fn is_unsafe_char(c: char) -> bool {
    c == '<' || c == '>' || is_escape(c)
}

/// Escaping a text without escape characters leaves no `<`, `>` or escape
/// character.
pub proof fn lemma_escape_html_safe(t: Seq<char>)
    requires
        forall|i: int| 0 <= i < t.len() ==> !is_escape(#[trigger] t[i]),
    ensures
        forall|i: int| 0 <= i < escape_html(t).len() ==> !is_unsafe_char(#[trigger] escape_html(t)[i]),
    decreases t.len(),
{
    if t.len() > 0 {
        let p = t.drop_last();
        assert forall|i: int| 0 <= i < p.len() implies !is_escape(#[trigger] p[i]) by {
            assert(p[i] == t[i]);
        }
        lemma_escape_html_safe(p);
        reveal_strlit("&amp;");
        reveal_strlit("&lt;");
        reveal_strlit("&gt;");
        let c = t.last();
        let e = escape_char(c);
        assert(!is_escape(c));
        assert forall|j: int| 0 <= j < e.len() implies !is_unsafe_char(#[trigger] e[j]) by {}
        let whole = escape_html(t);
        assert(whole == escape_html(p) + e);
        assert forall|i: int| 0 <= i < whole.len() implies !is_unsafe_char(#[trigger] whole[i]) by {
            if i < escape_html(p).len() {
                assert(whole[i] == escape_html(p)[i]);
            } else {
                assert(whole[i] == e[i - escape_html(p).len()]);
            }
        }
    }
}

/// A log as shown on its page holds no `<`, `>` or escape character, so it
/// can open no tag and send no terminal control sequence.
pub proof fn lemma_escaped_log_safe(s: Seq<char>)
    ensures
        forall|i: int| 0 <= i < escaped_log(s).len() ==> !is_unsafe_char(#[trigger] escaped_log(s)[i]),
{
    lemma_strip_leaves_no_escape(s);
    lemma_escape_html_safe(strip_ansi_spec(s));
}

/// Whether `s` begins with `p`.
pub open spec fn starts_with(s: Seq<char>, p: Seq<char>) -> bool {
    p.len() <= s.len() && s.subrange(0, p.len() as int) == p
}

/// Reads HTML text back in one pass from left to right: `&lt;`, `&gt;` and
/// `&amp;` become `<`, `>` and `&`; every other character stays.
pub open spec fn unescape_html(s: Seq<char>) -> Seq<char>
    decreases s.len(),
{
    if s.len() == 0 {
        Seq::empty()
    } else if starts_with(s, "&lt;"@) && s.len() >= 4 {
        seq!['<'] + unescape_html(s.subrange(4, s.len() as int))
    } else if starts_with(s, "&gt;"@) && s.len() >= 4 {
        seq!['>'] + unescape_html(s.subrange(4, s.len() as int))
    } else if starts_with(s, "&amp;"@) && s.len() >= 5 {
        seq!['&'] + unescape_html(s.subrange(5, s.len() as int))
    } else {
        seq![s[0]] + unescape_html(s.drop_first())
    }
}

proof fn lemma_escape_html_append(a: Seq<char>, b: Seq<char>)
    ensures
        escape_html(a + b) == escape_html(a) + escape_html(b),
    decreases b.len(),
{
    if b.len() == 0 {
        assert(a + b == a);
        assert(escape_html(a) + Seq::<char>::empty() == escape_html(a));
    } else {
        let b0 = b.drop_last();
        lemma_escape_html_append(a, b0);
        assert((a + b).drop_last() == a + b0);
        assert((a + b).last() == b.last());
        assert(escape_html(a) + escape_html(b0) + escape_char(b.last()) == escape_html(a) + (
        escape_html(b0) + escape_char(b.last())));
    }
}

proof fn lemma_unescape_escape_char(c: char, rest: Seq<char>)
    ensures
        unescape_html(escape_char(c) + rest) == seq![c] + unescape_html(rest),
{
    reveal_strlit("&lt;");
    reveal_strlit("&gt;");
    reveal_strlit("&amp;");
    let s = escape_char(c) + rest;
    if c == '&' {
        assert(s.subrange(0, 4) != "&lt;"@) by {
            assert(s.subrange(0, 4)[1] == 'a');
        }
        assert(s.subrange(0, 4) != "&gt;"@) by {
            assert(s.subrange(0, 4)[1] == 'a');
        }
        assert(s.subrange(0, 5) == "&amp;"@);
        assert(s.subrange(5, s.len() as int) == rest);
    } else if c == '<' {
        assert(s.subrange(0, 4) == "&lt;"@);
        assert(s.subrange(4, s.len() as int) == rest);
    } else if c == '>' {
        assert(s.subrange(0, 4) != "&lt;"@) by {
            assert(s.subrange(0, 4)[1] == 'g');
        }
        assert(s.subrange(0, 4) == "&gt;"@);
        assert(s.subrange(4, s.len() as int) == rest);
    } else {
        assert(s[0] == c);
        if s.len() >= 4 {
            assert(s.subrange(0, 4)[0] == c);
        }
        if s.len() >= 5 {
            assert(s.subrange(0, 5)[0] == c);
        }
        assert(s.drop_first() == rest);
    }
}

/// Reading the escaped text back gives the text: escaping loses nothing.
pub proof fn lemma_unescape_escape_html(t: Seq<char>)
    ensures
        unescape_html(escape_html(t)) == t,
    decreases t.len(),
{
    if t.len() > 0 {
        let rest = t.drop_first();
        lemma_unescape_escape_html(rest);
        assert(t == seq![t[0]] + rest);
        lemma_escape_html_append(seq![t[0]], rest);
        assert(escape_html(seq![t[0]]) == escape_char(t[0])) by {
            let one = seq![t[0]];
            assert(one.drop_last() == Seq::<char>::empty());
            assert(one.last() == t[0]);
            assert(escape_html(Seq::<char>::empty()) == Seq::<char>::empty());
            assert(escape_html(one) == escape_html(one.drop_last()) + escape_char(one.last()));
            assert(Seq::<char>::empty() + escape_char(t[0]) == escape_char(t[0]));
        }
        lemma_unescape_escape_char(t[0], escape_html(rest));
    }
}

/// Reading a log back from its page gives the log without its ANSI
/// sequences.
pub proof fn lemma_unescape_escaped_log(s: Seq<char>)
    ensures
        unescape_html(escaped_log(s)) == strip_ansi_spec(s),
{
    lemma_unescape_escape_html(strip_ansi_spec(s));
}

/// The page that shows the log of a service.
pub open spec fn log_page(service: Seq<char>, content: Seq<char>) -> Seq<char> {
    LOG_PAGE_HEAD@ + service + LOG_PAGE_TITLE_END@ + service + LOG_PAGE_PRE_OPEN@
        + escaped_log(content) + LOG_PAGE_TAIL@
}

/// Renders the page that shows the log of a service.
pub fn render_log_page(service: &str, content: &str) -> (page: String)
    ensures
        page@ == log_page(service@, content@),
{
    let escaped = html_escape_log(content);
    let mut page = String::from_str(LOG_PAGE_HEAD);
    page.append(service);
    page.append(LOG_PAGE_TITLE_END);
    page.append(service);
    page.append(LOG_PAGE_PRE_OPEN);
    page.append(escaped.as_str());
    page.append(LOG_PAGE_TAIL);
    page
}

/// The status pip: an empty span whose class names the status.
pub open spec fn status_pip_spec(status: Seq<char>) -> Seq<char> {
    "<span class=\"pip "@ + status + "\"></span>"@
}

/// Renders the status pip of a card.
pub fn status_pip(status: &str) -> (pip: String)
    ensures
        pip@ == status_pip_spec(status@),
{
    let mut pip = String::from_str("<span class=\"pip ");
    pip.append(status);
    pip.append("\"></span>");
    pip
}

/// A sparkline dot of a running service.
pub const DOT_RUNNING: &'static str = "<span class=\"dot running\">\u{25CF}\u{FE0E}</span>";

/// A sparkline dot of a degraded service.
pub const DOT_DEGRADED: &'static str = "<span class=\"dot degraded\">\u{25D0}\u{FE0E}</span>";

/// A sparkline dot of a stopped service, or of any status not known.
pub const DOT_STOPPED: &'static str = "<span class=\"dot stopped\">\u{25CB}\u{FE0E}</span>";

/// The sparkline dot of a status: `running` and `degraded` have their own,
/// every other status shows as stopped.
pub open spec fn dot_spec(status: Seq<char>) -> Seq<char> {
    if status == "running"@ {
        DOT_RUNNING@
    } else if status == "degraded"@ {
        DOT_DEGRADED@
    } else {
        DOT_STOPPED@
    }
}

/// The sparkline dot of one check.
pub fn dot(status: &str) -> (d: &'static str)
    ensures
        d@ == dot_spec(status@),
{
    if str_eq(status, "running") {
        DOT_RUNNING
    } else if str_eq(status, "degraded") {
        DOT_DEGRADED
    } else {
        DOT_STOPPED
    }
}

/// The ports of the services, by name; where a name is given twice, the
/// later port counts.
pub struct PortTable {
    entries: Vec<(String, u16)>,
}

/// The port given last for `name` among `entries`.
pub open spec fn port_in(entries: Seq<(String, u16)>, name: Seq<char>) -> Option<u16>
    decreases entries.len(),
{
    if entries.len() == 0 {
        None
    } else if entries.last().0@ == name {
        Some(entries.last().1)
    } else {
        port_in(entries.drop_last(), name)
    }
}

/// A port comes only from an entry with exactly that name, and it is the
/// port of the last such entry; without such an entry there is none.
pub proof fn lemma_port_from_equal_name(entries: Seq<(String, u16)>, name: Seq<char>)
    ensures
        port_in(entries, name) matches Some(p) ==> exists|i: int|
            0 <= i < entries.len() && (#[trigger] entries[i]).0@ == name && entries[i].1 == p
                && forall|j: int| i < j < entries.len() ==> (#[trigger] entries[j]).0@ != name,
        port_in(entries, name) is None ==> forall|i: int|
            0 <= i < entries.len() ==> (#[trigger] entries[i]).0@ != name,
    decreases entries.len(),
{
    if entries.len() > 0 {
        let e0 = entries.drop_last();
        lemma_port_from_equal_name(e0, name);
        let n = entries.len() - 1;
        if entries.last().0@ == name {
            assert(entries[n].0@ == name);
        } else {
            match port_in(e0, name) {
                Some(p) => {
                    let i = choose|i: int|
                        0 <= i < e0.len() && (#[trigger] e0[i]).0@ == name && e0[i].1 == p
                            && forall|j: int| i < j < e0.len() ==> (#[trigger] e0[j]).0@ != name;
                    assert(entries[i] == e0[i]);
                    assert forall|j: int| i < j < entries.len() implies (#[trigger] entries[j]).0@
                        != name by {
                        if j < n {
                            assert(entries[j] == e0[j]);
                        }
                    }
                },
                None => {
                    assert forall|i: int| 0 <= i < entries.len() implies (#[trigger] entries[i]).0@
                        != name by {
                        if i < n {
                            assert(entries[i] == e0[i]);
                        }
                    }
                },
            }
        }
    }
}

/// Adding a service with another name leaves the port of `name` as it was;
/// adding one with that name gives it that port.
pub proof fn lemma_port_after_adding(entries: Seq<(String, u16)>, n: String, p: u16, name: Seq<char>)
    ensures
        n@ != name ==> port_in(entries.push((n, p)), name) == port_in(entries, name),
        port_in(entries.push((n, p)), n@) == Some(p),
{
    assert(entries.push((n, p)).drop_last() == entries);
    assert(entries.push((n, p)).last() == (n, p));
}

impl PortTable {
    /// The port of the service `name`, if it has one.
    pub closed spec fn port(&self, name: Seq<char>) -> Option<u16> {
        port_in(self.entries@, name)
    }

    /// The table of the services in `pairs`, each with its port.
    pub fn new(pairs: Vec<(String, u16)>) -> (table: PortTable)
        ensures
            forall|name: Seq<char>| #[trigger] table.port(name) == port_in(pairs@, name),
    {
        PortTable { entries: pairs }
    }

    /// Looks up the port of a service.
    pub fn lookup(&self, name: &str) -> (port: Option<u16>)
        ensures
            port == self.port(name@),
    {
        let mut i = self.entries.len();
        proof {
            assert(self.entries@.take(i as int) == self.entries@);
        }
        while i > 0
            invariant
                i <= self.entries@.len(),
                port_in(self.entries@, name@) == port_in(self.entries@.take(i as int), name@),
            decreases i,
        {
            let entry = &self.entries[i - 1];
            proof {
                assert(self.entries@.take(i as int).drop_last() == self.entries@.take(i - 1));
            }
            if str_eq(entry.0.as_str(), name) {
                return Some(entry.1);
            }
            i = i - 1;
        }
        None
    }
}

/// The latency label of a card: the response time of the latest check, or
/// `--` where there is none.
pub open spec fn ms_label(checks: Seq<CheckRow>) -> Seq<char> {
    if checks.len() > 0 && checks[0].response_ms is Some {
        signed_decimal(checks[0].response_ms->0 as int) + "ms"@
    } else {
        "--"@
    }
}

/// The dots of a card, oldest check first; `checks` holds the newest first.
pub open spec fn sparkline(checks: Seq<CheckRow>) -> Seq<char>
    decreases checks.len(),
{
    if checks.len() == 0 {
        Seq::empty()
    } else {
        sparkline(checks.drop_first()) + dot_spec(checks[0].status@)
    }
}

/// The CI badge of a service with a repository, and nothing for one without.
pub open spec fn ci_badge(repo_url: Option<String>) -> Seq<char> {
    match repo_url {
        Some(url) => CI_OPEN@ + url@ + CI_IMG@ + url@ + CI_CLOSE@,
        None => Seq::empty(),
    }
}

/// The name of a service on its card: a link to the service where its port
/// is known, the bare name otherwise.
pub open spec fn service_link(name: Seq<char>, port: Option<u16>, host: Seq<char>) -> Seq<char> {
    match port {
        Some(p) => LINK_OPEN@ + "http://"@ + host + ":"@ + decimal(p as nat) + LINK_MID@ + name
            + LINK_CLOSE@,
        None => name,
    }
}

/// A service with its recent checks, newest first.
pub struct ServiceView {
    pub snapshot: ServiceSnapshot,
    pub recent_checks: Vec<CheckRow>,
}

/// The card of one service.
pub open spec fn card(view: ServiceView, port: Option<u16>, host: Seq<char>) -> Seq<char> {
    let snap = view.snapshot;
    let checks = view.recent_checks@;
    CARD_OPEN@ + service_link(snap.service@, port, host) + CARD_BADGE_OPEN@ + status_pip_spec(
        snap.last_status@,
    ) + snap.last_status@ + CARD_META_OPEN@ + ms_label(checks) + CARD_META_SEP@
        + snap.last_checked@ + CARD_SPARK_OPEN@ + sparkline(checks) + CARD_ACTIONS_OPEN@
        + ci_badge(snap.repo_url) + CARD_LOGS_OPEN@ + snap.service@ + CARD_CLOSE@
}

/// The dots run from the oldest check to the newest: a check older than all
/// others (at the end of the newest-first list) puts its dot first.
pub proof fn lemma_sparkline_oldest_first(checks: Seq<CheckRow>, older: CheckRow)
    ensures
        sparkline(checks.push(older)) == dot_spec(older.status@) + sparkline(checks),
    decreases checks.len(),
{
    if checks.len() > 0 {
        let rest = checks.drop_first();
        lemma_sparkline_oldest_first(rest, older);
        assert(checks.push(older).drop_first() == rest.push(older));
        assert(checks.push(older)[0] == checks[0]);
        let d0 = dot_spec(checks[0].status@);
        let d = dot_spec(older.status@);
        assert(sparkline(checks.push(older)) == sparkline(rest.push(older)) + d0);
        assert(sparkline(checks) == sparkline(rest) + d0);
        assert((d + sparkline(rest)) + d0 == d + (sparkline(rest) + d0));
    } else {
        assert(checks.push(older).drop_first() == Seq::<CheckRow>::empty());
        assert(sparkline(checks) == Seq::<char>::empty());
        assert(checks.push(older)[0] == older);
        assert(sparkline(checks.push(older)) == sparkline(Seq::<CheckRow>::empty()) + dot_spec(older.status@));
        assert(dot_spec(older.status@) + Seq::<char>::empty() == dot_spec(older.status@));
        assert(Seq::<char>::empty() + dot_spec(older.status@) == dot_spec(older.status@));
    }
}

/// The latency label is that of the newest check alone: `--` where it has
/// no response time (or there is no check), its milliseconds and `ms`
/// otherwise, whatever the older checks hold.
pub proof fn lemma_latency_of_newest_check(newest: CheckRow, older: Seq<CheckRow>, other: Seq<CheckRow>)
    ensures
        ms_label(Seq::<CheckRow>::empty()) == "--"@,
        newest.response_ms is None ==> ms_label(seq![newest] + older) == "--"@,
        newest.response_ms matches Some(ms) ==> ms_label(seq![newest] + older) == signed_decimal(
            ms as int,
        ) + "ms"@,
        ms_label(seq![newest] + older) == ms_label(seq![newest] + other),
{
    assert((seq![newest] + older)[0] == newest);
    assert((seq![newest] + other)[0] == newest);
}

fn push_ms_label(out: &mut String, checks: &Vec<CheckRow>)
    ensures
        final(out)@ == old(out)@ + ms_label(checks@),
{
    if checks.len() > 0 {
        match checks[0].response_ms {
            Some(ms) => {
                push_signed(out, ms);
                out.append("ms");
                return ;
            },
            None => {},
        }
    }
    out.append("--");
}

fn push_sparkline(out: &mut String, checks: &Vec<CheckRow>)
    ensures
        final(out)@ == old(out)@ + sparkline(checks@),
{
    let n = checks.len();
    let mut i = n;
    proof {
        assert(checks@.subrange(n as int, n as int) == Seq::<CheckRow>::empty());
    }
    while i > 0
        invariant
            n == checks@.len(),
            i <= n,
            out@ == old(out)@ + sparkline(checks@.subrange(i as int, n as int)),
        decreases i,
    {
        let d = dot(checks[i - 1].status.as_str());
        proof {
            let rest = checks@.subrange(i - 1, n as int);
            assert(rest.drop_first() == checks@.subrange(i as int, n as int));
            assert(rest[0] == checks@[i - 1]);
        }
        out.append(d);
        i = i - 1;
    }
    proof {
        assert(checks@.subrange(0, n as int) == checks@);
    }
}

fn push_service_link(out: &mut String, name: &str, port: Option<u16>, host: &str)
    ensures
        final(out)@ == old(out)@ + service_link(name@, port, host@),
{
    match port {
        Some(p) => {
            out.append(LINK_OPEN);
            out.append("http://");
            out.append(host);
            out.append(":");
            push_decimal(out, p as u64);
            out.append(LINK_MID);
            out.append(name);
            out.append(LINK_CLOSE);
        },
        None => {
            out.append(name);
        },
    }
}

fn push_ci_badge(out: &mut String, repo_url: &Option<String>)
    ensures
        final(out)@ == old(out)@ + ci_badge(*repo_url),
{
    match repo_url {
        Some(url) => {
            out.append(CI_OPEN);
            out.append(url.as_str());
            out.append(CI_IMG);
            out.append(url.as_str());
            out.append(CI_CLOSE);
        },
        None => {},
    }
}

fn push_card(out: &mut String, view: &ServiceView, port: Option<u16>, host: &str)
    ensures
        final(out)@ == old(out)@ + card(*view, port, host@),
{
    let snap = &view.snapshot;
    out.append(CARD_OPEN);
    push_service_link(out, snap.service.as_str(), port, host);
    out.append(CARD_BADGE_OPEN);
    let pip = status_pip(snap.last_status.as_str());
    out.append(pip.as_str());
    out.append(snap.last_status.as_str());
    out.append(CARD_META_OPEN);
    push_ms_label(out, &view.recent_checks);
    out.append(CARD_META_SEP);
    out.append(snap.last_checked.as_str());
    out.append(CARD_SPARK_OPEN);
    push_sparkline(out, &view.recent_checks);
    out.append(CARD_ACTIONS_OPEN);
    push_ci_badge(out, &snap.repo_url);
    out.append(CARD_LOGS_OPEN);
    out.append(snap.service.as_str());
    out.append(CARD_CLOSE);
}

/// The cards of the services, in the order given.
pub open spec fn cards(views: Seq<ServiceView>, ports: PortTable, host: Seq<char>) -> Seq<char>
    decreases views.len(),
{
    if views.len() == 0 {
        Seq::empty()
    } else {
        let last = views.last();
        cards(views.drop_last(), ports, host) + card(last, ports.port(last.snapshot.service@), host)
    }
}

/// The dashboard page: one card per service, or a notice where there is no
/// service yet.
pub open spec fn dashboard_page(views: Seq<ServiceView>, ports: PortTable, host: Seq<char>) -> Seq<
    char,
> {
    PAGE_HEAD@ + (if views.len() == 0 {
        EMPTY_CARD@
    } else {
        cards(views, ports, host)
    }) + PAGE_TAIL@
}

/// Renders the dashboard page from the services, their ports and the host
/// that their links point at.
pub fn render_dashboard(views: &Vec<ServiceView>, ports: &PortTable, host: &str) -> (page: String)
    ensures
        page@ == dashboard_page(views@, *ports, host@),
{
    let mut page = String::from_str(PAGE_HEAD);
    if views.len() == 0 {
        page.append(EMPTY_CARD);
    } else {
        let ghost head = page@;
        let mut i: usize = 0;
        while i < views.len()
            invariant
                i <= views@.len(),
                page@ == head + cards(views@.take(i as int), *ports, host@),
            decreases views@.len() - i,
        {
            let view = &views[i];
            let port = ports.lookup(view.snapshot.service.as_str());
            push_card(&mut page, view, port, host);
            proof {
                assert(views@.take(i + 1).drop_last() == views@.take(i as int));
            }
            i = i + 1;
        }
        proof {
            assert(views@.take(views@.len() as int) == views@);
        }
    }
    page.append(PAGE_TAIL);
    page
}

} // verus!
