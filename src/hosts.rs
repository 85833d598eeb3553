//! Text transformations of a hosts file: the managed section between two
//! marker lines, toggling (commenting out) and removing entries, and
//! listing them. Reading and writing the file is left to the caller.

use vstd::prelude::*;
use crate::text::{
    chars_of, contains, occurs_at, join_lines, lines, push_all, seq_contains, split_lines, split_words,
    string_from_chars, strip_hashes, strip_hashes_chars, trim, trim_chars, trim_start,
    trim_start_chars, views, words, chars_equal,
};

verus! {

broadcast use vstd::string::group_string_axioms;

/// The line that opens the managed section.
pub const MARKER_START: &'static str = "# === Domain Router START ===";

/// The line that closes the managed section.
pub const MARKER_END: &'static str = "# === Domain Router END ===";

/// The line that opens the managed section.
pub open spec fn marker_start() -> Seq<char> {
    MARKER_START@
}

/// The line that closes the managed section.
pub open spec fn marker_end() -> Seq<char> {
    MARKER_END@
}

/// The hosts entry that points `domain` at the loopback address.
pub open spec fn host_entry(domain: Seq<char>) -> Seq<char> {
    "127.0.0.1 "@ + domain
}

/// A line toggled for `domain`: a line that does not mention the domain is
/// kept; enabling drops leading `#` and then leading white space; disabling
/// comments the line out as `# ` and the line without leading white space,
/// unless that already starts with `#`.
pub open spec fn toggled_line(l: Seq<char>, domain: Seq<char>, enabled: bool) -> Seq<char> {
    if !contains(l, domain) {
        l
    } else if enabled {
        trim_start(strip_hashes(l))
    } else if trim_start(l).len() > 0 && trim_start(l)[0] == '#' {
        l
    } else {
        "# "@ + trim_start(l)
    }
}

/// Whether the managed section is open after the lines `ls`: a start
/// marker opens it, an end marker closes it (lines compared without
/// surrounding white space).
pub open spec fn in_section_after(ls: Seq<Seq<char>>) -> bool
    decreases ls.len(),
{
    if ls.len() == 0 {
        false
    } else if trim(ls.last()) == marker_start() {
        true
    } else if trim(ls.last()) == marker_end() {
        false
    } else {
        in_section_after(ls.drop_last())
    }
}

/// Whether a line is a marker line.
pub open spec fn is_marker(l: Seq<char>) -> bool {
    trim(l) == marker_start() || trim(l) == marker_end()
}

/// The lines with every line that mentions `domain` dropped.
pub open spec fn without_any(ls: Seq<Seq<char>>, domain: Seq<char>) -> Seq<char>
    decreases ls.len(),
{
    if ls.len() == 0 {
        seq![]
    } else if contains(ls.last(), domain) {
        without_any(ls.drop_last(), domain)
    } else {
        without_any(ls.drop_last(), domain) + ls.last() + seq!['\n']
    }
}

/// The lines with every line toggled for `domain`.
pub open spec fn toggled_any(ls: Seq<Seq<char>>, domain: Seq<char>, enabled: bool) -> Seq<char>
    decreases ls.len(),
{
    if ls.len() == 0 {
        seq![]
    } else {
        toggled_any(ls.drop_last(), domain, enabled) + toggled_line(ls.last(), domain, enabled)
            + seq!['\n']
    }
}

/// The lines with each line inside the managed section that mentions
/// `domain` dropped.
pub open spec fn without_in_section(ls: Seq<Seq<char>>, domain: Seq<char>) -> Seq<char>
    decreases ls.len(),
{
    if ls.len() == 0 {
        seq![]
    } else if !is_marker(ls.last()) && in_section_after(ls.drop_last()) && contains(
        ls.last(),
        domain,
    ) {
        without_in_section(ls.drop_last(), domain)
    } else {
        without_in_section(ls.drop_last(), domain) + ls.last() + seq!['\n']
    }
}

/// The lines with each line inside the managed section toggled for `domain`.
pub open spec fn toggled_in_section(ls: Seq<Seq<char>>, domain: Seq<char>, enabled: bool) -> Seq<
    char,
>
    decreases ls.len(),
{
    if ls.len() == 0 {
        seq![]
    } else if !is_marker(ls.last()) && in_section_after(ls.drop_last()) {
        toggled_in_section(ls.drop_last(), domain, enabled) + toggled_line(
            ls.last(),
            domain,
            enabled,
        ) + seq!['\n']
    } else {
        toggled_in_section(ls.drop_last(), domain, enabled) + ls.last() + seq!['\n']
    }
}

/// Disabling a line that mentions `domain` and then enabling it gives the
/// line back, for a line that is neither indented nor commented out.
pub proof fn lemma_toggle_line_round_trip(l: Seq<char>, domain: Seq<char>)
    requires
        contains(l, domain),
        trim_start(l) == l,
        l.len() > 0 && l[0] != '#',
    ensures
        toggled_line(toggled_line(l, domain, false), domain, true) == l,
{
    reveal_strlit("# ");
    let off = "# "@ + l;
    assert(toggled_line(l, domain, false) == off);
    let k = choose|k: int| occurs_at(l, domain, k);
    assert(off.subrange(k + 2, k + 2 + domain.len()) =~= l.subrange(k, k + domain.len()));
    assert(occurs_at(off, domain, k + 2));
    assert(off.drop_first() =~= " "@ + l) by {
        reveal_strlit(" ");
    }
    reveal_strlit(" ");
    assert(strip_hashes(off) == strip_hashes(off.drop_first()));
    assert(strip_hashes(" "@ + l) == " "@ + l);
    assert((" "@ + l).drop_first() =~= l);
    assert(trim_start(" "@ + l) == trim_start(l));
}

fn toggle_line(l: &Vec<char>, domain: &Vec<char>, enabled: bool) -> (r: Vec<char>)
    ensures
        r@ == toggled_line(l@, domain@, enabled),
{
    if !seq_contains(l.as_slice(), domain.as_slice()) {
        return slice_all(l);
    }
    if enabled {
        let stripped = strip_hashes_chars(l);
        trim_start_chars(&stripped)
    } else {
        let t = trim_start_chars(l);
        if t.len() > 0 && t[0] == '#' {
            slice_all(l)
        } else {
            let mut out = chars_of("# ");
            push_all(&mut out, &t);
            out
        }
    }
}

fn slice_all(l: &Vec<char>) -> (r: Vec<char>)
    ensures
        r@ == l@,
{
    let mut out: Vec<char> = Vec::new();
    push_all(&mut out, l);
    out
}

/// `content` with every line that mentions `domain` removed; each kept line
/// ends with a newline.
pub fn remove_any_domain_from_content(content: &str, domain: &str) -> (r: String)
    ensures
        r@ == without_any(lines(content@), domain@),
{
    let lns = split_lines(content);
    let d = chars_of(domain);
    let ghost ls = views(lns@);
    let mut out: Vec<char> = Vec::new();
    let mut i: usize = 0;
    while i < lns.len()
        invariant
            ls == views(lns@),
            d@ == domain@,
            i <= lns@.len(),
            out@ == without_any(ls.take(i as int), domain@),
        decreases lns@.len() - i,
    {
        let line = &lns[i];
        proof {
            assert(ls.take(i + 1).drop_last() =~= ls.take(i as int));
            assert(ls.take(i + 1).last() == line@);
        }
        if !seq_contains(line.as_slice(), d.as_slice()) {
            push_all(&mut out, line);
            out.push('\n');
        }
        i += 1;
    }
    assert(ls.take(lns@.len() as int) =~= ls);
    string_from_chars(&out)
}

/// `content` with every line that mentions `domain` toggled; each line ends
/// with a newline.
pub fn toggle_any_domain_in_content(content: &str, domain: &str, enabled: bool) -> (r: String)
    ensures
        r@ == toggled_any(lines(content@), domain@, enabled),
{
    let lns = split_lines(content);
    let d = chars_of(domain);
    let ghost ls = views(lns@);
    let mut out: Vec<char> = Vec::new();
    let mut i: usize = 0;
    while i < lns.len()
        invariant
            ls == views(lns@),
            d@ == domain@,
            i <= lns@.len(),
            out@ == toggled_any(ls.take(i as int), domain@, enabled),
        decreases lns@.len() - i,
    {
        let line = &lns[i];
        proof {
            assert(ls.take(i + 1).drop_last() =~= ls.take(i as int));
            assert(ls.take(i + 1).last() == line@);
        }
        let t = toggle_line(line, &d, enabled);
        push_all(&mut out, &t);
        out.push('\n');
        i += 1;
    }
    assert(ls.take(lns@.len() as int) =~= ls);
    string_from_chars(&out)
}

/// Whether a line is a marker line, and which.
fn marker_kind(line: &Vec<char>, start: &Vec<char>, end: &Vec<char>) -> (r: (bool, bool))
    requires
        start@ == marker_start(),
        end@ == marker_end(),
    ensures
        r.0 == (trim(line@) == marker_start()),
        r.1 == (trim(line@) == marker_end()),
{
    let t = trim_chars(line);
    (chars_equal(&t, start), chars_equal(&t, end))
}

/// `content` with each line inside the managed section that mentions
/// `domain` removed; each kept line ends with a newline.
pub fn remove_domain_from_content(content: &str, domain: &str) -> (r: String)
    ensures
        r@ == without_in_section(lines(content@), domain@),
{
    let lns = split_lines(content);
    let d = chars_of(domain);
    let start = chars_of(MARKER_START);
    let end = chars_of(MARKER_END);
    let ghost ls = views(lns@);
    let mut out: Vec<char> = Vec::new();
    let mut in_section = false;
    let mut i: usize = 0;
    while i < lns.len()
        invariant
            ls == views(lns@),
            d@ == domain@,
            start@ == marker_start(),
            end@ == marker_end(),
            i <= lns@.len(),
            in_section == in_section_after(ls.take(i as int)),
            out@ == without_in_section(ls.take(i as int), domain@),
        decreases lns@.len() - i,
    {
        let line = &lns[i];
        proof {
            assert(ls.take(i + 1).drop_last() =~= ls.take(i as int));
            assert(ls.take(i + 1).last() == line@);
        }
        let (is_start, is_end) = marker_kind(line, &start, &end);
        if is_start {
            in_section = true;
            push_all(&mut out, line);
            out.push('\n');
        } else if is_end {
            in_section = false;
            push_all(&mut out, line);
            out.push('\n');
        } else if in_section && seq_contains(line.as_slice(), d.as_slice()) {
        } else {
            push_all(&mut out, line);
            out.push('\n');
        }
        i += 1;
    }
    assert(ls.take(lns@.len() as int) =~= ls);
    string_from_chars(&out)
}

/// `content` with each line inside the managed section toggled for
/// `domain`; each line ends with a newline.
pub fn toggle_domain_in_content(content: &str, domain: &str, enabled: bool) -> (r: String)
    ensures
        r@ == toggled_in_section(lines(content@), domain@, enabled),
{
    let lns = split_lines(content);
    let d = chars_of(domain);
    let start = chars_of(MARKER_START);
    let end = chars_of(MARKER_END);
    let ghost ls = views(lns@);
    let mut out: Vec<char> = Vec::new();
    let mut in_section = false;
    let mut i: usize = 0;
    while i < lns.len()
        invariant
            ls == views(lns@),
            d@ == domain@,
            start@ == marker_start(),
            end@ == marker_end(),
            i <= lns@.len(),
            in_section == in_section_after(ls.take(i as int)),
            out@ == toggled_in_section(ls.take(i as int), domain@, enabled),
        decreases lns@.len() - i,
    {
        let line = &lns[i];
        proof {
            assert(ls.take(i + 1).drop_last() =~= ls.take(i as int));
            assert(ls.take(i + 1).last() == line@);
        }
        let (is_start, is_end) = marker_kind(line, &start, &end);
        if is_start {
            in_section = true;
            push_all(&mut out, line);
        } else if is_end {
            in_section = false;
            push_all(&mut out, line);
        } else if in_section {
            let t = toggle_line(line, &d, enabled);
            push_all(&mut out, &t);
        } else {
            push_all(&mut out, line);
        }
        out.push('\n');
        i += 1;
    }
    assert(ls.take(lns@.len() as int) =~= ls);
    string_from_chars(&out)
}

/// What rewriting an existing managed section produces after the lines
/// `ls`: the text so far, whether the section is open, and the section's
/// lines held back until its end marker. At an end marker the held lines
/// are written, followed by `entry` unless one of them equals it, and then
/// the marker; lines of a section that is never closed are dropped.
pub open spec fn section_rewrite(ls: Seq<Seq<char>>, entry: Seq<char>) -> (Seq<char>, bool, Seq<
    Seq<char>,
>)
    decreases ls.len(),
{
    if ls.len() == 0 {
        (seq![], false, seq![])
    } else {
        let prev = section_rewrite(ls.drop_last(), entry);
        let l = ls.last();
        if trim(l) == marker_start() {
            (prev.0 + l + seq!['\n'], true, prev.2)
        } else if trim(l) == marker_end() {
            let held = if prev.2.contains(entry) {
                prev.2
            } else {
                prev.2.push(entry)
            };
            (prev.0 + join_lines(held) + l + seq!['\n'], false, seq![])
        } else if prev.1 {
            (prev.0, true, prev.2.push(l))
        } else {
            (prev.0 + l + seq!['\n'], false, prev.2)
        }
    }
}

/// The hosts text with `domain` added to the managed section: an existing
/// section is rewritten, or else a new section holding only the entry is
/// appended after a blank line.
pub open spec fn with_domain_added(content: Seq<char>, domain: Seq<char>) -> Seq<char> {
    if contains(content, marker_start()) {
        section_rewrite(lines(content), host_entry(domain)).0
    } else {
        let base = if content.len() > 0 && content.last() == '\n' {
            content
        } else {
            content + seq!['\n']
        };
        base + seq!['\n'] + marker_start() + seq!['\n'] + host_entry(domain) + seq!['\n']
            + marker_end() + seq!['\n']
    }
}

/// Whether one of the held lines equals `entry`.
fn holds_line(held: &Vec<Vec<char>>, entry: &Vec<char>) -> (r: bool)
    ensures
        r == views(held@).contains(entry@),
{
    let mut i: usize = 0;
    while i < held.len()
        invariant
            i <= held@.len(),
            forall|t: int| 0 <= t < i ==> #[trigger] held@[t]@ != entry@,
        decreases held@.len() - i,
    {
        if chars_equal(&held[i], entry) {
            assert(views(held@)[i as int] == entry@);
            return true;
        }
        i += 1;
    }
    proof {
        if views(held@).contains(entry@) {
            let t = choose|t: int| 0 <= t < views(held@).len() && views(held@)[t] == entry@;
            assert(held@[t]@ == entry@);
        }
    }
    false
}

/// Appends each held line and a newline to `out`.
fn push_lines(out: &mut Vec<char>, held: &Vec<Vec<char>>)
    ensures
        final(out)@ == old(out)@ + join_lines(views(held@)),
{
    let ghost start = out@;
    let ghost hs = views(held@);
    let mut i: usize = 0;
    while i < held.len()
        invariant
            hs == views(held@),
            i <= held@.len(),
            out@ == start + join_lines(hs.take(i as int)),
        decreases held@.len() - i,
    {
        proof {
            assert(hs.take(i + 1).drop_last() =~= hs.take(i as int));
            assert(hs.take(i + 1).last() == held@[i as int]@);
        }
        push_all(out, &held[i]);
        out.push('\n');
        i += 1;
        assert(out@ =~= start + join_lines(hs.take(i as int)));
    }
    assert(hs.take(held@.len() as int) =~= hs);
}

/// `content` with the entry `127.0.0.1 <domain>` in the managed section.
pub fn add_domain_to_content(content: &str, domain: &str) -> (r: String)
    ensures
        r@ == with_domain_added(content@, domain@),
{
    let c = chars_of(content);
    let d = chars_of(domain);
    let start = chars_of(MARKER_START);
    let end = chars_of(MARKER_END);
    let mut entry = chars_of("127.0.0.1 ");
    push_all(&mut entry, &d);
    if seq_contains(c.as_slice(), start.as_slice()) {
        let lns = split_lines(content);
        let ghost ls = views(lns@);
        let mut out: Vec<char> = Vec::new();
        let mut in_section = false;
        let mut held: Vec<Vec<char>> = Vec::new();
        let mut i: usize = 0;
        while i < lns.len()
            invariant
                ls == views(lns@),
                entry@ == host_entry(domain@),
                start@ == marker_start(),
                end@ == marker_end(),
                i <= lns@.len(),
                section_rewrite(ls.take(i as int), entry@) == (out@, in_section, views(held@)),
            decreases lns@.len() - i,
        {
            let line = &lns[i];
            proof {
                assert(ls.take(i + 1).drop_last() =~= ls.take(i as int));
                assert(ls.take(i + 1).last() == line@);
            }
            let (is_start, is_end) = marker_kind(line, &start, &end);
            if is_start {
                in_section = true;
                push_all(&mut out, line);
                out.push('\n');
            } else if is_end {
                in_section = false;
                if !holds_line(&held, &entry) {
                    let ghost before = held@;
                    held.push(slice_all(&entry));
                    assert(views(held@) =~= views(before).push(entry@));
                }
                push_lines(&mut out, &held);
                held = Vec::new();
                assert(views(held@) =~= Seq::<Seq<char>>::empty());
                push_all(&mut out, line);
                out.push('\n');
            } else if in_section {
                let ghost before = held@;
                held.push(slice_all(line));
                assert(views(held@) =~= views(before).push(line@));
            } else {
                push_all(&mut out, line);
                out.push('\n');
            }
            i += 1;
        }
        assert(ls.take(lns@.len() as int) =~= ls);
        string_from_chars(&out)
    } else {
        let mut out = c;
        if !(out.len() > 0 && out[out.len() - 1] == '\n') {
            out.push('\n');
        }
        out.push('\n');
        push_all(&mut out, &start);
        out.push('\n');
        push_all(&mut out, &entry);
        out.push('\n');
        push_all(&mut out, &end);
        out.push('\n');
        string_from_chars(&out)
    }
}

/// The entry that a hosts line lists, if any: blank and marker lines list
/// none; a line starting with `#` is a disabled entry, read after its
/// leading `#` and white space; the entry is the first two words, joined by
/// one space, and a line with fewer words lists none.
pub open spec fn listed_entry(l: Seq<char>) -> Option<(Seq<char>, bool)> {
    let t = trim(l);
    if t.len() == 0 || t == marker_start() || t == marker_end() {
        None
    } else {
        let enabled = t[0] != '#';
        let body = if enabled {
            t
        } else {
            trim(strip_hashes(t))
        };
        let w = words(body);
        if w.len() >= 2 {
            Some((w[0] + " "@ + w[1], enabled))
        } else {
            None
        }
    }
}

/// The entries that the lines `ls` list, in order.
pub open spec fn listed_entries(ls: Seq<Seq<char>>) -> Seq<(Seq<char>, bool)>
    decreases ls.len(),
{
    if ls.len() == 0 {
        seq![]
    } else {
        match listed_entry(ls.last()) {
            Some(e) => listed_entries(ls.drop_last()).push(e),
            None => listed_entries(ls.drop_last()),
        }
    }
}

/// The views of listed entries.
pub open spec fn entry_views(v: Seq<(String, bool)>) -> Seq<(Seq<char>, bool)> {
    v.map_values(|e: (String, bool)| (e.0@, e.1))
}

/// The entries of a hosts text, active and commented out: each as
/// `<address> <name>` with whether it is active.
pub fn parse_domain_entries(content: &str) -> (r: Vec<(String, bool)>)
    ensures
        entry_views(r@) == listed_entries(lines(content@)),
{
    let lns = split_lines(content);
    let start = chars_of(MARKER_START);
    let end = chars_of(MARKER_END);
    let ghost ls = views(lns@);
    let mut out: Vec<(String, bool)> = Vec::new();
    let mut i: usize = 0;
    while i < lns.len()
        invariant
            ls == views(lns@),
            start@ == marker_start(),
            end@ == marker_end(),
            i <= lns@.len(),
            entry_views(out@) == listed_entries(ls.take(i as int)),
        decreases lns@.len() - i,
    {
        let line = &lns[i];
        proof {
            assert(ls.take(i + 1).drop_last() =~= ls.take(i as int));
            assert(ls.take(i + 1).last() == line@);
        }
        let t = trim_chars(line);
        if !(t.len() == 0 || chars_equal(&t, &start) || chars_equal(&t, &end)) {
            let enabled = t[0] != '#';
            let body = if enabled {
                t
            } else {
                let stripped = strip_hashes_chars(&t);
                trim_chars(&stripped)
            };
            let w = split_words(&body);
            if w.len() >= 2 {
                let mut text = slice_all(&w[0]);
                text.push(' ');
                push_all(&mut text, &w[1]);
                assert(text@ =~= views(w@)[0] + " "@ + views(w@)[1]) by {
                    reveal_strlit(" ");
                }
                let ghost before = out@;
                out.push((string_from_chars(&text), enabled));
                assert(entry_views(out@) =~= entry_views(before).push((text@, enabled)));
            }
        }
        i += 1;
    }
    assert(ls.take(lns@.len() as int) =~= ls);
    out
}

} // verus!
