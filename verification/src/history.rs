//! The update history log: one JSON record per line, newest last.
//!
//! Appending a record keeps only the records of the last 180 days, then drops
//! the oldest while the file would exceed 50 MB, never dropping the record
//! just written. Reading returns the records newest first.

use vstd::prelude::*;
use vstd::string::*;
use vstd::utf8::encode_utf8;
use crate::json::{json_u64_at, json_u64_field};
use crate::text::{join, joined, lines_from, split_lines, strings_view, strip_cr, text_lines};

verus! {

/// How long a record stays in the log: 180 days.
pub const LOG_RETENTION_SECS: u64 = 180 * 24 * 3600;

/// The most the log may hold, in bytes, unless its newest record alone is
/// larger: 50 MiB.
pub const MAX_LOG_BYTES: u64 = 50 * 1024 * 1024;

/// The time stamp of a log line: its JSON field `ts`.
pub open spec fn line_ts(l: Seq<char>) -> Option<u64> {
    json_u64_at(l, "ts"@)
}

/// The oldest time stamp that a record written at `ts` keeps beside it.
pub open spec fn cutoff_for(ts: u64) -> u64 {
    if ts >= LOG_RETENTION_SECS {
        (ts - LOG_RETENTION_SECS) as u64
    } else {
        0
    }
}

/// Whether an existing line survives a write: it is not empty and holds a
/// time stamp no older than `cutoff`. A line without a readable time stamp
/// is dropped.
pub open spec fn is_recent(l: Seq<char>, cutoff: u64) -> bool {
    &&& l.len() > 0
    &&& match line_ts(l) {
        Some(t) => t >= cutoff,
        None => false,
    }
}

/// The lines that survive, in their order.
pub open spec fn recent_lines(lines: Seq<Seq<char>>, cutoff: u64) -> Seq<Seq<char>>
    decreases lines.len(),
{
    if lines.len() == 0 {
        Seq::empty()
    } else if is_recent(lines.last(), cutoff) {
        recent_lines(lines.drop_last(), cutoff).push(lines.last())
    } else {
        recent_lines(lines.drop_last(), cutoff)
    }
}

/// The bytes a line takes in the file: its UTF-8 encoding and a line feed.
pub open spec fn line_cost(l: Seq<char>) -> nat {
    encode_utf8(l).len() + 1
}

/// The bytes the lines take in the file.
pub open spec fn lines_cost(lines: Seq<Seq<char>>) -> nat
    decreases lines.len(),
{
    if lines.len() == 0 {
        0
    } else {
        line_cost(lines[0]) + lines_cost(lines.drop_first())
    }
}

/// The lines with the oldest dropped, one at a time, while they take more
/// than `MAX_LOG_BYTES` and more than one is left.
pub open spec fn capped(lines: Seq<Seq<char>>) -> Seq<Seq<char>>
    decreases lines.len(),
{
    if lines.len() > 1 && lines_cost(lines) > MAX_LOG_BYTES {
        capped(lines.drop_first())
    } else {
        lines
    }
}

/// The lines of the log after the record `entry`, written at `ts`, is
/// appended to the log `existing`.
pub open spec fn retained_lines(existing: Seq<char>, entry: Seq<char>, ts: u64) -> Seq<Seq<char>> {
    capped(recent_lines(text_lines(existing), cutoff_for(ts)).push(entry))
}

/// The text of the log after the append: the retained lines, each ended by a
/// line feed.
pub open spec fn log_text(existing: Seq<char>, entry: Seq<char>, ts: u64) -> Seq<char> {
    joined(retained_lines(existing, entry, ts), "\n"@) + "\n"@
}

proof fn lemma_cost_step(s: Seq<Seq<char>>, i: int)
    requires
        0 <= i < s.len(),
    ensures
        lines_cost(s.skip(i)) == line_cost(s[i]) + lines_cost(s.skip(i + 1)),
{
    assert(s.skip(i).drop_first() =~= s.skip(i + 1));
    assert(s.skip(i)[0] == s[i]);
}

proof fn lemma_cost_shrinks(s: Seq<Seq<char>>, i: int, j: int)
    requires
        0 <= i <= j <= s.len(),
    ensures
        lines_cost(s.skip(i)) >= lines_cost(s.skip(j)),
    decreases j - i,
{
    if i < j {
        lemma_cost_step(s, i);
        lemma_cost_shrinks(s, i + 1, j);
    }
}

proof fn lemma_capped_skip(s: Seq<Seq<char>>, j: int)
    requires
        0 <= j < s.len(),
        forall|i: int| 0 <= i < j ==> lines_cost(#[trigger] s.skip(i)) > MAX_LOG_BYTES,
    ensures
        capped(s) == capped(s.skip(j)),
    decreases j,
{
    if j == 0 {
        assert(s.skip(0) =~= s);
    } else {
        lemma_capped_skip(s, j - 1);
        let t = s.skip(j - 1);
        assert(lines_cost(t) > MAX_LOG_BYTES);
        assert(t.drop_first() =~= s.skip(j));
    }
}

/// Where the capped log starts: the first line kept of `lines`.
fn cap_start(lines: &Vec<String>) -> (start: usize)
    requires
        lines@.len() >= 1,
    ensures
        start < lines@.len(),
        capped(strings_view(lines@)) == strings_view(lines@).skip(start as int),
{
    let ghost s = strings_view(lines@);
    let n = lines.len();
    let mut k: usize = n;
    let mut acc: u64 = 0;
    assert(s.skip(n as int) =~= Seq::<Seq<char>>::empty());
    while k > 0
        invariant_except_break
            n == lines@.len(),
            s == strings_view(lines@),
            k <= n,
            acc == lines_cost(s.skip(k as int)),
            acc <= MAX_LOG_BYTES,
        ensures
            k <= n,
            acc == lines_cost(s.skip(k as int)),
            acc <= MAX_LOG_BYTES,
            k == 0 || lines_cost(s.skip(k - 1)) > MAX_LOG_BYTES,
        decreases k,
    {
        let b = lines[k - 1].as_str().as_bytes().len();
        proof {
            lemma_cost_step(s, k - 1);
        }
        if b as u64 >= MAX_LOG_BYTES - acc {
            break;
        }
        acc = acc + b as u64 + 1;
        k = k - 1;
    }
    let start = if k == n { n - 1 } else { k };
    proof {
        if k == n {
            lemma_cost_step(s, n - 1);
        }
        assert forall|i: int| 0 <= i < start implies lines_cost(#[trigger] s.skip(i)) > MAX_LOG_BYTES by {
            lemma_cost_shrinks(s, i, start as int);
            if k < n {
                lemma_cost_shrinks(s, i, k - 1);
            } else {
                lemma_cost_shrinks(s, i, n - 1);
            }
        }
        lemma_capped_skip(s, start as int);
        let t = s.skip(start as int);
        if k < n {
            assert(lines_cost(t) <= MAX_LOG_BYTES);
        } else {
            assert(t.len() == 1);
        }
    }
    start
}

/// The log text after appending the record `entry_line`, written at `ts`, to
/// the log `existing`: existing lines that are empty, unreadable or older
/// than 180 days before `ts` are dropped, the record is added last, and the
/// oldest lines are dropped while the log would exceed `MAX_LOG_BYTES` and
/// more than one line is left.
pub fn retained_log(existing: &str, entry_line: String, ts: u64) -> (r: String)
    ensures
        r@ == log_text(existing@, entry_line@, ts),
{
    let cutoff: u64 = if ts >= LOG_RETENTION_SECS { ts - LOG_RETENTION_SECS } else { 0 };
    let lines = split_lines(existing);
    let ghost all = strings_view(lines@);
    let mut kept: Vec<String> = Vec::new();
    let n = lines.len();
    let mut i: usize = 0;
    assert(all.take(0) =~= Seq::<Seq<char>>::empty());
    while i < n
        invariant
            n == lines@.len(),
            all == strings_view(lines@),
            all == text_lines(existing@),
            i <= n,
            strings_view(kept@) == recent_lines(all.take(i as int), cutoff),
        decreases n - i,
    {
        let ghost t = all.take(i + 1);
        assert(t.drop_last() =~= all.take(i as int));
        assert(t.last() == lines@[i as int]@);
        let line = &lines[i];
        let keep = if line.as_str().unicode_len() == 0 {
            false
        } else {
            match json_u64_field(line.as_str(), "ts") {
                Some(t) => t >= cutoff,
                None => false,
            }
        };
        if keep {
            kept.push(line.clone());
            assert(strings_view(kept@) =~= recent_lines(all.take(i as int), cutoff).push(lines@[i as int]@));
        }
        i = i + 1;
    }
    assert(all.take(n as int) =~= all);
    let ghost recent = strings_view(kept@);
    kept.push(entry_line);
    assert(strings_view(kept@) =~= recent.push(entry_line@));
    let start = cap_start(&kept);
    let ghost whole = strings_view(kept@);
    let tail = kept.split_off(start);
    assert(strings_view(tail@) =~= whole.skip(start as int));
    let mut out = join(tail.as_slice(), "\n");
    out.append("\n");
    out
}

proof fn lemma_recent_lines_are_recent(lines: Seq<Seq<char>>, cutoff: u64)
    ensures
        forall|i: int| 0 <= i < recent_lines(lines, cutoff).len()
            ==> is_recent(#[trigger] recent_lines(lines, cutoff)[i], cutoff),
    decreases lines.len(),
{
    if lines.len() > 0 {
        lemma_recent_lines_are_recent(lines.drop_last(), cutoff);
        let rest = recent_lines(lines.drop_last(), cutoff);
        assert forall|i: int| 0 <= i < recent_lines(lines, cutoff).len()
            implies is_recent(#[trigger] recent_lines(lines, cutoff)[i], cutoff) by {
            if i < rest.len() {
                assert(recent_lines(lines, cutoff)[i] == rest[i]);
            }
        }
    }
}

/// Where `capped` starts in `s`, with what it guarantees.
proof fn capped_start(s: Seq<Seq<char>>) -> (j: int)
    requires
        s.len() >= 1,
    ensures
        0 <= j < s.len(),
        capped(s) == s.skip(j),
        lines_cost(capped(s)) <= MAX_LOG_BYTES || capped(s).len() == 1,
    decreases s.len(),
{
    if s.len() > 1 && lines_cost(s) > MAX_LOG_BYTES {
        let k = capped_start(s.drop_first());
        assert(s.drop_first().skip(k) =~= s.skip(k + 1));
        k + 1
    } else {
        assert(s.skip(0) =~= s);
        0
    }
}

/// Appending a record never loses it: the log afterwards ends with the
/// record just written.
pub proof fn law_log_keeps_the_new_record(existing: Seq<char>, entry: Seq<char>, ts: u64)
    ensures
        retained_lines(existing, entry, ts).len() >= 1,
        retained_lines(existing, entry, ts).last() == entry,
{
    let s = recent_lines(text_lines(existing), cutoff_for(ts)).push(entry);
    let j = capped_start(s);
}

/// Records leave the log oldest first: what is kept is the surviving old
/// records and the new one, with some number of the oldest removed from the
/// front.
pub proof fn law_log_drops_oldest_first(existing: Seq<char>, entry: Seq<char>, ts: u64)
    ensures
        exists|j: int| 0 <= j && retained_lines(existing, entry, ts)
            == #[trigger] recent_lines(text_lines(existing), cutoff_for(ts)).push(entry).skip(j),
{
    let s = recent_lines(text_lines(existing), cutoff_for(ts)).push(entry);
    let j = capped_start(s);
}

/// The log stays within its size cap, unless the new record alone exceeds
/// it, in which case that record is all that is left.
pub proof fn law_log_fits_the_cap(existing: Seq<char>, entry: Seq<char>, ts: u64)
    ensures
        lines_cost(retained_lines(existing, entry, ts)) <= MAX_LOG_BYTES
            || retained_lines(existing, entry, ts) == seq![entry],
{
    let s = recent_lines(text_lines(existing), cutoff_for(ts)).push(entry);
    let j = capped_start(s);
    if capped(s).len() == 1 {
        assert(capped(s) =~= seq![entry]);
    }
}

/// Every record kept beside the new one carries a time stamp no more than
/// 180 days older than the new record's.
pub proof fn law_log_keeps_only_recent_records(existing: Seq<char>, entry: Seq<char>, ts: u64)
    ensures
        forall|i: int| 0 <= i < retained_lines(existing, entry, ts).len() - 1
            ==> is_recent(#[trigger] retained_lines(existing, entry, ts)[i], cutoff_for(ts)),
{
    let r = recent_lines(text_lines(existing), cutoff_for(ts));
    let s = r.push(entry);
    let j = capped_start(s);
    lemma_recent_lines_are_recent(text_lines(existing), cutoff_for(ts));
    assert forall|i: int| 0 <= i < capped(s).len() - 1 implies is_recent(#[trigger] capped(s)[i], cutoff_for(ts)) by {
        assert(capped(s)[i] == r[i + j]);
    }
}

/// The lines of a log that are not empty, newest first: the order in which
/// the history is shown.
pub open spec fn newest_first(lines: Seq<Seq<char>>) -> Seq<Seq<char>>
    decreases lines.len(),
{
    if lines.len() == 0 {
        Seq::empty()
    } else if lines.last().len() > 0 {
        seq![lines.last()] + newest_first(lines.drop_last())
    } else {
        newest_first(lines.drop_last())
    }
}

proof fn lemma_lines_split(p: Seq<char>, w: Seq<char>, cur: Seq<char>)
    requires
        p.len() > 0,
        p.last() == '\n',
    ensures
        lines_from(p + w, cur) == lines_from(p, cur) + lines_from(w, Seq::empty()),
    decreases p.len(),
{
    assert((p + w).drop_first() =~= p.drop_first() + w);
    assert((p + w)[0] == p[0]);
    if p[0] == '\n' {
        if p.len() == 1 {
            assert(p.drop_first() + w =~= w);
            assert(p.drop_first() =~= Seq::<char>::empty());
            assert(lines_from(p, cur) =~= seq![strip_cr(cur)]);
        } else {
            lemma_lines_split(p.drop_first(), w, Seq::empty());
            assert(lines_from(p, cur) =~= seq![strip_cr(cur)] + lines_from(p.drop_first(), Seq::empty()));
            assert(seq![strip_cr(cur)] + (lines_from(p.drop_first(), Seq::empty()) + lines_from(w, Seq::empty()))
                =~= (seq![strip_cr(cur)] + lines_from(p.drop_first(), Seq::empty())) + lines_from(w, Seq::empty()));
        }
    } else {
        lemma_lines_split(p.drop_first(), w, cur.push(p[0]));
    }
}

proof fn lemma_one_line(v: Seq<char>, cur: Seq<char>)
    requires
        forall|i: int| 0 <= i < v.len() ==> v[i] != '\n',
    ensures
        lines_from(v + seq!['\n'], cur) == seq![strip_cr(cur + v)],
    decreases v.len(),
{
    let t = v + seq!['\n'];
    if v.len() == 0 {
        assert(t =~= seq!['\n']);
        assert(t.drop_first() =~= Seq::<char>::empty());
        assert(cur + v =~= cur);
        assert(lines_from(t, cur) == seq![strip_cr(cur)] + lines_from(t.drop_first(), Seq::empty()));
        assert(seq![strip_cr(cur)] + Seq::<Seq<char>>::empty() =~= seq![strip_cr(cur)]);
    } else {
        assert(t[0] == v[0]);
        assert(v[0] != '\n');
        assert(t.drop_first() =~= v.drop_first() + seq!['\n']);
        lemma_one_line(v.drop_first(), cur.push(v[0]));
        assert(cur.push(v[0]) + v.drop_first() =~= cur + v);
    }
}

/// Reading the log back shows the record just written first, provided the
/// record is one line as JSON writes it: not empty, without a line feed and
/// not ending in a carriage return.
pub proof fn law_history_shows_the_new_record_first(existing: Seq<char>, entry: Seq<char>, ts: u64)
    requires
        entry.len() > 0,
        forall|i: int| 0 <= i < entry.len() ==> entry[i] != '\n',
        entry.last() != '\r',
    ensures
        newest_first(text_lines(log_text(existing, entry, ts))).len() >= 1,
        newest_first(text_lines(log_text(existing, entry, ts)))[0] == entry,
{
    reveal_strlit("\n");
    law_log_keeps_the_new_record(existing, entry, ts);
    let l = retained_lines(existing, entry, ts);
    let nl: Seq<char> = seq!['\n'];
    assert("\n"@ =~= nl);
    let lines = text_lines(log_text(existing, entry, ts));
    lemma_one_line(entry, Seq::empty());
    assert(Seq::<char>::empty() + entry =~= entry);
    if l.len() == 1 {
        assert(joined(l, nl) == entry);
        assert(lines =~= seq![entry]);
    } else {
        let p = joined(l.drop_last(), nl) + nl;
        assert(joined(l, nl) == joined(l.drop_last(), nl) + nl + entry);
        assert(log_text(existing, entry, ts) =~= p + (entry + nl));
        lemma_lines_split(p, entry + nl, Seq::empty());
        assert(lines =~= text_lines(p) + seq![entry]);
    }
    assert(lines.last() == entry);
    assert(newest_first(lines)[0] == entry);
}

/// The non-empty lines of the log `content`, newest first; each is one
/// history record in JSON.
pub fn history_lines(content: &str) -> (r: Vec<String>)
    ensures
        strings_view(r@) == newest_first(text_lines(content@)),
{
    let lines = split_lines(content);
    let ghost all = strings_view(lines@);
    let n = lines.len();
    let mut out: Vec<String> = Vec::new();
    let mut i: usize = n;
    assert(all.take(n as int) =~= all);
    while i > 0
        invariant
            n == lines@.len(),
            all == strings_view(lines@),
            i <= n,
            strings_view(out@) + newest_first(all.take(i as int)) == newest_first(all),
        decreases i,
    {
        let ghost t = all.take(i as int);
        assert(t.drop_last() =~= all.take(i - 1));
        assert(t.last() == lines@[i - 1]@);
        if lines[i - 1].as_str().unicode_len() > 0 {
            let ghost before = strings_view(out@);
            out.push(lines[i - 1].clone());
            assert(strings_view(out@) =~= before.push(lines@[i - 1]@));
            assert(before.push(lines@[i - 1]@) + newest_first(all.take(i - 1))
                =~= before + (seq![lines@[i - 1]@] + newest_first(all.take(i - 1))));
        }
        i = i - 1;
    }
    assert(all.take(0) =~= Seq::<Seq<char>>::empty());
    assert(strings_view(out@) + Seq::<Seq<char>>::empty() =~= strings_view(out@));
    out
}

} // verus!
