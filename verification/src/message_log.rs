//! Resilient reading of a session's `messages.jsonl`: which lines to keep, what to warn
//! about, and how to repair a torn last line.

use vstd::prelude::*;

use crate::stored::{check_schema_version, schema_error};
use crate::text::{push_char, push_str};

verus! {

/// What one line of the file holds.
#[derive(Debug, Clone, Copy, PartialEq, Eq, Structural)]
pub enum LineOutcome {
    /// Only whitespace.
    Blank,
    /// A message of this session, with its id and sequence number.
    Parsed { id: u128, sequence: u64 },
    /// A message of another session.
    SessionMismatch,
    /// Not a message (bad JSON or an unsupported schema version).
    BadJson,
}

/// A problem found while reading the file.
#[derive(Debug, Clone, Copy, PartialEq, Eq, Structural)]
pub enum LoadWarning {
    MidFileCorrupt { line_number: usize },
    DuplicateSequence { sequence: u64 },
    DuplicateMessageId { id: u128 },
    SessionIdMismatch { line_number: usize },
}

/// The decisions of a load.
#[derive(Debug, Clone)]
pub struct LoadPlan {
    /// The lines whose messages are kept, ordered by sequence number.
    pub kept: Vec<usize>,
    pub warnings: Vec<LoadWarning>,
    pub partially_corrupt: bool,
    /// The sequence number for the next message.
    pub next_sequence: u64,
    /// The last non-blank line, when it is corrupt: set aside and removed from the file.
    pub truncate_at: Option<usize>,
}

/// The running state of a load.
pub struct ScanV {
    /// Ids of the messages seen so far (kept or dropped for a duplicate sequence).
    pub ids: Seq<u128>,
    /// Sequence numbers of kept messages.
    pub seqs: Seq<u64>,
    /// `(line, sequence)` of kept messages, ordered by sequence.
    pub kept: Seq<(usize, u64)>,
    pub warnings: Seq<LoadWarning>,
    pub corrupt: bool,
    pub max_seq: u64,
    pub truncate_at: Option<usize>,
}

/// The entry placed among kept messages ordered by sequence (before the first with a
/// greater sequence).
pub open spec fn insert_by_seq(kept: Seq<(usize, u64)>, e: (usize, u64)) -> Seq<(usize, u64)>
    decreases kept.len(),
{
    if kept.len() == 0 {
        seq![e]
    } else if kept[0].1 > e.1 {
        seq![e] + kept
    } else {
        seq![kept[0]] + insert_by_seq(kept.drop_first(), e)
    }
}

/// The last line that is not blank.
pub open spec fn last_non_blank(lines: Seq<LineOutcome>) -> Option<int>
    decreases lines.len(),
{
    if lines.len() == 0 {
        None
    } else if !(lines.last() is Blank) {
        Some(lines.len() - 1)
    } else {
        last_non_blank(lines.drop_last())
    }
}

proof fn lemma_last_non_blank_range(lines: Seq<LineOutcome>)
    ensures
        last_non_blank(lines) matches Some(k) ==> 0 <= k < lines.len(),
    decreases lines.len(),
{
    if lines.len() > 0 {
        lemma_last_non_blank_range(lines.drop_last());
    }
}

/// One line's effect.
pub open spec fn scan_line(st: ScanV, idx: int, l: LineOutcome, last: Option<int>) -> ScanV {
    match l {
        LineOutcome::Blank => st,
        LineOutcome::Parsed { id, sequence } => if st.ids.contains(id) {
            ScanV {
                warnings: st.warnings.push(LoadWarning::DuplicateMessageId { id }),
                corrupt: true,
                ..st
            }
        } else if st.seqs.contains(sequence) {
            ScanV {
                ids: st.ids.push(id),
                warnings: st.warnings.push(LoadWarning::DuplicateSequence { sequence }),
                corrupt: true,
                ..st
            }
        } else {
            ScanV {
                ids: st.ids.push(id),
                seqs: st.seqs.push(sequence),
                kept: insert_by_seq(st.kept, (idx as usize, sequence)),
                max_seq: if sequence > st.max_seq {
                    sequence
                } else {
                    st.max_seq
                },
                ..st
            }
        },
        LineOutcome::SessionMismatch => ScanV {
            warnings: st.warnings.push(LoadWarning::SessionIdMismatch { line_number: (idx + 1) as usize }),
            corrupt: true,
            ..st
        },
        LineOutcome::BadJson => if last == Some(idx) {
            ScanV { truncate_at: Some(idx as usize), corrupt: true, ..st }
        } else {
            ScanV {
                warnings: st.warnings.push(LoadWarning::MidFileCorrupt { line_number: (idx + 1) as usize }),
                corrupt: true,
                ..st
            }
        },
    }
}

/// The state after the first lines.
pub open spec fn scan(lines: Seq<LineOutcome>, n: int, last: Option<int>) -> ScanV
    decreases n,
{
    if n <= 0 {
        ScanV {
            ids: seq![],
            seqs: seq![],
            kept: seq![],
            warnings: seq![],
            corrupt: false,
            max_seq: 0,
            truncate_at: None,
        }
    } else {
        scan_line(scan(lines, n - 1, last), n - 1, lines[n - 1], last)
    }
}

/// The next sequence number after the largest kept one (at least 1, saturating).
pub open spec fn next_after(max_seq: u64) -> u64 {
    if max_seq == u64::MAX {
        u64::MAX
    } else {
        (max_seq + 1) as u64
    }
}

/// The lines of kept entries.
pub open spec fn kept_lines(k: Seq<(usize, u64)>) -> Seq<usize> {
    k.map_values(|e: (usize, u64)| e.0)
}

fn insert_sorted(kept: &mut Vec<(usize, u64)>, e: (usize, u64))
    ensures
        final(kept)@ == insert_by_seq(old(kept)@, e),
{
    let ghost k0 = kept@;
    let mut p: usize = 0;
    while p < kept.len() && kept[p].1 <= e.1
        invariant
            0 <= p <= kept@.len(),
            kept@ == k0,
            forall|j: int| 0 <= j < p ==> k0[j].1 <= e.1,
        decreases kept.len() - p,
    {
        p = p + 1;
    }
    proof {
        lemma_insert_shape(k0, e, p as int);
    }
    kept.insert(p, e);
}

proof fn lemma_insert_shape(k: Seq<(usize, u64)>, e: (usize, u64), p: int)
    requires
        0 <= p <= k.len(),
        forall|j: int| 0 <= j < p ==> k[j].1 <= e.1,
        p < k.len() ==> k[p].1 > e.1,
    ensures
        insert_by_seq(k, e) == k.insert(p, e),
    decreases k.len(),
{
    if k.len() == 0 {
        assert(k.insert(p, e) =~= seq![e]);
    } else if p == 0 {
        assert(k.insert(0, e) =~= seq![e] + k);
    } else {
        let r = k.drop_first();
        assert forall|j: int| 0 <= j < p - 1 implies r[j].1 <= e.1 by {
            assert(r[j] == k[j + 1]);
        }
        lemma_insert_shape(r, e, p - 1);
        assert(k.insert(p, e) =~= seq![k[0]] + r.insert(p - 1, e));
    }
}

fn set_contains_u128(s: &Vec<u128>, x: u128) -> (b: bool)
    ensures
        b == s@.contains(x),
{
    let mut i: usize = 0;
    while i < s.len()
        invariant
            0 <= i <= s@.len(),
            forall|j: int| 0 <= j < i ==> s@[j] != x,
        decreases s.len() - i,
    {
        if s[i] == x {
            return true;
        }
        i = i + 1;
    }
    false
}

fn set_contains_u64(s: &Vec<u64>, x: u64) -> (b: bool)
    ensures
        b == s@.contains(x),
{
    let mut i: usize = 0;
    while i < s.len()
        invariant
            0 <= i <= s@.len(),
            forall|j: int| 0 <= j < i ==> s@[j] != x,
        decreases s.len() - i,
    {
        if s[i] == x {
            return true;
        }
        i = i + 1;
    }
    false
}

fn find_last_non_blank(lines: &Vec<LineOutcome>) -> (r: Option<usize>)
    ensures
        match last_non_blank(lines@) {
            Some(k) => r == Some(k as usize),
            None => r is None,
        },
{
    let mut n = lines.len();
    assert(lines@.take(n as int) == lines@);
    while n > 0
        invariant
            0 <= n <= lines@.len(),
            last_non_blank(lines@) == last_non_blank(lines@.take(n as int)),
        decreases n,
    {
        proof {
            assert(lines@.take(n as int).drop_last() == lines@.take(n - 1));
            assert(lines@.take(n as int).last() == lines@[n - 1]);
        }
        if !(lines[n - 1] == LineOutcome::Blank) {
            return Some(n - 1);
        }
        n = n - 1;
    }
    None
}

/// Decide what to keep from the lines of a messages file: messages in sequence order
/// (duplicate ids and duplicate sequence numbers dropped with a warning), a warning for
/// each line of another session and each corrupt line inside the file, and the last
/// line set aside when it is the corrupt one.
pub fn plan_message_load(lines: &Vec<LineOutcome>) -> (p: LoadPlan)
    ensures
        ({
            let last = last_non_blank(lines@);
            let st = scan(lines@, lines@.len() as int, last);
            &&& p.kept@ == kept_lines(st.kept)
            &&& p.warnings@ == st.warnings
            &&& p.partially_corrupt == st.corrupt
            &&& p.next_sequence == next_after(st.max_seq)
            &&& p.truncate_at == st.truncate_at
        }),
{
    proof {
        assert(lines@.take(lines@.len() as int) == lines@);
    }
    let last = find_last_non_blank(lines);
    let ghost lastv = last_non_blank(lines@);
    proof {
        lemma_last_non_blank_range(lines@);
    }
    let mut ids: Vec<u128> = Vec::new();
    let mut seqs: Vec<u64> = Vec::new();
    let mut kept: Vec<(usize, u64)> = Vec::new();
    let mut warnings: Vec<LoadWarning> = Vec::new();
    let mut corrupt = false;
    let mut max_seq: u64 = 0;
    let mut truncate_at: Option<usize> = None;
    let mut i: usize = 0;
    while i < lines.len()
        invariant
            0 <= i <= lines@.len(),
            match lastv {
                Some(k) => last == Some(k as usize) && 0 <= k < lines@.len(),
                None => last is None,
            },
            ({
                let st = scan(lines@, i as int, lastv);
                &&& ids@ == st.ids
                &&& seqs@ == st.seqs
                &&& kept@ == st.kept
                &&& warnings@ == st.warnings
                &&& corrupt == st.corrupt
                &&& max_seq == st.max_seq
                &&& truncate_at == st.truncate_at
            }),
        decreases lines.len() - i,
    {
        let ghost prev = scan(lines@, i as int, lastv);
        assert(scan(lines@, i + 1, lastv) == scan_line(prev, i as int, lines@[i as int], lastv));
        match lines[i] {
            LineOutcome::Blank => {},
            LineOutcome::Parsed { id, sequence } => {
                if set_contains_u128(&ids, id) {
                    warnings.push(LoadWarning::DuplicateMessageId { id });
                    corrupt = true;
                } else if set_contains_u64(&seqs, sequence) {
                    ids.push(id);
                    warnings.push(LoadWarning::DuplicateSequence { sequence });
                    corrupt = true;
                } else {
                    ids.push(id);
                    seqs.push(sequence);
                    insert_sorted(&mut kept, (i, sequence));
                    if sequence > max_seq {
                        max_seq = sequence;
                    }
                }
            },
            LineOutcome::SessionMismatch => {
                warnings.push(LoadWarning::SessionIdMismatch { line_number: i + 1 });
                corrupt = true;
            },
            LineOutcome::BadJson => {
                if last == Some(i) {
                    truncate_at = Some(i);
                } else {
                    warnings.push(LoadWarning::MidFileCorrupt { line_number: i + 1 });
                }
                corrupt = true;
            },
        }
        i = i + 1;
    }
    let mut out: Vec<usize> = Vec::new();
    let mut k: usize = 0;
    while k < kept.len()
        invariant
            0 <= k <= kept@.len(),
            out@ == kept_lines(kept@.take(k as int)),
        decreases kept.len() - k,
    {
        out.push(kept[k].0);
        assert(kept_lines(kept@.take(k + 1)) =~= kept_lines(kept@.take(k as int)).push(kept@[k as int].0));
        k = k + 1;
    }
    assert(kept@.take(kept@.len() as int) == kept@);
    let next_sequence = if max_seq == u64::MAX {
        u64::MAX
    } else {
        max_seq + 1
    };
    LoadPlan { kept: out, warnings, partially_corrupt: corrupt, next_sequence, truncate_at }
}

/// The lines joined with a newline after each, leaving out one line.
pub open spec fn lines_without(lines: Seq<Seq<char>>, drop: int) -> Seq<char>
    decreases lines.len(),
{
    if lines.len() == 0 {
        seq![]
    } else if lines.len() - 1 == drop {
        lines_without(lines.drop_last(), drop)
    } else {
        lines_without(lines.drop_last(), drop) + lines.last() + seq!['\n']
    }
}

/// The file text after removing the line at `drop_idx`: every other line followed by a
/// newline.
pub fn rewrite_without_line(lines: &Vec<String>, drop_idx: usize) -> (s: String)
    ensures
        s@ == lines_without(crate::types::strings_view(lines@), drop_idx as int),
{
    let ghost v = crate::types::strings_view(lines@);
    let mut out = String::new();
    let mut i: usize = 0;
    while i < lines.len()
        invariant
            0 <= i <= lines@.len(),
            v == crate::types::strings_view(lines@),
            out@ == lines_without(v.take(i as int), drop_idx as int),
        decreases lines.len() - i,
    {
        proof {
            assert(v.take(i + 1).drop_last() == v.take(i as int));
            assert(v.take(i + 1).last() == lines@[i as int]@);
        }
        if i != drop_idx {
            push_str(&mut out, lines[i].as_str());
            push_char(&mut out, '\n');
        }
        i = i + 1;
    }
    assert(v.take(lines@.len() as int) == v);
    out
}

/// Some kept entry has sequence number `x`.
pub open spec fn has_seq(k: Seq<(usize, u64)>, x: u64) -> bool {
    exists|i: int| 0 <= i < k.len() && k[i].1 == x
}

/// Kept entries in strictly increasing sequence order, their sequence numbers being
/// exactly the recorded ones, none above `max_seq`.
pub open spec fn kept_ordered(st: ScanV) -> bool {
    &&& forall|i: int, j: int| 0 <= i < j < st.kept.len() ==> st.kept[i].1 < st.kept[j].1
    &&& forall|x: u64| #[trigger] st.seqs.contains(x) <==> has_seq(st.kept, x)
    &&& forall|i: int| 0 <= i < st.kept.len() ==> st.kept[i].1 <= st.max_seq
}

proof fn lemma_insert_by_seq(kept: Seq<(usize, u64)>, e: (usize, u64))
    requires
        forall|i: int, j: int| 0 <= i < j < kept.len() ==> kept[i].1 < kept[j].1,
        !has_seq(kept, e.1),
    ensures
        insert_by_seq(kept, e).len() == kept.len() + 1,
        forall|i: int, j: int|
            0 <= i < j < insert_by_seq(kept, e).len() ==> insert_by_seq(kept, e)[i].1 < insert_by_seq(
                kept,
                e,
            )[j].1,
        forall|x: u64| #[trigger] has_seq(insert_by_seq(kept, e), x) <==> (x == e.1 || has_seq(kept, x)),
    decreases kept.len(),
{
    if kept.len() == 0 {
        assert forall|x: u64| #[trigger] has_seq(insert_by_seq(kept, e), x) <==> (x == e.1 || has_seq(kept, x)) by {
            if x == e.1 {
                assert(insert_by_seq(kept, e)[0].1 == x);
            }
        }
    } else if kept[0].1 > e.1 {
        let r = seq![e] + kept;
        assert forall|x: u64| #[trigger] has_seq(r, x) <==> (x == e.1 || has_seq(kept, x)) by {
            if has_seq(kept, x) {
                let i = choose|i: int| 0 <= i < kept.len() && kept[i].1 == x;
                assert(r[i + 1].1 == x);
            }
            if x == e.1 {
                assert(r[0].1 == x);
            }
            if has_seq(r, x) {
                let i = choose|i: int| 0 <= i < r.len() && r[i].1 == x;
                if i > 0 {
                    assert(kept[i - 1].1 == x);
                }
            }
        }
    } else {
        let t = kept.drop_first();
        assert forall|i: int, j: int| 0 <= i < j < t.len() implies t[i].1 < t[j].1 by {
            assert(t[i] == kept[i + 1] && t[j] == kept[j + 1]);
        }
        assert(!has_seq(t, e.1)) by {
            if has_seq(t, e.1) {
                let i = choose|i: int| 0 <= i < t.len() && t[i].1 == e.1;
                assert(kept[i + 1].1 == e.1);
            }
        }
        lemma_insert_by_seq(t, e);
        let it = insert_by_seq(t, e);
        let r = seq![kept[0]] + it;
        assert(insert_by_seq(kept, e) == r);
        assert forall|k: int| 0 <= k < it.len() implies kept[0].1 < #[trigger] it[k].1 by {
            assert(has_seq(it, it[k].1));
            if it[k].1 != e.1 {
                let i = choose|i: int| 0 <= i < t.len() && t[i].1 == it[k].1;
                assert(t[i] == kept[i + 1]);
            }
        }
        assert forall|i: int, j: int| 0 <= i < j < r.len() implies r[i].1 < r[j].1 by {
            if i == 0 {
                assert(r[j] == it[j - 1]);
            } else {
                assert(r[i] == it[i - 1] && r[j] == it[j - 1]);
            }
        }
        assert forall|x: u64| #[trigger] has_seq(r, x) <==> (x == e.1 || has_seq(kept, x)) by {
            if has_seq(r, x) {
                let i = choose|i: int| 0 <= i < r.len() && r[i].1 == x;
                if i > 0 {
                    assert(it[i - 1].1 == x);
                    assert(has_seq(it, x));
                    if x != e.1 {
                        let k = choose|k: int| 0 <= k < t.len() && t[k].1 == x;
                        assert(kept[k + 1].1 == x);
                    }
                } else {
                    assert(kept[0].1 == x);
                }
            }
            if has_seq(kept, x) {
                let i = choose|i: int| 0 <= i < kept.len() && kept[i].1 == x;
                if i == 0 {
                    assert(r[0].1 == x);
                } else {
                    assert(t[i - 1].1 == x);
                    assert(has_seq(t, x));
                    assert(has_seq(it, x));
                    let k = choose|k: int| 0 <= k < it.len() && it[k].1 == x;
                    assert(r[k + 1].1 == x);
                }
            }
            if x == e.1 {
                assert(has_seq(it, x));
                let k = choose|k: int| 0 <= k < it.len() && it[k].1 == x;
                assert(r[k + 1].1 == x);
            }
        }
    }
}

/// Kept messages come in strictly increasing sequence order (so no sequence number is
/// kept twice), and the next sequence number is above every kept one unless it has
/// saturated at `u64::MAX`.
pub proof fn law_kept_in_sequence_order(lines: Seq<LineOutcome>, n: int, last: Option<int>)
    requires
        0 <= n <= lines.len(),
    ensures
        kept_ordered(scan(lines, n, last)),
        forall|i: int|
            0 <= i < scan(lines, n, last).kept.len() ==> scan(lines, n, last).kept[i].1 < next_after(
                scan(lines, n, last).max_seq,
            ) || next_after(scan(lines, n, last).max_seq) == u64::MAX,
    decreases n,
{
    if n > 0 {
        law_kept_in_sequence_order(lines, n - 1, last);
        let st = scan(lines, n - 1, last);
        match lines[n - 1] {
            LineOutcome::Parsed { id, sequence } => {
                if !st.ids.contains(id) && !st.seqs.contains(sequence) {
                    let e = ((n - 1) as usize, sequence);
                    lemma_insert_by_seq(st.kept, e);
                    let s2 = scan(lines, n, last);
                    assert forall|x: u64| #[trigger] s2.seqs.contains(x) <==> has_seq(s2.kept, x) by {
                        assert(s2.seqs == st.seqs.push(sequence));
                        if s2.seqs.contains(x) {
                            let i = choose|i: int| 0 <= i < s2.seqs.len() && s2.seqs[i] == x;
                            if i < st.seqs.len() {
                                assert(st.seqs[i] == x);
                                assert(st.seqs.contains(x));
                            }
                        }
                        if st.seqs.contains(x) {
                            let i = choose|i: int| 0 <= i < st.seqs.len() && st.seqs[i] == x;
                            assert(s2.seqs[i] == x);
                        }
                        if x == sequence {
                            assert(s2.seqs[st.seqs.len() as int] == x);
                        }
                    }
                    assert forall|i: int| 0 <= i < s2.kept.len() implies s2.kept[i].1 <= s2.max_seq by {
                        let x = s2.kept[i].1;
                        assert(has_seq(s2.kept, x));
                        if x != sequence {
                            assert(has_seq(st.kept, x));
                            let k = choose|k: int| 0 <= k < st.kept.len() && st.kept[k].1 == x;
                        }
                    }
                }
            },
            _ => {},
        }
    }
}

/// `id` is the id of no message line among `lines`.
pub open spec fn fresh_id(lines: Seq<LineOutcome>, id: u128) -> bool {
    forall|i: int| 0 <= i < lines.len() ==> !(#[trigger] lines[i] matches LineOutcome::Parsed { id: x, .. } && x == id)
}

proof fn lemma_ids_from_lines(lines: Seq<LineOutcome>, n: int, last: Option<int>, x: u128)
    requires
        0 <= n <= lines.len(),
        scan(lines, n, last).ids.contains(x),
    ensures
        exists|i: int| 0 <= i < n && (#[trigger] lines[i] matches LineOutcome::Parsed { id, .. } && id == x),
    decreases n,
{
    let st = scan(lines, n - 1, last);
    if st.ids.contains(x) {
        lemma_ids_from_lines(lines, n - 1, last, x);
        let i = choose|i: int| 0 <= i < n - 1 && (#[trigger] lines[i] matches LineOutcome::Parsed { id, .. } && id == x);
        assert(0 <= i < n && (lines[i] matches LineOutcome::Parsed { id, .. } && id == x));
    } else {
        let i = n - 1;
        assert(lines[i] matches LineOutcome::Parsed { id, .. } && id == x);
    }
}

proof fn lemma_scan_same_prefix(a: Seq<LineOutcome>, b: Seq<LineOutcome>, n: int, la: Option<int>, lb: Option<int>)
    requires
        0 <= n <= a.len(),
        n <= b.len(),
        forall|i: int| 0 <= i < n ==> a[i] == b[i],
        forall|i: int| 0 <= i < n && (#[trigger] a[i] is BadJson) ==> la != Some(i) && lb != Some(i),
    ensures
        scan(a, n, la) == scan(b, n, lb),
    decreases n,
{
    if n > 0 {
        lemma_scan_same_prefix(a, b, n - 1, la, lb);
    }
}

/// A message reads back as written: a message appended with a new id and the next
/// sequence number to a log whose last line is not corrupt is kept after every message
/// kept before; the earlier warnings and decisions stand, and its sequence number is the
/// largest kept.
pub proof fn law_append_read_back(lines: Seq<LineOutcome>, id: u128)
    requires
        !(last_non_blank(lines) matches Some(k) && lines[k] is BadJson),
        fresh_id(lines, id),
        scan(lines, lines.len() as int, last_non_blank(lines)).max_seq < u64::MAX,
    ensures
        ({
            let st = scan(lines, lines.len() as int, last_non_blank(lines));
            let more = lines.push(LineOutcome::Parsed { id, sequence: next_after(st.max_seq) });
            let st2 = scan(more, more.len() as int, last_non_blank(more));
            &&& kept_lines(st2.kept) == kept_lines(st.kept).push(lines.len() as usize)
            &&& st2.warnings == st.warnings
            &&& st2.corrupt == st.corrupt
            &&& st2.truncate_at == st.truncate_at
            &&& st2.max_seq == next_after(st.max_seq)
        }),
{
    let n = lines.len() as int;
    let last = last_non_blank(lines);
    let st = scan(lines, n, last);
    let seq = next_after(st.max_seq);
    let e = LineOutcome::Parsed { id, sequence: seq };
    let more = lines.push(e);
    assert(more.drop_last() =~= lines);
    assert(last_non_blank(more) == Some(n));
    lemma_last_non_blank_range(lines);
    lemma_scan_same_prefix(more, lines, n, Some(n), last);
    law_kept_in_sequence_order(lines, n, last);
    if st.ids.contains(id) {
        lemma_ids_from_lines(lines, n, last, id);
        let i = choose|i: int| 0 <= i < n && (#[trigger] lines[i] matches LineOutcome::Parsed { id: x, .. } && x == id);
        assert(!(lines[i] matches LineOutcome::Parsed { id: x, .. } && x == id));
    }
    if st.seqs.contains(seq) {
        assert(has_seq(st.kept, seq));
        let k = choose|k: int| 0 <= k < st.kept.len() && st.kept[k].1 == seq;
        assert(st.kept[k].1 <= st.max_seq);
    }
    let en = (n as usize, seq);
    lemma_insert_shape(st.kept, en, st.kept.len() as int);
    assert(st.kept.insert(st.kept.len() as int, en) =~= st.kept.push(en));
    let st2 = scan(more, n + 1, Some(n));
    assert(st2.kept == st.kept.push(en));
    assert(kept_lines(st.kept.push(en)) =~= kept_lines(st.kept).push(n as usize));
    assert(st2.warnings == st.warnings);
    assert(st2.max_seq == seq);
}

/// The id a message line holds (0 for a line that holds none).
pub open spec fn line_id(l: LineOutcome) -> u128 {
    match l {
        LineOutcome::Parsed { id, .. } => id,
        _ => 0,
    }
}

/// What a load has established after the first `n` lines: each kept entry is a message
/// line among them with that sequence number and a recorded id; kept ids are pairwise
/// distinct; `max_seq` is a kept sequence number (0 with none kept); the load is partly
/// corrupt exactly when it warned or set the last line aside.
pub open spec fn load_facts(lines: Seq<LineOutcome>, st: ScanV, n: int) -> bool {
    &&& forall|a: int| #![trigger st.kept[a]]
        0 <= a < st.kept.len() ==> {
            &&& 0 <= st.kept[a].0 < n
            &&& lines[st.kept[a].0 as int] matches LineOutcome::Parsed { id, sequence }
            &&& lines[st.kept[a].0 as int]->sequence == st.kept[a].1
            &&& st.ids.contains(line_id(lines[st.kept[a].0 as int]))
        }
    &&& forall|a: int, b: int| #![trigger st.kept[a], st.kept[b]]
        0 <= a < b < st.kept.len() ==> line_id(lines[st.kept[a].0 as int]) != line_id(
            lines[st.kept[b].0 as int],
        )
    &&& st.kept.len() == 0 ==> st.max_seq == 0
    &&& st.kept.len() > 0 ==> has_seq(st.kept, st.max_seq)
    &&& st.corrupt == (st.warnings.len() > 0 || st.truncate_at is Some)
}

proof fn lemma_insert_by_seq_at(k: Seq<(usize, u64)>, e: (usize, u64))
    ensures
        exists|p: int| 0 <= p <= k.len() && insert_by_seq(k, e) == k.insert(p, e),
    decreases k.len(),
{
    if k.len() == 0 {
        assert(insert_by_seq(k, e) == k.insert(0, e));
    } else if k[0].1 > e.1 {
        assert(insert_by_seq(k, e) =~= k.insert(0, e));
    } else {
        let r = k.drop_first();
        lemma_insert_by_seq_at(r, e);
        let p = choose|p: int| 0 <= p <= r.len() && insert_by_seq(r, e) == r.insert(p, e);
        assert(insert_by_seq(k, e) =~= k.insert(p + 1, e));
    }
}

proof fn lemma_load_facts(lines: Seq<LineOutcome>, n: int, last: Option<int>)
    requires
        0 <= n <= lines.len() <= usize::MAX,
    ensures
        load_facts(lines, scan(lines, n, last), n),
    decreases n,
{
    if n > 0 {
        lemma_load_facts(lines, n - 1, last);
        let st = scan(lines, n - 1, last);
        let s2 = scan(lines, n, last);
        match lines[n - 1] {
            LineOutcome::Parsed { id, sequence } => {
                if st.ids.contains(id) {
                } else if st.seqs.contains(sequence) {
                    assert forall|a: int| 0 <= a < s2.kept.len() implies s2.ids.contains(
                        line_id(lines[(#[trigger] s2.kept[a]).0 as int]),
                    ) by {
                        let x = line_id(lines[st.kept[a].0 as int]);
                        let i = choose|i: int| 0 <= i < st.ids.len() && st.ids[i] == x;
                        assert(s2.ids[i] == x);
                    }
                } else {
                    let e = ((n - 1) as usize, sequence);
                    lemma_insert_by_seq_at(st.kept, e);
                    let p = choose|p: int| 0 <= p <= st.kept.len() && insert_by_seq(st.kept, e) == st.kept.insert(p, e);
                    let k2 = s2.kept;
                    assert(k2 == st.kept.insert(p, e));
                    assert forall|a: int| 0 <= a < k2.len() implies (a < p ==> #[trigger] k2[a] == st.kept[a])
                        && (a == p ==> k2[a] == e) && (a > p ==> k2[a] == st.kept[a - 1]) by {}
                    assert forall|a: int| 0 <= a < k2.len() implies {
                        &&& 0 <= (#[trigger] k2[a]).0 < n
                        &&& lines[k2[a].0 as int] matches LineOutcome::Parsed { id, sequence }
                        &&& lines[k2[a].0 as int]->sequence == k2[a].1
                        &&& s2.ids.contains(line_id(lines[k2[a].0 as int]))
                    } by {
                        if a == p {
                            assert(k2[a] == e);
                            assert(line_id(lines[n - 1]) == id);
                            assert(s2.ids == st.ids.push(id));
                            assert(s2.ids[st.ids.len() as int] == id);
                        } else {
                            let b = if a < p { a } else { a - 1 };
                            assert(k2[a] == st.kept[b]);
                            assert(0 <= b < st.kept.len());
                            let kb = st.kept[b];
                            assert(0 <= kb.0 < n - 1);
                            assert(st.ids.contains(line_id(lines[kb.0 as int])));
                            let x = line_id(lines[kb.0 as int]);
                            let i = choose|i: int| 0 <= i < st.ids.len() && st.ids[i] == x;
                            assert(s2.ids == st.ids.push(id));
                            assert(s2.ids[i] == x);
                        }
                    }
                    assert forall|a: int, b: int| 0 <= a < b < k2.len() implies line_id(
                        lines[(#[trigger] k2[a]).0 as int],
                    ) != line_id(lines[(#[trigger] k2[b]).0 as int]) by {
                        if a == p {
                            assert(k2[a] == e);
                            let kb = st.kept[b - 1];
                            assert(k2[b] == kb);
                            assert(st.ids.contains(line_id(lines[kb.0 as int])));
                            assert(line_id(lines[n - 1]) == id);
                        } else if b == p {
                            assert(k2[b] == e);
                            let ka = st.kept[a];
                            assert(k2[a] == ka);
                            assert(st.ids.contains(line_id(lines[ka.0 as int])));
                            assert(line_id(lines[n - 1]) == id);
                        } else {
                            let a0 = if a < p { a } else { a - 1 };
                            let b0 = if b < p { b } else { b - 1 };
                            assert(k2[a] == st.kept[a0] && k2[b] == st.kept[b0]);
                            assert(a0 < b0);
                        }
                    }
                    if sequence > st.max_seq {
                        assert(k2[p].1 == sequence);
                    } else if st.kept.len() == 0 {
                        assert(k2[p].1 == sequence);
                    } else {
                        let i = choose|i: int| 0 <= i < st.kept.len() && st.kept[i].1 == st.max_seq;
                        if i < p {
                            assert(k2[i] == st.kept[i]);
                        } else {
                            assert(k2[i + 1] == st.kept[i]);
                        }
                    }
                }
            },
            _ => {},
        }
    }
}

/// What a load of a messages file keeps: the kept lines are message lines, in strictly
/// increasing sequence order, with pairwise distinct ids; the next sequence number is one
/// past the largest kept (1 when none is kept, saturating at `u64::MAX`); the load is
/// partly corrupt exactly when it warned or set the last line aside. An empty file keeps
/// nothing and gives sequence 1.
pub proof fn law_load_plan(lines: Seq<LineOutcome>)
    requires
        lines.len() <= usize::MAX,
    ensures
        ({
            let st = scan(lines, lines.len() as int, last_non_blank(lines));
            &&& forall|a: int| #![trigger st.kept[a]]
                0 <= a < st.kept.len() ==> (0 <= st.kept[a].0 < lines.len() && lines[st.kept[a].0 as int] is Parsed
                    && lines[st.kept[a].0 as int]->sequence == st.kept[a].1)
            &&& forall|a: int, b: int| 0 <= a < b < st.kept.len() ==> (#[trigger] st.kept[a]).1 < (#[trigger] st.kept[b]).1
            &&& forall|a: int, b: int| #![trigger st.kept[a], st.kept[b]]
                0 <= a < b < st.kept.len() ==> line_id(lines[st.kept[a].0 as int]) != line_id(
                    lines[st.kept[b].0 as int],
                )
            &&& st.kept.len() == 0 ==> next_after(st.max_seq) == 1
            &&& st.kept.len() > 0 ==> next_after(st.max_seq) == next_after(st.kept.last().1)
            &&& st.corrupt == (st.warnings.len() > 0 || st.truncate_at is Some)
            &&& lines.len() == 0 ==> st.kept.len() == 0 && st.warnings.len() == 0 && !st.corrupt
                && next_after(st.max_seq) == 1
        }),
{
    let n = lines.len() as int;
    let last = last_non_blank(lines);
    lemma_load_facts(lines, n, last);
    law_kept_in_sequence_order(lines, n, last);
    let st = scan(lines, n, last);
    if st.kept.len() > 0 {
        let i = choose|i: int| 0 <= i < st.kept.len() && st.kept[i].1 == st.max_seq;
        let l = st.kept.len() - 1;
        assert(st.kept[l].1 <= st.max_seq);
        if i < l {
            assert(st.kept[i].1 < st.kept[l].1);
        }
    }
}

/// What a line that parsed as a message stands for: not a message when its schema
/// version is refused, a message of another session, or a message of this session.
pub fn classify_message(schema_version: u32, message_session: u128, session_id: u128, id: u128, sequence: u64) -> (o:
    LineOutcome)
    ensures
        schema_error(schema_version) is Some ==> o == LineOutcome::BadJson,
        schema_error(schema_version) is None && message_session != session_id ==> o
            == LineOutcome::SessionMismatch,
        schema_error(schema_version) is None && message_session == session_id ==> o == (LineOutcome::Parsed {
            id,
            sequence,
        }),
{
    if check_schema_version(schema_version).is_err() {
        return LineOutcome::BadJson;
    }
    if message_session != session_id {
        return LineOutcome::SessionMismatch;
    }
    LineOutcome::Parsed { id, sequence }
}

} // verus!
