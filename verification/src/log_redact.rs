//! Best-effort redaction of accidental secrets in application log lines.

use vstd::prelude::*;

use crate::text::{
    ascii_lower, chars_of, contains_seq, find_chars, first_occurrence, is_whitespace, is_ws, lower_str, push_char,
    push_str, string_of_range,
};

verus! {

/// The first index at or after `from` holding whitespace, or `s.len()`.
pub open spec fn ws_end(s: Seq<char>, from: int) -> int
    decreases s.len() - from,
{
    if from >= s.len() {
        s.len() as int
    } else if is_ws(s[from]) {
        from
    } else {
        ws_end(s, from + 1)
    }
}

/// The line with the token after the first `bearer ` (any case) replaced by `***`.
pub open spec fn redact_log_bearer(s: Seq<char>) -> Seq<char> {
    match first_occurrence(ascii_lower(s), "bearer "@) {
        Some(idx) => {
            let e = ws_end(s, idx + 7);
            if e > idx + 7 {
                s.take(idx + 7) + "***"@ + s.skip(e)
            } else {
                s
            }
        },
        None => s,
    }
}

/// An ASCII letter or digit.
pub open spec fn ascii_alnum(c: char) -> bool {
    ('0' <= c <= '9') || ('a' <= c <= 'z') || ('A' <= c <= 'Z')
}

/// A character that continues an `sk-` key.
pub open spec fn key_char(c: char) -> bool {
    ascii_alnum(c) || c == '-' || c == '_'
}

/// The first index at or after `from` that does not continue a key, or `s.len()`.
pub open spec fn key_run_end(s: Seq<char>, from: int) -> int
    decreases s.len() - from,
{
    if from >= s.len() {
        s.len() as int
    } else if key_char(s[from]) {
        key_run_end(s, from + 1)
    } else {
        from
    }
}

pub proof fn lemma_key_run_end(s: Seq<char>, from: int)
    requires
        0 <= from <= s.len(),
    ensures
        from <= key_run_end(s, from) <= s.len(),
        from < s.len() && key_char(s[from]) ==> key_run_end(s, from) > from,
    decreases s.len() - from,
{
    if from < s.len() && key_char(s[from]) {
        lemma_key_run_end(s, from + 1);
    }
}

/// An `sk-` key starts at `i` (followed by at least one letter or digit).
pub open spec fn sk_key_at(s: Seq<char>, i: int) -> bool {
    0 <= i && i + 3 < s.len() && s[i] == 's' && s[i + 1] == 'k' && s[i + 2] == '-' && ascii_alnum(
        s[i + 3],
    )
}

/// `s[i..]` with each `sk-` key replaced by `sk-***`.
pub open spec fn redact_log_keys(s: Seq<char>, i: int) -> Seq<char>
    decreases s.len() - i,
{
    if i < 0 || i >= s.len() {
        seq![]
    } else if sk_key_at(s, i) {
        proof {
            lemma_key_run_end(s, i + 3);
        }
        "sk-***"@ + redact_log_keys(s, key_run_end(s, i + 3))
    } else {
        seq![s[i]] + redact_log_keys(s, i + 1)
    }
}

/// The redacted log line.
pub open spec fn redacted_log(s: Seq<char>) -> Seq<char> {
    redact_log_keys(redact_log_bearer(s), 0)
}

fn bearer_pass(message: &str) -> (r: String)
    ensures
        r@ == redact_log_bearer(message@),
{
    let v = chars_of(message);
    let lower = lower_str(message);
    let lv = chars_of(lower.as_str());
    let needle = chars_of("bearer ");
    proof {
        reveal_strlit("bearer ");
    }
    match find_chars(lv.as_slice(), needle.as_slice()) {
        None => string_of_range(v.as_slice(), 0, v.len()),
        Some(idx) => {
            assert(lv@.len() == v@.len());
            assert(needle@.len() == 7);
            assert(crate::text::occurs_at(lv@, needle@, idx as int));
            let n = lv.len();
            assert(idx + 7 <= n);
            let start = idx + 7;
            let mut e = start;
            while e < v.len() && !is_whitespace(v[e])
                invariant
                    start <= e <= v@.len(),
                    ws_end(v@, start as int) == ws_end(v@, e as int),
                decreases v.len() - e,
            {
                e = e + 1;
            }
            if e > start {
                let mut out = string_of_range(v.as_slice(), 0, start);
                push_str(&mut out, "***");
                let tail = string_of_range(v.as_slice(), e, v.len());
                push_str(&mut out, tail.as_str());
                assert(v@.subrange(0, start as int) == v@.take(start as int));
                assert(v@.subrange(e as int, v@.len() as int) == v@.skip(e as int));
                out
            } else {
                string_of_range(v.as_slice(), 0, v.len())
            }
        },
    }
}

/// Redact a log line: the token after `bearer ` becomes `***`, and each `sk-` key
/// becomes `sk-***`.
pub fn redact_log_message(message: &str) -> (r: String)
    ensures
        r@ == redacted_log(message@),
{
    let first = bearer_pass(message);
    let v = chars_of(first.as_str());
    let mut out = String::new();
    let mut i: usize = 0;
    proof {
        reveal_strlit("sk-***");
    }
    while i < v.len()
        invariant
            0 <= i <= v@.len(),
            v@ == redact_log_bearer(message@),
            out@ + redact_log_keys(v@, i as int) == redact_log_keys(v@, 0),
        decreases v.len() - i,
    {
        if v.len() - i > 3 && v[i] == 's' && v[i + 1] == 'k' && v[i + 2] == '-' && (('0' <= v[i + 3]
            && v[i + 3] <= '9') || ('a' <= v[i + 3] && v[i + 3] <= 'z') || ('A' <= v[i + 3] && v[i
            + 3] <= 'Z')) {
            let ghost at = i as int;
            push_str(&mut out, "sk-***");
            i = i + 3;
            while i < v.len() && (('0' <= v[i] && v[i] <= '9') || ('a' <= v[i] && v[i] <= 'z') || (
            'A' <= v[i] && v[i] <= 'Z') || v[i] == '-' || v[i] == '_')
                invariant
                    at + 3 <= i <= v@.len(),
                    key_run_end(v@, at + 3) == key_run_end(v@, i as int),
                decreases v.len() - i,
            {
                i = i + 1;
            }
            proof {
                assert(sk_key_at(v@, at));
                assert(redact_log_keys(v@, at) == "sk-***"@ + redact_log_keys(v@, i as int));
            }
        } else {
            let ghost at = i as int;
            push_char(&mut out, v[i]);
            i = i + 1;
            proof {
                assert(!sk_key_at(v@, at));
            }
        }
    }
    out
}

/// How the text made from `b[i..]` begins: with `b[i]` copied (no key starts there), or
/// with the `sk-***` marker of a key that starts there.
pub open spec fn log_redact_start(b: Seq<char>, i: int, t: Seq<char>) -> bool {
    t.len() > 0 ==> 0 <= i < b.len() && {
        ||| t[0] == b[i] && !sk_key_at(b, i)
        ||| sk_key_at(b, i) && t.len() >= 4 && t[0] == 's' && t[1] == 'k' && t[2] == '-' && t[3] == '*'
    }
}

proof fn lemma_log_keys_hidden(b: Seq<char>, i: int)
    requires
        0 <= i,
    ensures
        log_redact_start(b, i, redact_log_keys(b, i)),
        forall|j: int| !sk_key_at(#[trigger] redact_log_keys(b, i), j),
    decreases b.len() - i,
{
    let t = redact_log_keys(b, i);
    if i >= b.len() {
        return;
    }
    reveal_strlit("sk-***");
    if sk_key_at(b, i) {
        lemma_key_run_end(b, i + 3);
        let r = redact_log_keys(b, key_run_end(b, i + 3));
        lemma_log_keys_hidden(b, key_run_end(b, i + 3));
        let m = "sk-***"@;
        assert(t == m + r);
        assert forall|j: int| !sk_key_at(t, j) by {
            if j >= 6 {
                assert(!sk_key_at(r, j - 6));
                if sk_key_at(t, j) {
                    assert(t[j] == r[j - 6] && t[j + 1] == r[j - 5] && t[j + 2] == r[j - 4] && t[j + 3]
                        == r[j - 3]);
                }
            } else if 0 <= j {
                assert(t[j] == m[j]);
                assert(t[3] == m[3]);
            }
        }
    } else {
        let r = redact_log_keys(b, i + 1);
        lemma_log_keys_hidden(b, i + 1);
        assert(t == seq![b[i]] + r);
        assert forall|j: int| !sk_key_at(t, j) by {
            if j >= 1 {
                assert(!sk_key_at(r, j - 1));
                if sk_key_at(t, j) {
                    assert(t[j] == r[j - 1] && t[j + 1] == r[j] && t[j + 2] == r[j + 1] && t[j + 3]
                        == r[j + 2]);
                }
            } else if j == 0 && sk_key_at(t, 0) {
                assert(r[0] == 'k');
                assert(b[i + 1] == 'k');
                let r2 = redact_log_keys(b, i + 2);
                lemma_log_keys_hidden(b, i + 2);
                assert(r == seq![b[i + 1]] + r2);
                assert(r2[0] == '-');
                assert(b[i + 2] == '-');
                let r3 = redact_log_keys(b, i + 3);
                lemma_log_keys_hidden(b, i + 3);
                assert(r2 == seq![b[i + 2]] + r3);
                assert(ascii_alnum(r3[0]));
                assert(ascii_alnum(b[i + 3]));
                assert(sk_key_at(b, i));
            }
        }
    }
}

/// No key survives in a log line: the redacted line holds no `sk-` followed by a letter
/// or digit.
pub proof fn law_log_keys_hidden(s: Seq<char>)
    ensures
        forall|j: int| !sk_key_at(#[trigger] redacted_log(s), j),
{
    lemma_log_keys_hidden(redact_log_bearer(s), 0);
}

proof fn lemma_log_clean_copied(s: Seq<char>, i: int)
    requires
        0 <= i <= s.len(),
        forall|k: int| !sk_key_at(s, k),
    ensures
        redact_log_keys(s, i) == s.skip(i),
    decreases s.len() - i,
{
    if i < s.len() {
        assert(!sk_key_at(s, i));
        lemma_log_clean_copied(s, i + 1);
        assert(s.skip(i) =~= seq![s[i]] + s.skip(i + 1));
    } else {
        assert(s.skip(i) =~= Seq::<char>::empty());
    }
}

/// A line with no `sk-` key and no `bearer ` (any ASCII case) is logged unchanged.
pub proof fn law_log_keeps_clean_line(s: Seq<char>)
    requires
        forall|k: int| !sk_key_at(s, k),
        !contains_seq(ascii_lower(s), "bearer "@),
    ensures
        redacted_log(s) == s,
{
    reveal(first_occurrence);
    assert(redact_log_bearer(s) == s);
    lemma_log_clean_copied(s, 0);
    assert(s.skip(0) =~= s);
}

} // verus!
