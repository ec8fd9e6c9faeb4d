//! Naming rules of the data directory: leftover temporary files, the daily log files and
//! their lines, and UUIDs read for path segments.
//!
//! The directory walking and the file operations themselves belong to the caller.

use vstd::prelude::*;

use crate::app_error::StorageError;
use crate::log_redact::{redact_log_message, redacted_log};
use crate::text::{
    ascii_lower, chars_of, contains_chars, contains_seq, decimal, occurs_at, occurs_at_exec, owned, push_char,
    push_str, starts_with_chars, string_of_range, trim, trim_str, u64_to_string,
};

verus! {

/// How many daily log files are kept.
pub const MAX_LOG_FILES: usize = 7;

// ---------------------------------------------------------------------------
// Temporary files and log files
// ---------------------------------------------------------------------------

/// Whether a file name is that of a temporary file an atomic write leaves behind: it
/// holds `.tmp-`.
pub fn is_temp_file_name(name: &str) -> (b: bool)
    ensures
        b == contains_seq(name@, ".tmp-"@),
{
    let v = chars_of(name);
    let p = chars_of(".tmp-");
    contains_chars(v.as_slice(), p.as_slice())
}

/// A daily log file's name: `mprism.` at the start and `.log` at the end.
pub open spec fn log_name(name: Seq<char>) -> bool {
    &&& "mprism."@.is_prefix_of(name)
    &&& name.len() >= 4
    &&& occurs_at(name, ".log"@, name.len() - 4)
}

/// Whether a file name is that of a daily log file.
pub fn is_log_file_name(name: &str) -> (b: bool)
    ensures
        b == log_name(name@),
{
    proof {
        reveal_strlit("mprism.");
        reveal_strlit(".log");
    }
    let v = chars_of(name);
    let p = chars_of("mprism.");
    let s = chars_of(".log");
    if !starts_with_chars(v.as_slice(), p.as_slice()) || v.len() < 4 {
        return false;
    }
    occurs_at_exec(v.as_slice(), s.as_slice(), v.len() - 4)
}

/// `s` with `0`s in front up to `w` characters (`{:0w}` on a number).
pub open spec fn zero_pad(s: Seq<char>, w: nat) -> Seq<char> {
    if s.len() >= w {
        s
    } else {
        Seq::new((w - s.len()) as nat, |i: int| '0') + s
    }
}

fn push_zero_padded(out: &mut String, n: u64, w: usize)
    requires
        w <= 8,
    ensures
        final(out)@ == old(out)@ + zero_pad(decimal(n as nat), w as nat),
{
    let d = u64_to_string(n);
    let len = chars_of(d.as_str()).len();
    let mut i: usize = len;
    let ghost before = out@;
    while i < w
        invariant
            len == d@.len(),
            len <= i,
            i <= w || len >= w,
            len >= w ==> i == len,
            out@ == before + Seq::new((i - len) as nat, |k: int| '0'),
        decreases w - i,
    {
        push_char(out, '0');
        assert(Seq::new((i - len) as nat, |k: int| '0').push('0') =~= Seq::new(
            (i + 1 - len) as nat,
            |k: int| '0',
        ));
        i = i + 1;
    }
    push_str(out, d.as_str());
    proof {
        if len >= w {
            assert(i == len);
            assert(Seq::new((i - len) as nat, |k: int| '0') =~= Seq::<char>::empty());
            assert(before + Seq::<char>::empty() == before);
        } else {
            assert(i == w);
        }
        assert(before + Seq::new((i - len) as nat, |k: int| '0') + d@ =~= before + zero_pad(
            decimal(n as nat),
            w as nat,
        ));
    }
}

/// `{:04}` of a year: four digits, or `-` and three for a negative year.
pub open spec fn year_text(year: int) -> Seq<char> {
    if year < 0 {
        seq!['-'] + zero_pad(decimal((-year) as nat), 3)
    } else {
        zero_pad(decimal(year as nat), 4)
    }
}

/// The name of the log file of a day: `mprism.YYYY-MM-DD.log`.
pub open spec fn log_file_text(year: int, month: nat, day: nat) -> Seq<char> {
    "mprism."@ + year_text(year) + "-"@ + zero_pad(decimal(month), 2) + "-"@ + zero_pad(
        decimal(day),
        2,
    ) + ".log"@
}

/// The name of the log file of a day.
pub fn log_file_name(year: i32, month: u8, day: u8) -> (r: String)
    ensures
        r@ == log_file_text(year as int, month as nat, day as nat),
{
    let mut r = owned("mprism.");
    if year < 0 {
        push_char(&mut r, '-');
        let y: u64 = (-(year as i64)) as u64;
        push_zero_padded(&mut r, y, 3);
    } else {
        push_zero_padded(&mut r, year as u64, 4);
    }
    push_str(&mut r, "-");
    push_zero_padded(&mut r, month as u64, 2);
    push_str(&mut r, "-");
    push_zero_padded(&mut r, day as u64, 2);
    push_str(&mut r, ".log");
    proof {
        let y = year as int;
        if y < 0 {
            assert(seq!['-'] + zero_pad(decimal((-y) as nat), 3) == year_text(y));
        }
    }
    assert(r@ =~= log_file_text(year as int, month as nat, day as nat));
    r
}

/// One line of the log: time, level, the redacted message, and a line break.
pub fn log_line(timestamp: &str, level: &str, message: &str) -> (r: String)
    ensures
        r@ == timestamp@ + " "@ + level@ + " "@ + redacted_log(message@) + "\n"@,
{
    let mut r = owned(timestamp);
    push_str(&mut r, " ");
    push_str(&mut r, level);
    push_str(&mut r, " ");
    let safe = redact_log_message(message);
    push_str(&mut r, safe.as_str());
    push_str(&mut r, "\n");
    r
}

// ---------------------------------------------------------------------------
// UUIDs in paths
// ---------------------------------------------------------------------------

/// `char::len_utf8`: the bytes UTF-8 takes for `c`.
pub open spec fn utf8_width(c: char) -> nat {
    if (c as u32) < 0x80 {
        1
    } else if (c as u32) < 0x800 {
        2
    } else if (c as u32) < 0x10000 {
        3
    } else {
        4
    }
}

/// `str::len`: the bytes of the UTF-8 form of `s`.
pub open spec fn utf8_len(s: Seq<char>) -> nat
    decreases s.len(),
{
    if s.len() == 0 {
        0
    } else {
        utf8_len(s.drop_last()) + utf8_width(s.last())
    }
}

/// Byte `n` of `s` begins a character (or ends the text).
pub open spec fn byte_boundary(s: Seq<char>, n: nat) -> bool {
    exists|k: int| 0 <= k <= s.len() && utf8_len(#[trigger] s.take(k)) == n
}

/// What an error may show of a text that is not a UUID: `<invalid>` when it takes at
/// most 12 bytes once trimmed, else its first 8 bytes and `…`.
pub open spec fn path_fragment(raw: Seq<char>) -> Seq<char> {
    let t = trim(raw);
    if utf8_len(t) <= 12 {
        "<invalid>"@
    } else {
        t.take(choose|k: int| 0 <= k <= t.len() && utf8_len(#[trigger] t.take(k)) == 8) + "…"@
    }
}

fn char_width(c: char) -> (n: usize)
    ensures
        n == utf8_width(c),
{
    let u = c as u32;
    if u < 0x80 {
        1
    } else if u < 0x800 {
        2
    } else if u < 0x10000 {
        3
    } else {
        4
    }
}

proof fn lemma_take_step(s: Seq<char>, k: int)
    requires
        0 <= k < s.len(),
    ensures
        utf8_len(s.take(k + 1)) == utf8_len(s.take(k)) + utf8_width(s[k]),
{
    assert(s.take(k + 1).drop_last() =~= s.take(k));
}

proof fn lemma_take_increasing(s: Seq<char>, j: int, k: int)
    requires
        0 <= j < k <= s.len(),
    ensures
        utf8_len(s.take(j)) < utf8_len(s.take(k)),
    decreases k - j,
{
    lemma_take_step(s, k - 1);
    if j < k - 1 {
        lemma_take_increasing(s, j, k - 1);
    }
}

/// The fragment of a bad id that an error shows.
fn redact_path_fragment(raw: &str) -> (r: String)
    requires
        utf8_len(trim(raw@)) <= 12 || byte_boundary(trim(raw@), 8),
    ensures
        r@ == path_fragment(raw@),
{
    let t = trim_str(raw);
    let v = chars_of(t.as_str());
    let ghost s = v@;
    let mut i: usize = 0;
    let mut bytes: usize = 0;
    while i < v.len() && bytes <= 12
        invariant
            s == v@,
            0 <= i <= v@.len(),
            bytes == utf8_len(s.take(i as int)),
            bytes <= 16,
        decreases v.len() - i,
    {
        proof {
            lemma_take_step(s, i as int);
        }
        bytes = bytes + char_width(v[i]);
        i = i + 1;
    }
    if bytes <= 12 {
        assert(s.take(i as int) =~= s);
        proof {
            reveal_strlit("<invalid>");
        }
        return owned("<invalid>");
    }
    proof {
        if i < s.len() {
            lemma_take_increasing(s, i as int, s.len() as int);
        }
        assert(s.take(s.len() as int) =~= s);
    }
    let ghost k0 = choose|k: int| 0 <= k <= s.len() && utf8_len(#[trigger] s.take(k)) == 8;
    let n = v.len();
    let mut j: usize = 0;
    let mut pref: usize = 0;
    while pref < 8
        invariant
            s == v@,
            n == v@.len(),
            0 <= k0 <= s.len(),
            utf8_len(s.take(k0)) == 8,
            0 <= j <= k0,
            pref == utf8_len(s.take(j as int)),
        decreases 8 - pref,
    {
        proof {
            if j == k0 {
                assert(false);
            }
            lemma_take_step(s, j as int);
            if j + 1 < k0 {
                lemma_take_increasing(s, j + 1, k0);
            }
        }
        pref = pref + char_width(v[j]);
        j = j + 1;
    }
    proof {
        if j < k0 {
            lemma_take_increasing(s, j as int, k0);
        }
    }
    assert(j == k0);
    let mut r = string_of_range(v.as_slice(), 0, j);
    push_str(&mut r, "…");
    assert(s.subrange(0, j as int) == s.take(j as int));
    r
}

/// The value of a hexadecimal digit (either case), if `c` is one.
pub open spec fn hex_digit(c: char) -> Option<int> {
    if '0' <= c <= '9' {
        Some(c as int - '0' as int)
    } else if 'a' <= c <= 'f' {
        Some(c as int - 'a' as int + 10)
    } else if 'A' <= c <= 'F' {
        Some(c as int - 'A' as int + 10)
    } else {
        None
    }
}

/// Every character is a hexadecimal digit.
pub open spec fn all_hex(s: Seq<char>) -> bool {
    forall|i: int| 0 <= i < s.len() ==> (#[trigger] hex_digit(s[i])) is Some
}

/// The number the hexadecimal digits spell, most significant first.
pub open spec fn hex_value(s: Seq<char>) -> int
    decreases s.len(),
{
    if s.len() == 0 {
        0
    } else {
        hex_value(s.drop_last()) * 16 + hex_digit(s.last()).unwrap_or(0)
    }
}

/// The 32 digits of the hyphenated form (8-4-4-4-12, `-` at 8, 13, 18 and 23), when `s`
/// has that form.
pub open spec fn hyphenated_digits(s: Seq<char>) -> Option<Seq<char>> {
    if s.len() == 36 && s[8] == '-' && s[13] == '-' && s[18] == '-' && s[23] == '-' {
        Some(s.subrange(0, 8) + s.subrange(9, 13) + s.subrange(14, 18) + s.subrange(19, 23) + s.subrange(24, 36))
    } else {
        None
    }
}

/// The 32 digits of a UUID text in one of the forms `uuid::Uuid::parse_str` reads: 32
/// digits; the hyphenated form; the hyphenated form in braces; or `urn:uuid:` (any ASCII
/// case) and the hyphenated form.
pub open spec fn uuid_digits(text: Seq<char>) -> Option<Seq<char>> {
    if text.len() == 32 {
        Some(text)
    } else if text.len() == 36 {
        hyphenated_digits(text)
    } else if text.len() == 38 && text[0] == '{' && text[37] == '}' {
        hyphenated_digits(text.subrange(1, 37))
    } else if text.len() == 45 && ascii_lower(text.take(9)) == "urn:uuid:"@ {
        hyphenated_digits(text.skip(9))
    } else {
        None
    }
}

/// The UUID that `uuid::Uuid::parse_str` reads from a text, as a `u128` (the digits read
/// as one big-endian number); `None` when the text has none of its forms or a digit
/// place holds something other than a hexadecimal digit.
pub open spec fn uuid_parse(text: Seq<char>) -> Option<u128> {
    match uuid_digits(text) {
        Some(d) => if all_hex(d) {
            Some(hex_value(d) as u128)
        } else {
            None
        },
        None => None,
    }
}

/// `Uuid::parse_str(text)`, the UUID as a `u128`, as `uuid_parse` spells it out.
#[verifier::external_body]
pub(crate) fn parse_uuid(text: &str) -> (r: Option<u128>)
    ensures
        r == uuid_parse(text@),
{
    match uuid::Uuid::parse_str(text) {
        Ok(u) => Some(u.as_u128()),
        Err(_) => None,
    }
}

/// Read a UUID sent by the window before it names a path: the UUID in the trimmed text,
/// or an unsafe-path error that shows at most the first 8 bytes of the text.
pub fn parse_uuid_for_path(raw: &str) -> (r: Result<u128, StorageError>)
    requires
        utf8_len(trim(raw@)) <= 12 || byte_boundary(trim(raw@), 8),
    ensures
        match uuid_parse(trim(raw@)) {
            Some(id) => r == Ok::<u128, StorageError>(id),
            None => r matches Err(StorageError::UnsafePath(m)) && m@ == "无效的 UUID: "@ + path_fragment(
                raw@,
            ),
        },
{
    let t = trim_str(raw);
    match parse_uuid(t.as_str()) {
        Some(id) => Ok(id),
        None => {
            let mut m = owned("无效的 UUID: ");
            let f = redact_path_fragment(raw);
            push_str(&mut m, f.as_str());
            Err(StorageError::UnsafePath(m))
        },
    }
}

// ---------------------------------------------------------------------------
// Pruning the log directory
// ---------------------------------------------------------------------------

/// `a` sorts before `b` as file names do: character by character by code point, a
/// proper prefix first (the order of their UTF-8 bytes).
pub open spec fn name_lt(a: Seq<char>, b: Seq<char>) -> bool
    decreases a.len(),
{
    if a.len() == 0 {
        b.len() > 0
    } else if b.len() == 0 {
        false
    } else if a[0] != b[0] {
        (a[0] as u32) < (b[0] as u32)
    } else {
        name_lt(a.drop_first(), b.drop_first())
    }
}

proof fn lemma_name_lt_trans(a: Seq<char>, b: Seq<char>, c: Seq<char>)
    requires
        name_lt(a, b),
        name_lt(b, c),
    ensures
        name_lt(a, c),
    decreases a.len(),
{
    if a.len() > 0 && a[0] == b[0] && b[0] == c[0] {
        lemma_name_lt_trans(a.drop_first(), b.drop_first(), c.drop_first());
    }
}

proof fn lemma_name_lt_irrefl(a: Seq<char>)
    ensures
        !name_lt(a, a),
    decreases a.len(),
{
    if a.len() > 0 {
        lemma_name_lt_irrefl(a.drop_first());
    }
}

fn name_lt_exec(a: &Vec<char>, b: &Vec<char>) -> (r: bool)
    ensures
        r == name_lt(a@, b@),
{
    assert(a@.skip(0) =~= a@);
    assert(b@.skip(0) =~= b@);
    let mut i: usize = 0;
    while i < a.len() && i < b.len() && a[i] == b[i]
        invariant
            0 <= i <= a@.len(),
            i <= b@.len(),
            name_lt(a@, b@) == name_lt(a@.skip(i as int), b@.skip(i as int)),
        decreases a.len() - i,
    {
        assert(a@.skip(i as int).drop_first() =~= a@.skip(i + 1));
        assert(b@.skip(i as int).drop_first() =~= b@.skip(i + 1));
        i = i + 1;
    }
    if i == a.len() {
        i < b.len()
    } else if i == b.len() {
        false
    } else {
        (a[i] as u32) < (b[i] as u32)
    }
}

/// How many of the names are log files.
pub open spec fn log_count(names: Seq<Seq<char>>) -> nat
    decreases names.len(),
{
    if names.len() == 0 {
        0
    } else {
        log_count(names.drop_last()) + if log_name(names.last()) {
            1nat
        } else {
            0nat
        }
    }
}

/// How many log files to delete so that at most seven stay.
pub open spec fn excess_logs(names: Seq<Seq<char>>) -> nat {
    if log_count(names) > MAX_LOG_FILES {
        (log_count(names) - MAX_LOG_FILES) as nat
    } else {
        0
    }
}

/// `r` lists the log files to delete: `excess_logs` distinct log files, oldest (first by
/// name) first, and none of the logs kept sorts before one that goes.
pub open spec fn prune_choice(names: Seq<Seq<char>>, r: Seq<usize>) -> bool {
    &&& r.len() == excess_logs(names)
    &&& forall|i: int| 0 <= i < r.len() ==> (#[trigger] r[i]) < names.len() && log_name(names[r[i] as int])
    &&& forall|i: int, j: int| 0 <= i < j < r.len() ==> #[trigger] r[i] != #[trigger] r[j]
    &&& forall|i: int, j: int|
        0 <= i < j < r.len() ==> !name_lt(names[#[trigger] r[j] as int], names[#[trigger] r[i] as int])
    &&& forall|i: int, x: int|
        0 <= i < r.len() && 0 <= x < names.len() && log_name(names[x]) && !r.contains(x as usize)
            ==> !name_lt(#[trigger] names[x], names[#[trigger] r[i] as int])
}

/// The views of some strings.
pub open spec fn names_view(v: Seq<String>) -> Seq<Seq<char>> {
    v.map_values(|s: String| s@)
}

proof fn lemma_log_count_bound(names: Seq<Seq<char>>)
    ensures
        log_count(names) <= names.len(),
    decreases names.len(),
{
    if names.len() > 0 {
        lemma_log_count_bound(names.drop_last());
    }
}

/// The log files to delete from a directory listing (`names`, in any order): all but the
/// seven that come last by name.
pub fn logs_to_prune(names: &Vec<String>) -> (r: Vec<usize>)
    ensures
        prune_choice(names_view(names@), r@),
{
    let ghost ns = names_view(names@);
    let mut chars: Vec<Vec<char>> = Vec::new();
    let mut is_log: Vec<bool> = Vec::new();
    let mut count: usize = 0;
    let mut i: usize = 0;
    while i < names.len()
        invariant
            ns == names_view(names@),
            0 <= i <= names@.len(),
            chars@.len() == i,
            is_log@.len() == i,
            forall|k: int| 0 <= k < i ==> (#[trigger] chars@[k])@ == ns[k],
            forall|k: int| 0 <= k < i ==> #[trigger] is_log@[k] == log_name(ns[k]),
            count == log_count(ns.take(i as int)),
            count <= i,
        decreases names.len() - i,
    {
        let b = is_log_file_name(names[i].as_str());
        chars.push(chars_of(names[i].as_str()));
        is_log.push(b);
        assert(ns.take(i + 1).drop_last() =~= ns.take(i as int));
        if b {
            count = count + 1;
        }
        i = i + 1;
    }
    assert(ns.take(names@.len() as int) =~= ns);
    let excess: usize = if count > MAX_LOG_FILES {
        count - MAX_LOG_FILES
    } else {
        0
    };
    let mut taken: Vec<bool> = Vec::new();
    let mut k: usize = 0;
    while k < names.len()
        invariant
            0 <= k <= names@.len(),
            taken@.len() == k,
            forall|x: int| 0 <= x < k ==> !(#[trigger] taken@[x]),
        decreases names.len() - k,
    {
        taken.push(false);
        k = k + 1;
    }
    let mut out: Vec<usize> = Vec::new();
    proof {
        lemma_open_initial(ns, is_log@, taken@, names@.len() as int);
    }
    while out.len() < excess
        invariant
            ns == names_view(names@),
            chars@.len() == names@.len(),
            is_log@.len() == names@.len(),
            taken@.len() == names@.len(),
            forall|x: int| 0 <= x < names@.len() ==> (#[trigger] chars@[x])@ == ns[x],
            forall|x: int| 0 <= x < names@.len() ==> #[trigger] is_log@[x] == log_name(ns[x]),
            count == log_count(ns),
            excess == excess_logs(ns),
            out@.len() <= excess,
            excess <= count,
            open_logs(is_log@, taken@, names@.len() as int) + out@.len() == count,
            forall|x: int| 0 <= x < names@.len() ==> (#[trigger] taken@[x] <==> out@.contains(x as usize)),
            forall|i: int| 0 <= i < out@.len() ==> (#[trigger] out@[i]) < names@.len() && log_name(ns[out@[i] as int]),
            forall|i: int, j: int| 0 <= i < j < out@.len() ==> #[trigger] out@[i] != #[trigger] out@[j],
            forall|i: int, j: int|
                0 <= i < j < out@.len() ==> !name_lt(ns[#[trigger] out@[j] as int], ns[#[trigger] out@[i] as int]),
            forall|i: int, x: int|
                0 <= i < out@.len() && 0 <= x < names@.len() && log_name(ns[x]) && !out@.contains(x as usize)
                    ==> !name_lt(#[trigger] ns[x], ns[#[trigger] out@[i] as int]),
        decreases excess - out@.len(),
    {
        let mut best: Option<usize> = None;
        let mut x: usize = 0;
        while x < chars.len()
            invariant
                ns == names_view(names@),
                chars@.len() == names@.len(),
                is_log@.len() == names@.len(),
                taken@.len() == names@.len(),
                forall|y: int| 0 <= y < names@.len() ==> (#[trigger] chars@[y])@ == ns[y],
                forall|y: int| 0 <= y < names@.len() ==> #[trigger] is_log@[y] == log_name(ns[y]),
                0 <= x <= names@.len(),
                best matches Some(b) ==> b < x && is_log@[b as int] && !taken@[b as int],
                forall|y: int|
                    0 <= y < x && is_log@[y] && !taken@[y] ==> best is Some && !name_lt(
                        #[trigger] ns[y],
                        ns[best->0 as int],
                    ),
            decreases names.len() - x,
        {
            if is_log[x] && !taken[x] {
                let better = match best {
                    None => true,
                    Some(b) => name_lt_exec(&chars[x], &chars[b]),
                };
                if better {
                    proof {
                        lemma_name_lt_irrefl(ns[x as int]);
                        if let Some(b) = best {
                            assert forall|y: int|
                                0 <= y < x && is_log@[y] && !taken@[y] implies !name_lt(
                                #[trigger] ns[y],
                                ns[x as int],
                            ) by {
                                if name_lt(ns[y], ns[x as int]) {
                                    lemma_name_lt_trans(ns[y], ns[x as int], ns[b as int]);
                                }
                            }
                        }
                    }
                    best = Some(x);
                }
            }
            x = x + 1;
        }
        proof {
            // Fewer logs are chosen than there are: one is left, so `best` is set.
            if best is None {
                lemma_open_positive(is_log@, taken@, names@.len() as int);
                let y = choose|y: int| 0 <= y < names@.len() && is_log@[y] && !taken@[y];
                assert(is_log@[y] && !taken@[y]);
            }
        }
        let b = best.unwrap();
        let ghost before = out@;
        let ghost taken0 = taken@;
        out.push(b);
        taken.set(b, true);
        proof {
            lemma_open_take(is_log@, taken0, b as int, names@.len() as int);
            assert forall|y: int| 0 <= y < names@.len() implies (#[trigger] taken@[y] <==> out@.contains(
                y as usize,
            )) by {
                if y == b {
                    assert(out@[before.len() as int] == b);
                } else {
                    if out@.contains(y as usize) {
                        let t = choose|t: int| 0 <= t < out@.len() && out@[t] == y as usize;
                        assert(t < before.len());
                        assert(before.contains(y as usize));
                    }
                    if before.contains(y as usize) {
                        let t = choose|t: int| 0 <= t < before.len() && before[t] == y as usize;
                        assert(out@[t] == y as usize);
                    }
                }
            }
            assert forall|i: int, y: int|
                0 <= i < out@.len() && 0 <= y < names@.len() && log_name(ns[y]) && !out@.contains(y as usize)
                    implies !name_lt(#[trigger] ns[y], ns[#[trigger] out@[i] as int]) by {
                assert(!before.contains(y as usize)) by {
                    if before.contains(y as usize) {
                        let t = choose|t: int| 0 <= t < before.len() && before[t] == y as usize;
                        assert(out@[t] == y as usize);
                    }
                }
                assert(!taken@[y] || y == b);
                if i < before.len() {
                    assert(out@[i] == before[i]);
                }
            }
            assert forall|i: int, j: int|
                0 <= i < j < out@.len() implies !name_lt(ns[#[trigger] out@[j] as int], ns[#[trigger] out@[i] as int]) by {
                if j == before.len() {
                    assert(out@[i] == before[i]);
                    assert(!before.contains(b));
                }
            }
            assert forall|i: int, j: int| 0 <= i < j < out@.len() implies #[trigger] out@[i] != #[trigger] out@[j] by {
                if j == before.len() {
                    assert(out@[i] == before[i]);
                    assert(before.contains(before[i]));
                }
            }
        }
    }
    out
}

/// How many of the first `n` entries are logs not yet chosen.
pub open spec fn open_logs(is_log: Seq<bool>, taken: Seq<bool>, n: int) -> nat
    decreases n,
{
    if n <= 0 {
        0
    } else {
        open_logs(is_log, taken, n - 1) + if is_log[n - 1] && !taken[n - 1] {
            1nat
        } else {
            0nat
        }
    }
}

proof fn lemma_open_initial(ns: Seq<Seq<char>>, is_log: Seq<bool>, taken: Seq<bool>, n: int)
    requires
        0 <= n <= ns.len(),
        is_log.len() == ns.len(),
        taken.len() == ns.len(),
        forall|x: int| 0 <= x < ns.len() ==> #[trigger] is_log[x] == log_name(ns[x]),
        forall|x: int| 0 <= x < ns.len() ==> !(#[trigger] taken[x]),
    ensures
        open_logs(is_log, taken, n) == log_count(ns.take(n)),
    decreases n,
{
    if n > 0 {
        lemma_open_initial(ns, is_log, taken, n - 1);
        assert(ns.take(n).drop_last() =~= ns.take(n - 1));
    }
}

proof fn lemma_open_take(is_log: Seq<bool>, taken: Seq<bool>, b: int, n: int)
    requires
        0 <= b < taken.len(),
        0 <= n <= taken.len(),
        is_log.len() == taken.len(),
        is_log[b],
        !taken[b],
    ensures
        open_logs(is_log, taken.update(b, true), n) + (if b < n {
            1int
        } else {
            0int
        }) == open_logs(is_log, taken, n),
    decreases n,
{
    if n > 0 {
        lemma_open_take(is_log, taken, b, n - 1);
    }
}

proof fn lemma_open_positive(is_log: Seq<bool>, taken: Seq<bool>, n: int)
    requires
        0 <= n <= taken.len(),
        is_log.len() == taken.len(),
        open_logs(is_log, taken, n) > 0,
    ensures
        exists|y: int| 0 <= y < n && is_log[y] && !taken[y],
    decreases n,
{
    if n > 0 && !(is_log[n - 1] && !taken[n - 1]) {
        lemma_open_positive(is_log, taken, n - 1);
    }
}

} // verus!
