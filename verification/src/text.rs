//! Characters and lines: whitespace, line terminators, and the split of a
//! header line into identifier and description.

use vstd::prelude::*;
use vstd::string::*;
use vstd::utf8::*;

verus! {

/// Whether `c` has the Unicode property White_Space.
pub open spec fn is_space(c: char) -> bool {
    let u = c as u32;
    ||| 0x09 <= u <= 0x0D
    ||| u == 0x20
    ||| u == 0x85
    ||| u == 0xA0
    ||| u == 0x1680
    ||| 0x2000 <= u <= 0x200A
    ||| u == 0x2028
    ||| u == 0x2029
    ||| u == 0x202F
    ||| u == 0x205F
    ||| u == 0x3000
}

/// Whether `c` is a whitespace character.
pub fn is_whitespace(c: char) -> (b: bool)
    ensures
        b == is_space(c),
{
    let u: u32 = c as u32;
    (0x09 <= u && u <= 0x0D) || u == 0x20 || u == 0x85 || u == 0xA0 || u == 0x1680 || (0x2000 <= u
        && u <= 0x200A) || u == 0x2028 || u == 0x2029 || u == 0x202F || u == 0x205F || u == 0x3000
}

/// A line without its terminator: one trailing line feed is removed if there
/// is one, then one trailing carriage return if there is one.
pub open spec fn strip_terminator(raw: Seq<char>) -> Seq<char> {
    let a = if raw.len() > 0 && raw.last() == '\n' {
        raw.drop_last()
    } else {
        raw
    };
    if a.len() > 0 && a.last() == '\r' {
        a.drop_last()
    } else {
        a
    }
}

/// `String::pop` removes the last character and returns it; on an empty
/// string it returns `None` and changes nothing.
pub assume_specification[ String::pop ](s: &mut String) -> (r: Option<char>)
    ensures
        old(s)@.len() == 0 ==> r.is_none() && final(s)@ == old(s)@,
        old(s)@.len() > 0 ==> r == Some(old(s)@.last()) && final(s)@ == old(s)@.drop_last(),
;

/// `str::ends_with` on a single character: whether `s` is non-empty and its
/// last character is `c`.
#[verifier::external_body]
fn ends_with_char(s: &str, c: char) -> (b: bool)
    ensures
        b == (s@.len() > 0 && s@.last() == c),
{
    s.ends_with(c)
}

/// Whether `s` is non-empty and its first character is `c`.
pub fn starts_with_char(s: &str, c: char) -> (b: bool)
    ensures
        b == (s@.len() > 0 && s@[0] == c),
{
    !s.is_empty() && s.get_char(0) == c
}

/// Removes the line terminator from `raw` in place.
pub fn strip_line(raw: &mut String)
    ensures
        final(raw)@ == strip_terminator(old(raw)@),
{
    if ends_with_char(raw.as_str(), '\n') {
        let _ = raw.pop();
    }
    if ends_with_char(raw.as_str(), '\r') {
        let _ = raw.pop();
    }
}

/// The characters of `s`, in order.
pub fn chars_of(s: &str) -> (v: Vec<char>)
    ensures
        v@ == s@,
{
    let mut v: Vec<char> = Vec::new();
    for c in it: s.chars()
        invariant
            v@ == it.seq().take(it.index@),
    {
        v.push(c);
    }
    v
}

/// Length of the longest prefix of `s` that holds no whitespace.
pub open spec fn token_len(s: Seq<char>) -> nat
    decreases s.len(),
{
    if s.len() == 0 || is_space(s[0]) {
        0
    } else {
        1 + token_len(s.skip(1))
    }
}

/// `s` without its leading whitespace.
pub open spec fn trim_start(s: Seq<char>) -> Seq<char>
    decreases s.len(),
{
    if s.len() > 0 && is_space(s[0]) {
        trim_start(s.skip(1))
    } else {
        s
    }
}

/// `s` without its trailing whitespace.
pub open spec fn trim_end(s: Seq<char>) -> Seq<char>
    decreases s.len(),
{
    if s.len() > 0 && is_space(s.last()) {
        trim_end(s.drop_last())
    } else {
        s
    }
}

/// `s` without leading and trailing whitespace.
pub open spec fn trim(s: Seq<char>) -> Seq<char> {
    trim_end(trim_start(s))
}

/// What follows the first character of a header line.
pub open spec fn header_body(header: Seq<char>) -> Seq<char> {
    if header.len() > 0 {
        header.skip(1)
    } else {
        header
    }
}

/// The identifier of a header line: what stands between its first character
/// and the first whitespace.
pub open spec fn header_id(header: Seq<char>) -> Seq<char> {
    let body = header_body(header);
    body.take(token_len(body) as int)
}

/// The description of a header line: what follows the first whitespace,
/// trimmed; absent where the line holds no whitespace after its first
/// character.
pub open spec fn header_desc(header: Seq<char>) -> Option<Seq<char>> {
    let body = header_body(header);
    let k = token_len(body) as int;
    if k < body.len() {
        Some(trim(body.skip(k + 1)))
    } else {
        None
    }
}

/// The view of an optional string.
pub open spec fn opt_view(s: Option<String>) -> Option<Seq<char>> {
    match s {
        Some(t) => Some(t@),
        None => None,
    }
}

/// A prefix without whitespace that ends at a whitespace or at the end of `s`
/// is the longest such prefix.
pub proof fn lemma_token_len_is(s: Seq<char>, k: int)
    requires
        0 <= k <= s.len(),
        forall|j: int| 0 <= j < k ==> !is_space(#[trigger] s[j]),
        k < s.len() ==> is_space(s[k]),
    ensures
        token_len(s) == k,
    decreases s.len(),
{
    if s.len() == 0 || is_space(s[0]) {
        if k > 0 {
            assert(!is_space(s[0]));
        }
    } else {
        let t = s.skip(1);
        assert(k > 0);
        assert forall|j: int| 0 <= j < k - 1 implies !is_space(#[trigger] t[j]) by {
            assert(t[j] == s[j + 1]);
        }
        lemma_token_len_is(t, k - 1);
    }
}

/// Leading whitespace up to `a`, and none at `a`, fixes the result of
/// `trim_start`.
proof fn lemma_trim_start_is(s: Seq<char>, a: int)
    requires
        0 <= a <= s.len(),
        forall|j: int| 0 <= j < a ==> is_space(#[trigger] s[j]),
        a < s.len() ==> !is_space(s[a]),
    ensures
        trim_start(s) == s.skip(a),
    decreases s.len(),
{
    if s.len() > 0 && is_space(s[0]) {
        let t = s.skip(1);
        if a == 0 {
            assert(!is_space(s[0]));
        }
        assert forall|j: int| 0 <= j < a - 1 implies is_space(#[trigger] t[j]) by {
            assert(t[j] == s[j + 1]);
        }
        lemma_trim_start_is(t, a - 1);
        assert(t.skip(a - 1) =~= s.skip(a));
    } else {
        if a > 0 {
            assert(is_space(s[0]));
        }
        assert(s.skip(0) =~= s);
    }
}

/// Trailing whitespace from `b` on, and none before `b`, fixes the result of
/// `trim_end`.
proof fn lemma_trim_end_is(s: Seq<char>, b: int)
    requires
        0 <= b <= s.len(),
        forall|j: int| b <= j < s.len() ==> is_space(#[trigger] s[j]),
        b > 0 ==> !is_space(s[b - 1]),
    ensures
        trim_end(s) == s.take(b),
    decreases s.len(),
{
    if s.len() > 0 && is_space(s.last()) {
        let t = s.drop_last();
        if b == s.len() {
            assert(!is_space(s[b - 1]));
        }
        assert forall|j: int| b <= j < t.len() implies is_space(#[trigger] t[j]) by {
            assert(t[j] == s[j]);
        }
        lemma_trim_end_is(t, b);
        assert(t.take(b) =~= s.take(b));
    } else {
        if b < s.len() {
            assert(is_space(s[s.len() - 1]));
        }
        assert(s.take(s.len() as int) =~= s);
    }
}

/// Splits a header line into identifier and description.
pub fn split_header(header: &str) -> (r: (String, Option<String>))
    ensures
        r.0@ == header_id(header@),
        opt_view(r.1) == header_desc(header@),
{
    let chars = chars_of(header);
    let n = chars.len();
    if n == 0 {
        let id = header.substring_char(0, 0).to_owned();
        assert(id@ =~= header_id(header@));
        return (id, None);
    }
    let ghost body = header@.skip(1);
    let mut k: usize = 1;
    while k < n && !is_whitespace(chars[k])
        invariant
            1 <= k <= n,
            n == chars@.len(),
            chars@ == header@,
            body == header@.skip(1),
            forall|j: int| 0 <= j < k - 1 ==> !is_space(#[trigger] body[j]),
        decreases n - k,
    {
        k += 1;
    }
    proof {
        if k < n {
            assert(body[k - 1] == chars@[k as int]);
        }
        lemma_token_len_is(body, k - 1);
    }
    let id = header.substring_char(1, k).to_owned();
    assert(id@ =~= header_id(header@));
    if k == n {
        return (id, None);
    }
    let ghost rest = body.skip(k as int);
    assert(rest =~= header@.skip(k + 1));
    let mut a: usize = k + 1;
    while a < n && is_whitespace(chars[a])
        invariant
            k + 1 <= a <= n,
            n == chars@.len(),
            chars@ == header@,
            rest == header@.skip(k + 1),
            forall|j: int| 0 <= j < a - (k + 1) ==> is_space(#[trigger] rest[j]),
        decreases n - a,
    {
        a += 1;
    }
    proof {
        lemma_trim_start_is(rest, a - (k + 1));
    }
    let ghost lead = rest.skip(a - (k + 1));
    assert(lead =~= header@.skip(a as int));
    let mut b: usize = n;
    while b > a && is_whitespace(chars[b - 1])
        invariant
            a <= b <= n,
            n == chars@.len(),
            chars@ == header@,
            lead == header@.skip(a as int),
            forall|j: int| b - a <= j < lead.len() ==> is_space(#[trigger] lead[j]),
        decreases b,
    {
        b -= 1;
    }
    proof {
        if b > a {
            assert(lead[b - a - 1] == chars@[b - 1]);
        }
        lemma_trim_end_is(lead, b - a);
    }
    let desc = header.substring_char(a, b).to_owned();
    assert(desc@ =~= lead.take(b - a));
    (id, Some(desc))
}

/// The first bytes of the encoding of `line`, at most four.
pub open spec fn leading_bytes(line: Seq<char>) -> Seq<u8> {
    let bytes = encode_utf8(line);
    bytes.take(if bytes.len() < 4 { bytes.len() as int } else { 4 })
}

/// The first bytes of `line`, at most four.
pub fn first_bytes(line: &str) -> (v: Vec<u8>)
    ensures
        v@ == leading_bytes(line@),
{
    let bytes = line.as_bytes();
    let m: usize = if bytes.len() < 4 { bytes.len() } else { 4 };
    let mut v: Vec<u8> = Vec::new();
    let mut i: usize = 0;
    while i < m
        invariant
            i <= m <= bytes@.len(),
            v@ == bytes@.take(i as int),
        decreases m - i,
    {
        v.push(bytes[i]);
        assert(bytes@.take(i + 1) =~= bytes@.take(i as int).push(bytes@[i as int]));
        i += 1;
    }
    v
}

} // verus!
