//! Character-level text handling on which the launcher's naming and parsing rules rest.

use vstd::prelude::*;
use vstd::string::StrSliceExecFns;

verus! {

/// Calls `String::push`. Claimed: the string gains `c` at its end.
#[verifier::external_body]
fn push_char(s: &mut String, c: char)
    ensures
        final(s)@ == old(s)@.push(c),
{
    s.push(c);
}

/// The characters of a string slice, in order.
pub fn chars_of(s: &str) -> (v: Vec<char>)
    ensures
        v@ == s@,
{
    let n = s.unicode_len();
    let mut v: Vec<char> = Vec::new();
    let mut i: usize = 0;
    while i < n
        invariant
            n == s@.len(),
            i <= n,
            v@ == s@.take(i as int),
        decreases n - i,
    {
        let c = s.get_char(i);
        v.push(c);
        i = i + 1;
        assert(v@ =~= s@.take(i as int));
    }
    assert(v@ =~= s@);
    v
}

/// Builds a string from a sequence of characters.
pub fn string_of(v: &Vec<char>) -> (s: String)
    ensures
        s@ == v@,
{
    let mut s = String::new();
    let mut i: usize = 0;
    while i < v.len()
        invariant
            i <= v.len(),
            s@ == v@.take(i as int),
        decreases v.len() - i,
    {
        push_char(&mut s, v[i]);
        i = i + 1;
        assert(s@ =~= v@.take(i as int));
    }
    assert(v@.take(v.len() as int) =~= v@);
    s
}


/// Appends all of `tail` to `out`.
pub fn extend_chars(out: &mut Vec<char>, tail: &Vec<char>)
    ensures
        final(out)@ == old(out)@ + tail@,
{
    let mut i: usize = 0;
    while i < tail.len()
        invariant
            i <= tail.len(),
            out@ == old(out)@ + tail@.take(i as int),
        decreases tail.len() - i,
    {
        out.push(tail[i]);
        i = i + 1;
        assert(out@ =~= old(out)@ + tail@.take(i as int));
    }
    assert(tail@.take(tail.len() as int) =~= tail@);
}

/// Appends the characters of `tail` to `out`.
pub fn extend_str(out: &mut Vec<char>, tail: &str)
    ensures
        final(out)@ == old(out)@ + tail@,
{
    let t = chars_of(tail);
    extend_chars(out, &t);
}

/// The characters `s[lo..hi]`.
pub fn chars_between(s: &Vec<char>, lo: usize, hi: usize) -> (r: Vec<char>)
    requires
        lo <= hi <= s.len(),
    ensures
        r@ == s@.subrange(lo as int, hi as int),
{
    let mut r: Vec<char> = Vec::new();
    let mut i: usize = lo;
    while i < hi
        invariant
            lo <= i <= hi,
            hi <= s.len(),
            r@ == s@.subrange(lo as int, i as int),
        decreases hi - i,
    {
        r.push(s[i]);
        i = i + 1;
        assert(r@ =~= s@.subrange(lo as int, i as int));
    }
    r
}

// ---------------------------------------------------------------------
// Splitting on a separator character
// ---------------------------------------------------------------------

/// The pieces of `s` between occurrences of `sep`, as `str::split` with a
/// character pattern yields them: always at least one piece, empty pieces kept.
pub open spec fn spec_split(s: Seq<char>, sep: char) -> Seq<Seq<char>>
    decreases s.len(),
{
    if s.len() == 0 {
        seq![Seq::<char>::empty()]
    } else {
        let front = spec_split(s.drop_last(), sep);
        if s.last() == sep {
            front.push(Seq::<char>::empty())
        } else {
            front.update(front.len() - 1, front.last().push(s.last()))
        }
    }
}

pub proof fn lemma_split_nonempty(s: Seq<char>, sep: char)
    ensures
        spec_split(s, sep).len() >= 1,
    decreases s.len(),
{
    if s.len() > 0 {
        lemma_split_nonempty(s.drop_last(), sep);
    }
}

/// Text without the separator only lengthens the last piece.
pub proof fn lemma_split_append_plain(s: Seq<char>, t: Seq<char>, sep: char)
    requires
        forall|i: int| 0 <= i < t.len() ==> t[i] != sep,
    ensures
        spec_split(s + t, sep) == spec_split(s, sep).update(
            spec_split(s, sep).len() - 1,
            spec_split(s, sep).last() + t,
        ),
    decreases t.len(),
{
    lemma_split_nonempty(s, sep);
    if t.len() == 0 {
        assert(s + t =~= s);
        assert(spec_split(s, sep).last() + t =~= spec_split(s, sep).last());
        assert(spec_split(s, sep).update(spec_split(s, sep).len() - 1, spec_split(s, sep).last())
            =~= spec_split(s, sep));
    } else {
        let t0 = t.drop_last();
        lemma_split_append_plain(s, t0, sep);
        assert((s + t).drop_last() =~= s + t0);
        assert((s + t).last() == t.last());
        assert(spec_split(s, sep).last() + t0 + seq![t.last()] =~= spec_split(s, sep).last() + t);
        assert((spec_split(s, sep).last() + t0).push(t.last()) =~= spec_split(s, sep).last() + t);
        assert(spec_split(s + t, sep) =~= spec_split(s, sep).update(
            spec_split(s, sep).len() - 1,
            spec_split(s, sep).last() + t,
        ));
    }
}

/// Appending text keeps every piece but the last one.
pub proof fn lemma_split_prefix_kept(s: Seq<char>, t: Seq<char>, sep: char, k: int)
    requires
        0 <= k < spec_split(s, sep).len() - 1,
    ensures
        spec_split(s + t, sep).len() >= spec_split(s, sep).len(),
        spec_split(s + t, sep)[k] == spec_split(s, sep)[k],
    decreases t.len(),
{
    if t.len() == 0 {
        assert(s + t =~= s);
    } else {
        let t0 = t.drop_last();
        lemma_split_prefix_kept(s, t0, sep, k);
        assert((s + t).drop_last() =~= s + t0);
        lemma_split_nonempty(s + t0, sep);
    }
}

/// Splits `s` at every occurrence of `sep`.
pub fn split_chars(s: &Vec<char>, sep: char) -> (parts: Vec<Vec<char>>)
    ensures
        parts@.len() == spec_split(s@, sep).len(),
        forall|k: int| 0 <= k < parts@.len() ==> #[trigger] parts@[k]@ == spec_split(s@, sep)[k],
{
    let mut parts: Vec<Vec<char>> = Vec::new();
    let mut current: Vec<char> = Vec::new();
    let mut i: usize = 0;
    while i < s.len()
        invariant
            i <= s.len(),
            parts@.len() + 1 == spec_split(s@.take(i as int), sep).len(),
            forall|k: int| 0 <= k < parts@.len() ==> #[trigger] parts@[k]@ == spec_split(s@.take(i as int), sep)[k],
            current@ == spec_split(s@.take(i as int), sep).last(),
        decreases s.len() - i,
    {
        proof {
            lemma_split_nonempty(s@.take(i as int), sep);
            assert(s@.take(i + 1).drop_last() =~= s@.take(i as int));
        }
        let c = s[i];
        if c == sep {
            let done = current;
            parts.push(done);
            current = Vec::new();
        } else {
            current.push(c);
        }
        i = i + 1;
        assert(current@ =~= spec_split(s@.take(i as int), sep).last());
    }
    assert(s@.take(s.len() as int) =~= s@);
    proof {
        lemma_split_nonempty(s@, sep);
    }
    parts.push(current);
    parts
}


// ---------------------------------------------------------------------
// Replacing, comparing and searching
// ---------------------------------------------------------------------

/// `s` with every `from` character replaced by `to`.
pub open spec fn spec_replace(s: Seq<char>, from: char, to: char) -> Seq<char> {
    s.map_values(|c: char| if c == from { to } else { c })
}

/// Replaces every `from` character of `s` by `to`.
pub fn replace_char(s: &Vec<char>, from: char, to: char) -> (r: Vec<char>)
    ensures
        r@ == spec_replace(s@, from, to),
{
    let mut r: Vec<char> = Vec::new();
    let mut i: usize = 0;
    while i < s.len()
        invariant
            i <= s.len(),
            r@ == spec_replace(s@.take(i as int), from, to),
        decreases s.len() - i,
    {
        let c = s[i];
        if c == from {
            r.push(to);
        } else {
            r.push(c);
        }
        i = i + 1;
        assert(r@ =~= spec_replace(s@.take(i as int), from, to));
    }
    assert(s@.take(s.len() as int) =~= s@);
    r
}

/// Whether two character sequences are equal.
pub fn chars_eq(a: &Vec<char>, b: &Vec<char>) -> (r: bool)
    ensures
        r == (a@ == b@),
{
    if a.len() != b.len() {
        return false;
    }
    let mut i: usize = 0;
    while i < a.len()
        invariant
            i <= a.len(),
            a.len() == b.len(),
            forall|k: int| 0 <= k < i ==> a@[k] == b@[k],
        decreases a.len() - i,
    {
        if a[i] != b[i] {
            return false;
        }
        i = i + 1;
    }
    assert(a@ =~= b@);
    true
}

/// Whether two string slices hold the same text.
pub fn str_eq(a: &str, b: &str) -> (r: bool)
    ensures
        r == (a@ == b@),
{
    let x = chars_of(a);
    let y = chars_of(b);
    chars_eq(&x, &y)
}

/// Whether `s` begins with `p`.
pub open spec fn spec_starts_with(s: Seq<char>, p: Seq<char>) -> bool {
    p.len() <= s.len() && s.subrange(0, p.len() as int) == p
}

/// Whether `s` ends with `p`.
pub open spec fn spec_ends_with(s: Seq<char>, p: Seq<char>) -> bool {
    p.len() <= s.len() && s.subrange(s.len() - p.len(), s.len() as int) == p
}

/// Whether `p` occurs in `s` at position `i`.
pub open spec fn spec_occurs_at(s: Seq<char>, p: Seq<char>, i: int) -> bool {
    0 <= i && i + p.len() <= s.len() && s.subrange(i, i + p.len()) == p
}

/// Whether `p` occurs anywhere in `s`.
pub open spec fn spec_contains(s: Seq<char>, p: Seq<char>) -> bool {
    exists|i: int| spec_occurs_at(s, p, i)
}

/// Whether `p` occurs in `s` at position `i`.
pub fn occurs_at(s: &Vec<char>, p: &Vec<char>, i: usize) -> (r: bool)
    ensures
        r == spec_occurs_at(s@, p@, i as int),
{
    if i > s.len() || p.len() > s.len() - i {
        return false;
    }
    let mut k: usize = 0;
    while k < p.len()
        invariant
            i + p.len() <= s.len(),
            k <= p.len(),
            forall|j: int| 0 <= j < k ==> s@[i + j] == p@[j],
        decreases p.len() - k,
    {
        if s[i + k] != p[k] {
            assert(s@.subrange(i as int, i + p.len())[k as int] != p@[k as int]);
            return false;
        }
        k = k + 1;
    }
    assert(s@.subrange(i as int, i + p.len()) =~= p@);
    true
}

/// Whether `s` begins with `p`.
pub fn starts_with(s: &Vec<char>, p: &Vec<char>) -> (r: bool)
    ensures
        r == spec_starts_with(s@, p@),
{
    occurs_at(s, p, 0)
}

/// Whether `s` ends with `p`.
pub fn ends_with(s: &Vec<char>, p: &Vec<char>) -> (r: bool)
    ensures
        r == spec_ends_with(s@, p@),
{
    if p.len() > s.len() {
        return false;
    }
    occurs_at(s, p, s.len() - p.len())
}

/// Whether `p` occurs anywhere in `s`.
pub fn contains(s: &Vec<char>, p: &Vec<char>) -> (r: bool)
    ensures
        r == spec_contains(s@, p@),
{
    if p.len() > s.len() {
        assert forall|i: int| !spec_occurs_at(s@, p@, i) by {}
        return false;
    }
    let last: usize = s.len() - p.len();
    let mut i: usize = 0;
    while i < last
        invariant
            p.len() <= s.len(),
            last == s.len() - p.len(),
            i <= last,
            forall|j: int| 0 <= j < i ==> !spec_occurs_at(s@, p@, j),
        decreases last - i,
    {
        if occurs_at(s, p, i) {
            return true;
        }
        i = i + 1;
    }
    occurs_at(s, p, last)
}

/// `s` with every trailing repetition of the non-empty pattern `p` removed
/// (`str::trim_end_matches`); an empty pattern leaves `s` as it is.
pub open spec fn spec_trim_end_matches(s: Seq<char>, p: Seq<char>) -> Seq<char>
    decreases s.len(),
{
    if p.len() > 0 && spec_ends_with(s, p) {
        spec_trim_end_matches(s.subrange(0, s.len() - p.len()), p)
    } else {
        s
    }
}

/// Removes every trailing repetition of `p` from `s`.
pub fn trim_end_matches(s: &Vec<char>, p: &Vec<char>) -> (r: Vec<char>)
    ensures
        r@ == spec_trim_end_matches(s@, p@),
{
    let mut end: usize = s.len();
    if p.len() == 0 {
        return chars_between(s, 0, end);
    }
    let mut cur = chars_between(s, 0, end);
    assert(cur@ =~= s@);
    while ends_with(&cur, p)
        invariant
            p.len() > 0,
            end <= s.len(),
            cur@ == s@.subrange(0, end as int),
            spec_trim_end_matches(s@, p@) == spec_trim_end_matches(cur@, p@),
        decreases end,
    {
        end = end - p.len();
        assert(cur@.subrange(0, end as int) =~= s@.subrange(0, end as int));
        cur = chars_between(s, 0, end);
    }
    cur
}

// ---------------------------------------------------------------------
// Joining
// ---------------------------------------------------------------------

/// The pieces of `parts` with `sep` between each two consecutive ones.
pub open spec fn spec_join(parts: Seq<Seq<char>>, sep: Seq<char>) -> Seq<char>
    decreases parts.len(),
{
    if parts.len() == 0 {
        Seq::<char>::empty()
    } else if parts.len() == 1 {
        parts[0]
    } else {
        spec_join(parts.drop_last(), sep) + sep + parts.last()
    }
}

/// The views of a list of strings.
pub open spec fn string_views(v: Seq<String>) -> Seq<Seq<char>> {
    v.map_values(|s: String| s@)
}

/// Joins `parts` with `sep` between each two consecutive pieces (`[String]::join`).
pub fn join_strings(parts: &Vec<String>, sep: &str) -> (r: String)
    ensures
        r@ == spec_join(string_views(parts@), sep@),
{
    let mut out: Vec<char> = Vec::new();
    let sep_chars = chars_of(sep);
    let mut i: usize = 0;
    while i < parts.len()
        invariant
            i <= parts.len(),
            sep_chars@ == sep@,
            out@ == spec_join(string_views(parts@.take(i as int)), sep@),
        decreases parts.len() - i,
    {
        let piece = chars_of(parts[i].as_str());
        if i > 0 {
            extend_chars(&mut out, &sep_chars);
        }
        extend_chars(&mut out, &piece);
        assert(string_views(parts@.take(i + 1)).drop_last() =~= string_views(parts@.take(i as int)));
        i = i + 1;
    }
    assert(parts@.take(parts.len() as int) =~= parts@);
    string_of(&out)
}


// ---------------------------------------------------------------------
// Decimal numbers
// ---------------------------------------------------------------------

/// The decimal digit character for `d < 10`.
pub open spec fn spec_digit_char(d: nat) -> char {
    seq!['0', '1', '2', '3', '4', '5', '6', '7', '8', '9'][d as int]
}

/// Whether `c` is one of `0`..`9`.
pub open spec fn spec_is_digit(c: char) -> bool {
    48 <= (c as u32) <= 57
}

/// The value of the decimal digit `c`.
pub open spec fn spec_digit_value(c: char) -> nat {
    ((c as u32) - 48) as nat
}

/// The decimal rendering of `n`, most significant digit first, without
/// leading zeros (the way `{}` formats an unsigned integer).
pub open spec fn spec_decimal(n: nat) -> Seq<char>
    decreases n,
{
    if n < 10 {
        seq![spec_digit_char(n)]
    } else {
        spec_decimal(n / 10).push(spec_digit_char(n % 10))
    }
}

/// Appends the decimal rendering of `n` to `out`.
pub fn push_decimal(out: &mut Vec<char>, n: u64)
    ensures
        final(out)@ == old(out)@ + spec_decimal(n as nat),
    decreases n,
{
    if n >= 10 {
        push_decimal(out, n / 10);
    }
    let d: u64 = n % 10;
    let c: char = if d == 0 { '0' } else if d == 1 { '1' } else if d == 2 { '2' } else if d == 3 {
        '3'
    } else if d == 4 { '4' } else if d == 5 { '5' } else if d == 6 { '6' } else if d == 7 {
        '7'
    } else if d == 8 { '8' } else { '9' };
    assert(c == spec_digit_char(d as nat));
    out.push(c);
    proof {
        if n >= 10 {
            assert(final(out)@ =~= old(out)@ + spec_decimal(n as nat));
        } else {
            assert(final(out)@ =~= old(out)@ + spec_decimal(n as nat));
        }
    }
}

/// The decimal rendering of `n` as a string.
pub fn decimal_string(n: u64) -> (s: String)
    ensures
        s@ == spec_decimal(n as nat),
{
    let mut v: Vec<char> = Vec::new();
    push_decimal(&mut v, n);
    assert(v@ =~= spec_decimal(n as nat));
    string_of(&v)
}

/// The value of a sequence of decimal digits.
pub open spec fn spec_digits_value(d: Seq<char>) -> nat
    decreases d.len(),
{
    if d.len() == 0 {
        0
    } else {
        spec_digits_value(d.drop_last()) * 10 + spec_digit_value(d.last())
    }
}

/// Whether every character of `d` is a decimal digit.
pub open spec fn spec_all_digits(d: Seq<char>) -> bool {
    forall|i: int| 0 <= i < d.len() ==> spec_is_digit(#[trigger] d[i])
}

/// The digits that `u32::from_str` reads: one leading `+` is skipped.
pub open spec fn spec_unsigned_digits(s: Seq<char>) -> Seq<char> {
    if s.len() > 0 && s[0] == '+' {
        s.drop_first()
    } else {
        s
    }
}

/// What `str::parse::<u32>` returns: the value of a non-empty run of decimal
/// digits, after an optional leading `+`, when it fits in 32 bits; otherwise
/// nothing.
pub open spec fn spec_parse_u32(s: Seq<char>) -> Option<u32> {
    let d = spec_unsigned_digits(s);
    if d.len() > 0 && spec_all_digits(d) && spec_digits_value(d) <= u32::MAX {
        Some(spec_digits_value(d) as u32)
    } else {
        None
    }
}

proof fn lemma_digits_value_prefix_le(d: Seq<char>, k: int)
    requires
        0 <= k <= d.len(),
        spec_all_digits(d),
    ensures
        spec_digits_value(d.take(k)) <= spec_digits_value(d),
    decreases d.len() - k,
{
    if k < d.len() {
        lemma_digits_value_prefix_le(d, k + 1);
        assert(d.take(k + 1).drop_last() =~= d.take(k));
    } else {
        assert(d.take(k) =~= d);
    }
}

/// Reads an unsigned 32-bit decimal number as `str::parse::<u32>` does.
pub fn parse_u32(s: &Vec<char>) -> (r: Option<u32>)
    ensures
        r == spec_parse_u32(s@),
{
    let start: usize = if s.len() > 0 && s[0] == '+' { 1 } else { 0 };
    let ghost d = spec_unsigned_digits(s@);
    assert(d =~= s@.subrange(start as int, s@.len() as int));
    if start >= s.len() {
        return None;
    }
    let mut acc: u32 = 0;
    let mut i: usize = start;
    while i < s.len()
        invariant
            start <= i <= s.len(),
            d == s@.subrange(start as int, s@.len() as int),
            d == spec_unsigned_digits(s@),
            spec_all_digits(d.take(i - start)),
            acc as nat == spec_digits_value(d.take(i - start)),
        decreases s.len() - i,
    {
        let c = s[i];
        let code: u32 = c as u32;
        assert(d[i - start] == c);
        if code < 48 || code > 57 {
            assert(!spec_is_digit(d[i - start]));
            return None;
        }
        let dv: u32 = code - 48;
        assert(d.take(i - start + 1).drop_last() =~= d.take(i - start));
        if acc > (4294967295u32 - dv) / 10 {
            proof {
                if spec_all_digits(d) {
                    lemma_digits_value_prefix_le(d, i - start + 1);
                }
            }
            return None;
        }
        acc = acc * 10 + dv;
        i = i + 1;
        assert(spec_all_digits(d.take(i - start)));
    }
    assert(d.take(i - start) =~= d);
    Some(acc)
}

/// Reading back the decimal rendering of a number gives the number.
pub proof fn lemma_parse_decimal_roundtrip(n: u32)
    ensures
        spec_parse_u32(spec_decimal(n as nat)) == Some(n),
{
    lemma_decimal_digits(n as nat);
}

proof fn lemma_digit_char(k: nat)
    requires
        k < 10,
    ensures
        spec_is_digit(spec_digit_char(k)),
        spec_digit_value(spec_digit_char(k)) == k,
        spec_digit_char(k) != '+',
{
    let t = seq!['0', '1', '2', '3', '4', '5', '6', '7', '8', '9'];
    assert(t[0] == '0' && t[1] == '1' && t[2] == '2' && t[3] == '3' && t[4] == '4');
    assert(t[5] == '5' && t[6] == '6' && t[7] == '7' && t[8] == '8' && t[9] == '9');
    assert('0' as u32 == 48 && '1' as u32 == 49 && '2' as u32 == 50 && '3' as u32 == 51);
    assert('4' as u32 == 52 && '5' as u32 == 53 && '6' as u32 == 54 && '7' as u32 == 55);
    assert('8' as u32 == 56 && '9' as u32 == 57);
}

pub proof fn lemma_decimal_digits(n: nat)
    ensures
        spec_decimal(n).len() > 0,
        spec_decimal(n)[0] != '+',
        spec_all_digits(spec_decimal(n)),
        spec_digits_value(spec_decimal(n)) == n,
    decreases n,
{
    lemma_digit_char(n % 10);
    if n < 10 {
        assert(n % 10 == n);
        let d = spec_decimal(n);
        assert(d == seq![spec_digit_char(n)]);
        assert(d.len() == 1);
        assert(d.last() == spec_digit_char(n));
        assert(d.drop_last() =~= Seq::<char>::empty());
        assert(spec_digits_value(Seq::<char>::empty()) == 0);
        assert(spec_digits_value(d) == spec_digits_value(d.drop_last()) * 10 + spec_digit_value(d.last()));
        assert(spec_digits_value(d) == n);
    }
    if n >= 10 {
        lemma_decimal_digits(n / 10);
        let d = spec_decimal(n);
        assert(d.drop_last() =~= spec_decimal(n / 10));
        assert(d.last() == spec_digit_char(n % 10));
        vstd::arithmetic::div_mod::lemma_fundamental_div_mod(n as int, 10);
        assert(spec_digits_value(d) == spec_digits_value(spec_decimal(n / 10)) * 10 + n % 10);
        assert forall|i: int| 0 <= i < d.len() implies spec_is_digit(#[trigger] d[i]) by {
            if i < d.len() - 1 {
                assert(d[i] == spec_decimal(n / 10)[i]);
            }
        }
    }
}


// ---------------------------------------------------------------------
// White space and ASCII case
// ---------------------------------------------------------------------

/// Whether `c` has the Unicode `White_Space` property (`char::is_whitespace`).
pub open spec fn spec_is_whitespace(c: char) -> bool {
    let u = c as u32;
    (9 <= u <= 13) || u == 32 || u == 0x85 || u == 0xA0 || u == 0x1680 || (0x2000 <= u <= 0x200A)
        || u == 0x2028 || u == 0x2029 || u == 0x202F || u == 0x205F || u == 0x3000
}

/// Whether `c` is white space (`char::is_whitespace`).
pub fn is_whitespace(c: char) -> (r: bool)
    ensures
        r == spec_is_whitespace(c),
{
    let u: u32 = c as u32;
    (9 <= u && u <= 13) || u == 32 || u == 0x85 || u == 0xA0 || u == 0x1680 || (0x2000 <= u && u
        <= 0x200A) || u == 0x2028 || u == 0x2029 || u == 0x202F || u == 0x205F || u == 0x3000
}

/// `s` without its leading white space.
pub open spec fn spec_trim_start(s: Seq<char>) -> Seq<char>
    decreases s.len(),
{
    if s.len() > 0 && spec_is_whitespace(s[0]) {
        spec_trim_start(s.drop_first())
    } else {
        s
    }
}

/// `s` without its trailing white space.
pub open spec fn spec_trim_end(s: Seq<char>) -> Seq<char>
    decreases s.len(),
{
    if s.len() > 0 && spec_is_whitespace(s.last()) {
        spec_trim_end(s.drop_last())
    } else {
        s
    }
}

/// `s` without leading and trailing white space (`str::trim`).
pub open spec fn spec_trim(s: Seq<char>) -> Seq<char> {
    spec_trim_end(spec_trim_start(s))
}

/// Removes leading and trailing white space (`str::trim`).
pub fn trim(s: &Vec<char>) -> (r: Vec<char>)
    ensures
        r@ == spec_trim(s@),
{
    let n: usize = s.len();
    let mut lo: usize = 0;
    assert(s@.subrange(0, n as int) =~= s@);
    while lo < n && is_whitespace(s[lo])
        invariant
            n == s.len(),
            lo <= n,
            spec_trim_start(s@) == spec_trim_start(s@.subrange(lo as int, n as int)),
        decreases n - lo,
    {
        assert(s@.subrange(lo as int, n as int).drop_first() =~= s@.subrange(lo + 1, n as int));
        lo = lo + 1;
    }
    assert(spec_trim_start(s@) == s@.subrange(lo as int, n as int));
    let mut hi: usize = n;
    while hi > lo && is_whitespace(s[hi - 1])
        invariant
            n == s.len(),
            lo <= hi <= n,
            spec_trim(s@) == spec_trim_end(s@.subrange(lo as int, hi as int)),
        decreases hi,
    {
        assert(s@.subrange(lo as int, hi as int).drop_last() =~= s@.subrange(lo as int, hi - 1));
        hi = hi - 1;
    }
    chars_between(s, lo, hi)
}

/// Trimming twice trims no more than trimming once.
pub proof fn lemma_trim_idempotent(s: Seq<char>)
    ensures
        spec_trim(spec_trim(s)) == spec_trim(s),
{
    lemma_trim_start_stops(s);
    lemma_trim_end_stops(spec_trim_start(s));
    let t = spec_trim(s);
    if t.len() > 0 {
        lemma_trim_end_keeps_front(spec_trim_start(s));
        assert(!spec_is_whitespace(t[0]));
        assert(spec_trim_start(t) == t);
        assert(!spec_is_whitespace(t.last()));
        assert(spec_trim_end(t) == t);
    } else {
        assert(spec_trim_start(t) == t);
        assert(spec_trim_end(t) == t);
    }
}

proof fn lemma_trim_start_stops(s: Seq<char>)
    ensures
        spec_trim_start(s).len() > 0 ==> !spec_is_whitespace(spec_trim_start(s)[0]),
    decreases s.len(),
{
    if s.len() > 0 && spec_is_whitespace(s[0]) {
        lemma_trim_start_stops(s.drop_first());
    }
}

proof fn lemma_trim_end_stops(s: Seq<char>)
    ensures
        spec_trim_end(s).len() > 0 ==> !spec_is_whitespace(spec_trim_end(s).last()),
    decreases s.len(),
{
    if s.len() > 0 && spec_is_whitespace(s.last()) {
        lemma_trim_end_stops(s.drop_last());
    }
}

proof fn lemma_trim_end_keeps_front(s: Seq<char>)
    ensures
        spec_trim_end(s).len() <= s.len(),
        spec_trim_end(s) == s.subrange(0, spec_trim_end(s).len() as int),
    decreases s.len(),
{
    if s.len() > 0 && spec_is_whitespace(s.last()) {
        lemma_trim_end_keeps_front(s.drop_last());
        assert(spec_trim_end(s) =~= s.subrange(0, spec_trim_end(s).len() as int));
    } else {
        assert(s =~= s.subrange(0, s.len() as int));
    }
}

/// The ASCII lower-case code of `c`: `A`..`Z` are mapped to `a`..`z`,
/// every other character keeps its code.
pub open spec fn spec_ascii_lower(c: char) -> u32 {
    if 65 <= (c as u32) <= 90 {
        ((c as u32) + 32) as u32
    } else {
        c as u32
    }
}

/// Whether `a` and `b` are equal once ASCII letters are folded to lower case
/// (`str::eq_ignore_ascii_case`).
pub open spec fn spec_eq_ignore_ascii_case(a: Seq<char>, b: Seq<char>) -> bool {
    a.len() == b.len() && forall|i: int|
        0 <= i < a.len() ==> spec_ascii_lower(#[trigger] a[i]) == spec_ascii_lower(b[i])
}

fn ascii_lower(c: char) -> (r: u32)
    ensures
        r == spec_ascii_lower(c),
{
    let u: u32 = c as u32;
    if 65 <= u && u <= 90 {
        u + 32
    } else {
        u
    }
}

/// Compares `a` and `b` ignoring the case of ASCII letters.
pub fn chars_eq_ignore_ascii_case(a: &Vec<char>, b: &Vec<char>) -> (r: bool)
    ensures
        r == spec_eq_ignore_ascii_case(a@, b@),
{
    if a.len() != b.len() {
        return false;
    }
    let mut i: usize = 0;
    while i < a.len()
        invariant
            i <= a.len(),
            a.len() == b.len(),
            forall|k: int| 0 <= k < i ==> spec_ascii_lower(#[trigger] a@[k]) == spec_ascii_lower(b@[k]),
        decreases a.len() - i,
    {
        if ascii_lower(a[i]) != ascii_lower(b[i]) {
            return false;
        }
        i = i + 1;
    }
    true
}

/// Compares two string slices ignoring the case of ASCII letters
/// (`str::eq_ignore_ascii_case`).
pub fn eq_ignore_ascii_case(a: &str, b: &str) -> (r: bool)
    ensures
        r == spec_eq_ignore_ascii_case(a@, b@),
{
    let x = chars_of(a);
    let y = chars_of(b);
    chars_eq_ignore_ascii_case(&x, &y)
}

/// Whether `s` ends with `p` once ASCII letters are folded to lower case.
pub open spec fn spec_ends_with_ignore_ascii_case(s: Seq<char>, p: Seq<char>) -> bool {
    p.len() <= s.len() && spec_eq_ignore_ascii_case(s.subrange(s.len() - p.len(), s.len() as int), p)
}

/// Whether `s` ends with `p` ignoring the case of ASCII letters.
pub fn ends_with_ignore_ascii_case(s: &Vec<char>, p: &Vec<char>) -> (r: bool)
    ensures
        r == spec_ends_with_ignore_ascii_case(s@, p@),
{
    if p.len() > s.len() {
        return false;
    }
    let tail = chars_between(s, s.len() - p.len(), s.len());
    chars_eq_ignore_ascii_case(&tail, p)
}


// ---------------------------------------------------------------------
// Searching for a character
// ---------------------------------------------------------------------

/// The position of the first `c` in `s`, if any.
pub open spec fn spec_find(s: Seq<char>, c: char) -> Option<int>
    decreases s.len(),
{
    if s.len() == 0 {
        None
    } else if s[0] == c {
        Some(0)
    } else {
        match spec_find(s.drop_first(), c) {
            Some(i) => Some(i + 1),
            None => None,
        }
    }
}

pub proof fn lemma_find_at(s: Seq<char>, c: char, k: int)
    requires
        0 <= k < s.len(),
        s[k] == c,
        forall|j: int| 0 <= j < k ==> s[j] != c,
    ensures
        spec_find(s, c) == Some(k),
    decreases k,
{
    if k > 0 {
        assert forall|j: int| 0 <= j < k - 1 implies s.drop_first()[j] != c by {
            assert(s.drop_first()[j] == s[j + 1]);
        }
        lemma_find_at(s.drop_first(), c, k - 1);
    }
}

proof fn lemma_find_none(s: Seq<char>, c: char)
    requires
        forall|j: int| 0 <= j < s.len() ==> s[j] != c,
    ensures
        spec_find(s, c) is None,
    decreases s.len(),
{
    if s.len() > 0 {
        assert forall|j: int| 0 <= j < s.len() - 1 implies s.drop_first()[j] != c by {
            assert(s.drop_first()[j] == s[j + 1]);
        }
        lemma_find_none(s.drop_first(), c);
    }
}

/// The position of the first `c` in `s[from..]`, counted from `from`.
pub fn find_char(s: &Vec<char>, c: char, from: usize) -> (r: Option<usize>)
    requires
        from <= s.len(),
    ensures
        match r {
            Some(i) => from <= i < s.len() && spec_find(s@.subrange(from as int, s@.len() as int), c)
                == Some(i - from),
            None => spec_find(s@.subrange(from as int, s@.len() as int), c) is None,
        },
{
    let ghost t = s@.subrange(from as int, s@.len() as int);
    let mut i: usize = from;
    while i < s.len()
        invariant
            from <= i <= s.len(),
            t == s@.subrange(from as int, s@.len() as int),
            forall|j: int| 0 <= j < i - from ==> t[j] != c,
        decreases s.len() - i,
    {
        if s[i] == c {
            proof {
                lemma_find_at(t, c, i - from);
            }
            return Some(i);
        }
        i = i + 1;
    }
    proof {
        lemma_find_none(t, c);
    }
    None
}


// ---------------------------------------------------------------------
// Building strings
// ---------------------------------------------------------------------

/// An owned copy of `s`.
pub fn owned(s: &str) -> (r: String)
    ensures
        r@ == s@,
{
    let v = chars_of(s);
    string_of(&v)
}

/// `a` followed by `b`.
pub fn concat_text(a: &str, b: &str) -> (r: String)
    ensures
        r@ == a@ + b@,
{
    let mut v = chars_of(a);
    extend_str(&mut v, b);
    string_of(&v)
}

/// The part of `s` after its last `/` (all of `s` when it has none), as the
/// first item of `str::rsplit('/')`.
pub open spec fn spec_last_segment(s: Seq<char>) -> Seq<char>
    decreases s.len(),
{
    if s.len() == 0 {
        s
    } else if s.last() == '/' {
        Seq::<char>::empty()
    } else {
        spec_last_segment(s.drop_last()).push(s.last())
    }
}

/// The part of `s` after its last `/`.
pub fn last_segment(s: &Vec<char>) -> (r: Vec<char>)
    ensures
        r@ == spec_last_segment(s@),
{
    let mut seg: Vec<char> = Vec::new();
    let mut i: usize = 0;
    while i < s.len()
        invariant
            i <= s.len(),
            seg@ == spec_last_segment(s@.take(i as int)),
        decreases s.len() - i,
    {
        assert(s@.take(i + 1).drop_last() =~= s@.take(i as int));
        if s[i] == '/' {
            seg = Vec::new();
        } else {
            seg.push(s[i]);
        }
        i = i + 1;
        assert(seg@ =~= spec_last_segment(s@.take(i as int)));
    }
    assert(s@.take(s.len() as int) =~= s@);
    seg
}

/// The part after the last `/` holds no `/`.
pub proof fn lemma_last_segment_has_no_slash(s: Seq<char>)
    ensures
        forall|i: int| 0 <= i < spec_last_segment(s).len() ==> spec_last_segment(s)[i] != '/',
    decreases s.len(),
{
    if s.len() > 0 && s.last() != '/' {
        lemma_last_segment_has_no_slash(s.drop_last());
        let f = spec_last_segment(s.drop_last());
        assert(spec_last_segment(s) == f.push(s.last()));
        assert forall|i: int| 0 <= i < spec_last_segment(s).len() implies spec_last_segment(s)[i]
            != '/' by {
            if i < f.len() {
                assert(spec_last_segment(s)[i] == f[i]);
            }
        }
    }
}

} // verus!
