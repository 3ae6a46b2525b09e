//! Decimal rendering and small string helpers shared by the formatters.

use vstd::prelude::*;

verus! {

/// The character of a decimal digit.
pub open spec fn digit_char(d: nat) -> char {
    if d == 0 { '0' }
    else if d == 1 { '1' }
    else if d == 2 { '2' }
    else if d == 3 { '3' }
    else if d == 4 { '4' }
    else if d == 5 { '5' }
    else if d == 6 { '6' }
    else if d == 7 { '7' }
    else if d == 8 { '8' }
    else { '9' }
}

/// The decimal rendering of a natural number, without leading zeros ("0" for zero).
pub open spec fn decimal(n: nat) -> Seq<char>
    decreases n,
{
    if n < 10 {
        seq![digit_char(n)]
    } else {
        decimal(n / 10).push(digit_char(n % 10))
    }
}

/// Appends one character to a string.
#[verifier::external_body]
pub(crate) fn push_char(s: &mut String, c: char)
    ensures
        final(s)@ == old(s)@.push(c),
{
    s.push(c);
}

pub fn digit_to_char(d: u64) -> (c: char)
    requires
        d < 10,
    ensures
        c == digit_char(d as nat),
{
    if d == 0 { '0' }
    else if d == 1 { '1' }
    else if d == 2 { '2' }
    else if d == 3 { '3' }
    else if d == 4 { '4' }
    else if d == 5 { '5' }
    else if d == 6 { '6' }
    else if d == 7 { '7' }
    else if d == 8 { '8' }
    else { '9' }
}

/// Appends the decimal rendering of `n` to `out`.
pub fn write_decimal(out: &mut String, n: u64)
    ensures
        final(out)@ == old(out)@ + decimal(n as nat),
    decreases n,
{
    if n >= 10 {
        write_decimal(out, n / 10);
    }
    let c = digit_to_char(n % 10);
    push_char(out, c);
    proof {
        if n >= 10 {
            assert(decimal(n as nat) == decimal((n / 10) as nat).push(digit_char((n % 10) as nat)));
        }
    }
    assert(final(out)@ =~= old(out)@ + decimal(n as nat)) by {
        if n < 10 {
            assert(decimal(n as nat) == seq![digit_char(n as nat)]);
        }
    }
}

} // verus!

verus! {

/// `s` right-aligned in a field of `width` characters (padded with spaces on the left).
pub open spec fn pad_left(s: Seq<char>, width: nat) -> Seq<char> {
    if s.len() >= width {
        s
    } else {
        Seq::new((width - s.len()) as nat, |_i: int| ' ') + s
    }
}

/// A number of tenths rendered with one decimal place, e.g. 333 as "33.3".
pub open spec fn one_decimal(tenths: nat) -> Seq<char> {
    decimal(tenths / 10) + seq!['.', digit_char(tenths % 10)]
}

/// The decimal rendering of `n` has at least one character.
pub proof fn lemma_decimal_nonempty(n: nat)
    ensures
        decimal(n).len() >= 1,
    decreases n,
{
    if n >= 10 {
        lemma_decimal_nonempty(n / 10);
    }
}

/// Appends a string slice to `out`.
pub fn append_str(out: &mut String, s: &str)
    ensures
        final(out)@ == old(out)@ + s@,
{
    out.append(s);
}

/// Appends `s` right-aligned in a field of `width` characters.
pub fn write_padded(out: &mut String, s: &String, width: usize)
    ensures
        final(out)@ == old(out)@ + pad_left(s@, width as nat),
{
    let len = s.as_str().unicode_len();
    if len < width {
        let mut k: usize = 0;
        let ghost start = out@;
        while k < width - len
            invariant
                k <= width - len,
                len < width,
                out@ == start + Seq::new(k as nat, |_i: int| ' '),
            decreases width - len - k,
        {
            push_char(out, ' ');
            k = k + 1;
            assert(out@ =~= start + Seq::new(k as nat, |_i: int| ' '));
        }
    }
    append_str(out, s.as_str());
    assert(final(out)@ =~= old(out)@ + pad_left(s@, width as nat));
}

/// Appends `tenths` rendered with one decimal place.
pub fn write_one_decimal(out: &mut String, tenths: u64)
    ensures
        final(out)@ == old(out)@ + one_decimal(tenths as nat),
{
    write_decimal(out, tenths / 10);
    push_char(out, '.');
    let c = digit_to_char(tenths % 10);
    push_char(out, c);
    assert(final(out)@ =~= old(out)@ + one_decimal(tenths as nat));
}

} // verus!

verus! {

/// `s` ends with `suffix`.
pub open spec fn has_suffix(s: Seq<char>, suffix: Seq<char>) -> bool {
    s.len() >= suffix.len() && s.subrange(s.len() - suffix.len(), s.len() as int) == suffix
}

/// `s` starts with `prefix`.
pub open spec fn has_prefix(s: Seq<char>, prefix: Seq<char>) -> bool {
    s.len() >= prefix.len() && s.subrange(0, prefix.len() as int) == prefix
}

/// `t` occurs in `s` starting at position `i`.
pub open spec fn occurs_at(s: Seq<char>, t: Seq<char>, i: int) -> bool {
    0 <= i && i + t.len() <= s.len() && s.subrange(i, i + t.len()) == t
}

/// `t` occurs somewhere in `s`.
pub open spec fn has_substring(s: Seq<char>, t: Seq<char>) -> bool {
    exists|i: int| occurs_at(s, t, i)
}

/// Checks whether `s[start..start + t.len()]` equals `t`.
pub fn matches_at(s: &str, s_len: usize, t: &str, t_len: usize, start: usize) -> (b: bool)
    requires
        s_len == s@.len(),
        t_len == t@.len(),
    ensures
        b == occurs_at(s@, t@, start as int),
{
    if start > s_len || t_len > s_len - start {
        return false;
    }
    let mut j: usize = 0;
    while j < t_len
        invariant
            start + t_len <= s_len,
            s_len == s@.len(),
            t_len == t@.len(),
            j <= t_len,
            forall|k: int| 0 <= k < j ==> s@[start + k] == t@[k],
        decreases t_len - j,
    {
        if s.get_char(start + j) != t.get_char(j) {
            assert(s@.subrange(start as int, start + t_len)[j as int] != t@[j as int]);
            return false;
        }
        j = j + 1;
    }
    assert(s@.subrange(start as int, start + t_len) =~= t@);
    true
}

/// Checks whether `s` ends with `suffix`.
pub fn ends_with(s: &str, suffix: &str) -> (b: bool)
    ensures
        b == has_suffix(s@, suffix@),
{
    let s_len = s.unicode_len();
    let t_len = suffix.unicode_len();
    if t_len > s_len {
        return false;
    }
    matches_at(s, s_len, suffix, t_len, s_len - t_len)
}

/// Checks whether `s` starts with `prefix`.
pub fn starts_with(s: &str, prefix: &str) -> (b: bool)
    ensures
        b == has_prefix(s@, prefix@),
{
    let s_len = s.unicode_len();
    let t_len = prefix.unicode_len();
    matches_at(s, s_len, prefix, t_len, 0)
}

/// The first position at or after `from` where `t` occurs in `s`, if any.
pub open spec fn first_occurrence_from(s: Seq<char>, t: Seq<char>, from: int) -> Option<int>
    decreases s.len() + 1 - from,
{
    if from < 0 || from > s.len() {
        None
    } else if occurs_at(s, t, from) {
        Some(from)
    } else {
        first_occurrence_from(s, t, from + 1)
    }
}

/// The first occurrence found from `from` occurs there, and none occurs before it.
pub proof fn lemma_first_occurrence(s: Seq<char>, t: Seq<char>, from: int)
    requires
        0 <= from <= s.len() + 1,
    ensures
        first_occurrence_from(s, t, from) matches Some(i) ==> from <= i && occurs_at(s, t, i)
            && forall|j: int| from <= j < i ==> !occurs_at(s, t, j),
        first_occurrence_from(s, t, from) is None ==> forall|j: int|
            from <= j ==> !occurs_at(s, t, j),
    decreases s.len() + 1 - from,
{
    if from <= s.len() && !occurs_at(s, t, from) {
        lemma_first_occurrence(s, t, from + 1);
    }
}

/// Finds the first position where `t` occurs in `s`.
pub fn find_str(s: &str, t: &str) -> (r: Option<usize>)
    ensures
        r matches Some(i) ==> first_occurrence_from(s@, t@, 0) == Some(i as int),
        r is None ==> first_occurrence_from(s@, t@, 0) is None,
{
    let s_len = s.unicode_len();
    let t_len = t.unicode_len();
    let mut i: usize = 0;
    while i <= s_len
        invariant
            s_len == s@.len(),
            t_len == t@.len(),
            i <= s_len + 1,
            first_occurrence_from(s@, t@, 0) == first_occurrence_from(s@, t@, i as int),
        decreases s_len + 1 - i,
    {
        if matches_at(s, s_len, t, t_len, i) {
            return Some(i);
        }
        if i == s_len {
            return None;
        }
        i = i + 1;
    }
    None
}

/// Checks whether `t` occurs in `s`.
pub fn contains_str(s: &str, t: &str) -> (b: bool)
    ensures
        b == has_substring(s@, t@),
{
    let r = find_str(s, t);
    proof {
        lemma_first_occurrence(s@, t@, 0);
    }
    match r {
        Some(i) => {
            assert(occurs_at(s@, t@, i as int));
            true
        },
        None => {
            assert(forall|j: int| !occurs_at(s@, t@, j));
            false
        },
    }
}

/// Checks whether two strings are equal.
pub fn str_equal(a: &str, b: &str) -> (r: bool)
    ensures
        r == (a@ == b@),
{
    let a_len = a.unicode_len();
    let b_len = b.unicode_len();
    if a_len != b_len {
        return false;
    }
    let r = matches_at(a, a_len, b, b_len, 0);
    proof {
        if r {
            assert(a@.subrange(0, b_len as int) =~= a@);
        } else {
            assert(a@.subrange(0, b_len as int) =~= a@);
        }
    }
    r
}

} // verus!

verus! {

/// Lexicographic order on strings by character code: `a` sorts strictly before `b`.
pub open spec fn lex_lt(a: Seq<char>, b: Seq<char>) -> bool
    decreases a.len(),
{
    if a.len() == 0 {
        b.len() > 0
    } else if b.len() == 0 {
        false
    } else if a[0] < b[0] {
        true
    } else if a[0] > b[0] {
        false
    } else {
        lex_lt(a.drop_first(), b.drop_first())
    }
}

/// No string sorts before itself.
pub proof fn lemma_lex_irreflexive(a: Seq<char>)
    ensures
        !lex_lt(a, a),
    decreases a.len(),
{
    if a.len() > 0 {
        lemma_lex_irreflexive(a.drop_first());
    }
}

/// The order is transitive.
pub proof fn lemma_lex_transitive(a: Seq<char>, b: Seq<char>, c: Seq<char>)
    requires
        lex_lt(a, b),
        lex_lt(b, c),
    ensures
        lex_lt(a, c),
    decreases a.len(),
{
    if a.len() > 0 && b.len() > 0 && c.len() > 0 {
        if a[0] == b[0] && b[0] == c[0] {
            lemma_lex_transitive(a.drop_first(), b.drop_first(), c.drop_first());
        }
    }
}

/// Two different strings are ordered one way or the other.
pub proof fn lemma_lex_total(a: Seq<char>, b: Seq<char>)
    requires
        a != b,
    ensures
        lex_lt(a, b) || lex_lt(b, a),
    decreases a.len(),
{
    if a.len() > 0 && b.len() > 0 && a[0] == b[0] {
        if a.drop_first() == b.drop_first() {
            assert(a =~= seq![a[0]] + a.drop_first());
            assert(b =~= seq![b[0]] + b.drop_first());
        }
        lemma_lex_total(a.drop_first(), b.drop_first());
    } else if a.len() == 0 && b.len() == 0 {
        assert(a =~= b);
    }
}

/// Checks whether `a` sorts strictly before `b`.
pub fn lex_less(a: &str, b: &str) -> (r: bool)
    ensures
        r == lex_lt(a@, b@),
{
    let a_len = a.unicode_len();
    let b_len = b.unicode_len();
    let mut i: usize = 0;
    assert(a@.skip(0) =~= a@);
    assert(b@.skip(0) =~= b@);
    while i < a_len && i < b_len
        invariant
            a_len == a@.len(),
            b_len == b@.len(),
            i <= a_len,
            i <= b_len,
            lex_lt(a@, b@) == lex_lt(a@.skip(i as int), b@.skip(i as int)),
        decreases a_len - i,
    {
        let ca = a.get_char(i);
        let cb = b.get_char(i);
        assert(a@.skip(i as int)[0] == a@[i as int]);
        assert(b@.skip(i as int)[0] == b@[i as int]);
        if ca < cb {
            return true;
        }
        if ca > cb {
            return false;
        }
        assert(a@.skip(i as int).drop_first() =~= a@.skip(i + 1));
        assert(b@.skip(i as int).drop_first() =~= b@.skip(i + 1));
        i = i + 1;
    }
    i < b_len
}

} // verus!

verus! {

/// `c` is an ASCII decimal digit.
pub open spec fn is_digit(c: char) -> bool {
    48 <= (c as u32) && (c as u32) <= 57
}

/// The value of an ASCII digit.
pub open spec fn digit_value(c: char) -> nat {
    ((c as u32) - 48) as nat
}

/// The value of a string of decimal digits.
pub open spec fn digits_value(s: Seq<char>) -> nat
    decreases s.len(),
{
    if s.len() == 0 {
        0
    } else {
        digits_value(s.drop_last()) * 10 + digit_value(s.last())
    }
}

/// `s` without a leading `+`.
pub open spec fn sign_stripped(s: Seq<char>) -> Seq<char> {
    if s.len() > 0 && s[0] == '+' { s.drop_first() } else { s }
}

/// Every character of `s` is a decimal digit.
pub open spec fn all_digits(s: Seq<char>) -> bool {
    forall|i: int| 0 <= i < s.len() ==> is_digit(s[i])
}

/// What `u32::from_str` gives: an optional `+` sign, then one or more decimal digits
/// whose value fits in `u32`.
pub open spec fn parse_u32_spec(s: Seq<char>) -> Option<u32> {
    let body = sign_stripped(s);
    if body.len() > 0 && all_digits(body) && digits_value(body) <= u32::MAX {
        Some(digits_value(body) as u32)
    } else {
        None
    }
}

/// A longer digit string is worth at least as much as its prefix.
proof fn lemma_digits_value_prefix(s: Seq<char>, i: int)
    requires
        0 <= i <= s.len(),
    ensures
        digits_value(s.take(i)) <= digits_value(s),
    decreases s.len() - i,
{
    if i < s.len() {
        lemma_digits_value_prefix(s, i + 1);
        assert(s.take(i + 1).drop_last() =~= s.take(i));
    } else {
        assert(s.take(i) =~= s);
    }
}

/// Parses a `u32` as `u32::from_str` does.
pub fn parse_u32(s: &str) -> (r: Option<u32>)
    ensures
        r == parse_u32_spec(s@),
{
    let len = s.unicode_len();
    if len == 0 {
        return None;
    }
    let start: usize = if s.get_char(0) == '+' { 1 } else { 0 };
    let ghost body = sign_stripped(s@);
    assert(body =~= s@.skip(start as int));
    if start == len {
        return None;
    }
    let mut value: u64 = 0;
    let mut i: usize = start;
    while i < len
        invariant
            len == s@.len(),
            start <= i <= len,
            body == s@.skip(start as int),
            body == sign_stripped(s@),
            value <= u32::MAX,
            value == digits_value(body.take(i - start)),
            forall|k: int| 0 <= k < i - start ==> is_digit(body[k]),
        decreases len - i,
    {
        let c = s.get_char(i);
        assert(body[i - start] == c);
        let v = c as u32;
        if v < 48 || v > 57 {
            assert(!is_digit(body[(i - start) as int]));
            return None;
        }
        assert(body.take(i - start + 1).drop_last() =~= body.take(i - start));
        assert(body.take(i - start + 1).last() == c);
        value = value * 10 + (v - 48) as u64;
        assert(value == digits_value(body.take(i - start + 1)));
        if value > 4294967295 {
            proof {
                let n = (i - start + 1) as int;
                if all_digits(body) {
                    lemma_digits_value_prefix(body, n);
                }
            }
            return None;
        }
        i = i + 1;
    }
    assert(body.take(i - start) =~= body);
    Some(value as u32)
}

} // verus!

verus! {

/// `s` without its leading occurrences of `c`.
pub open spec fn trim_leading(s: Seq<char>, c: char) -> Seq<char>
    decreases s.len(),
{
    if s.len() > 0 && s[0] == c {
        trim_leading(s.drop_first(), c)
    } else {
        s
    }
}

/// `s` without its trailing occurrences of `c`.
pub open spec fn trim_trailing(s: Seq<char>, c: char) -> Seq<char>
    decreases s.len(),
{
    if s.len() > 0 && s.last() == c {
        trim_trailing(s.drop_last(), c)
    } else {
        s
    }
}

/// `s` without the occurrences of `c` at either end.
pub open spec fn trim_both(s: Seq<char>, c: char) -> Seq<char> {
    trim_trailing(trim_leading(s, c), c)
}

proof fn lemma_trim_leading_skip(s: Seq<char>, c: char, i: int)
    requires
        0 <= i <= s.len(),
        forall|k: int| 0 <= k < i ==> s[k] == c,
    ensures
        trim_leading(s, c) == trim_leading(s.subrange(i, s.len() as int), c),
    decreases i,
{
    if i > 0 {
        assert(s.drop_first() =~= s.subrange(1, s.len() as int));
        lemma_trim_leading_skip(s.drop_first(), c, i - 1);
        assert(s.drop_first().subrange(i - 1, s.drop_first().len() as int) =~= s.subrange(
            i,
            s.len() as int,
        ));
    } else {
        assert(s.subrange(0, s.len() as int) =~= s);
    }
}

proof fn lemma_trim_trailing_skip(s: Seq<char>, c: char, j: int)
    requires
        0 <= j <= s.len(),
        forall|k: int| j <= k < s.len() ==> s[k] == c,
    ensures
        trim_trailing(s, c) == trim_trailing(s.subrange(0, j), c),
    decreases s.len() - j,
{
    if j < s.len() {
        lemma_trim_trailing_skip(s.drop_last(), c, j);
        assert(s.drop_last().subrange(0, j) =~= s.subrange(0, j));
    } else {
        assert(s.subrange(0, j) =~= s);
    }
}

/// Copies the characters of `s` in `[start, end)` into a new string.
pub fn substring_chars(s: &str, start: usize, end: usize) -> (r: String)
    requires
        start <= end <= s@.len(),
    ensures
        r@ == s@.subrange(start as int, end as int),
{
    let mut out = String::new();
    let mut k: usize = start;
    while k < end
        invariant
            start <= k <= end,
            end <= s@.len(),
            out@ == s@.subrange(start as int, k as int),
        decreases end - k,
    {
        let ch = s.get_char(k);
        push_char(&mut out, ch);
        k = k + 1;
        assert(out@ =~= s@.subrange(start as int, k as int));
    }
    out
}

/// `s` with every leading and trailing `c` removed (`str::trim_matches` with a
/// character pattern).
pub fn trim_matches_char(s: &str, c: char) -> (r: String)
    ensures
        r@ == trim_both(s@, c),
{
    let len = s.unicode_len();
    let mut start: usize = 0;
    while start < len && s.get_char(start) == c
        invariant
            start <= len,
            len == s@.len(),
            forall|k: int| 0 <= k < start ==> s@[k] == c,
        decreases len - start,
    {
        start = start + 1;
    }
    let mut end: usize = len;
    while end > start && s.get_char(end - 1) == c
        invariant
            start <= end <= len,
            len == s@.len(),
            forall|k: int| end <= k < len ==> s@[k] == c,
        decreases end,
    {
        end = end - 1;
    }
    proof {
        let tail = s@.subrange(start as int, len as int);
        lemma_trim_leading_skip(s@, c, start as int);
        assert(trim_leading(tail, c) == tail);
        lemma_trim_trailing_skip(tail, c, end - start);
        assert(tail.subrange(0, end - start) =~= s@.subrange(start as int, end as int));
        let mid = s@.subrange(start as int, end as int);
        assert(trim_trailing(mid, c) == mid);
    }
    substring_chars(s, start, end)
}

} // verus!

verus! {

/// The Unicode White_Space property, which `char::is_whitespace` tests: U+0009 to
/// U+000D, U+0020, U+0085, U+00A0, U+1680, U+2000 to U+200A, U+2028, U+2029,
/// U+202F, U+205F and U+3000.
pub open spec fn unicode_white_space(c: char) -> bool {
    let n = c as u32;
    ||| 0x09 <= n <= 0x0D
    ||| n == 0x20
    ||| n == 0x85
    ||| n == 0xA0
    ||| n == 0x1680
    ||| 0x2000 <= n <= 0x200A
    ||| n == 0x2028
    ||| n == 0x2029
    ||| n == 0x202F
    ||| n == 0x205F
    ||| n == 0x3000
}

/// Whether the character has the Unicode White_Space property, as
/// `char::is_whitespace` answers.
pub fn char_is_whitespace(c: char) -> (b: bool)
    ensures
        b == unicode_white_space(c),
{
    let n = c as u32;
    (0x09 <= n && n <= 0x0D) || n == 0x20 || n == 0x85 || n == 0xA0 || n == 0x1680
        || (0x2000 <= n && n <= 0x200A) || n == 0x2028 || n == 0x2029 || n == 0x202F
        || n == 0x205F || n == 0x3000
}

/// `s` without leading white space.
pub open spec fn trim_start_ws(s: Seq<char>) -> Seq<char>
    decreases s.len(),
{
    if s.len() > 0 && unicode_white_space(s[0]) {
        trim_start_ws(s.drop_first())
    } else {
        s
    }
}

/// `s` without trailing white space.
pub open spec fn trim_end_ws(s: Seq<char>) -> Seq<char>
    decreases s.len(),
{
    if s.len() > 0 && unicode_white_space(s.last()) {
        trim_end_ws(s.drop_last())
    } else {
        s
    }
}

/// `s` without white space at either end (`str::trim`).
pub open spec fn trim_ws(s: Seq<char>) -> Seq<char> {
    trim_end_ws(trim_start_ws(s))
}

proof fn lemma_trim_start_ws_skip(s: Seq<char>, i: int)
    requires
        0 <= i <= s.len(),
        forall|k: int| 0 <= k < i ==> unicode_white_space(#[trigger] s[k]),
    ensures
        trim_start_ws(s) == trim_start_ws(s.subrange(i, s.len() as int)),
    decreases i,
{
    if i > 0 {
        assert(s.drop_first() =~= s.subrange(1, s.len() as int));
        lemma_trim_start_ws_skip(s.drop_first(), i - 1);
        assert(s.drop_first().subrange(i - 1, s.drop_first().len() as int) =~= s.subrange(
            i,
            s.len() as int,
        ));
    } else {
        assert(s.subrange(0, s.len() as int) =~= s);
    }
}

proof fn lemma_trim_end_ws_skip(s: Seq<char>, j: int)
    requires
        0 <= j <= s.len(),
        forall|k: int| j <= k < s.len() ==> unicode_white_space(#[trigger] s[k]),
    ensures
        trim_end_ws(s) == trim_end_ws(s.subrange(0, j)),
    decreases s.len() - j,
{
    if j < s.len() {
        lemma_trim_end_ws_skip(s.drop_last(), j);
        assert(s.drop_last().subrange(0, j) =~= s.subrange(0, j));
    } else {
        assert(s.subrange(0, j) =~= s);
    }
}

/// `s` with white space removed from both ends (`str::trim`).
pub fn trim_whitespace(s: &str) -> (r: String)
    ensures
        r@ == trim_ws(s@),
{
    let len = s.unicode_len();
    let mut start: usize = 0;
    while start < len && char_is_whitespace(s.get_char(start))
        invariant
            start <= len,
            len == s@.len(),
            forall|k: int| 0 <= k < start ==> unicode_white_space(#[trigger] s@[k]),
        decreases len - start,
    {
        start = start + 1;
    }
    let mut end: usize = len;
    while end > start && char_is_whitespace(s.get_char(end - 1))
        invariant
            start <= end <= len,
            len == s@.len(),
            forall|k: int| end <= k < len ==> unicode_white_space(#[trigger] s@[k]),
        decreases end,
    {
        end = end - 1;
    }
    proof {
        let tail = s@.subrange(start as int, len as int);
        lemma_trim_start_ws_skip(s@, start as int);
        assert(trim_start_ws(tail) == tail);
        assert forall|k: int| end - start <= k < tail.len() implies unicode_white_space(#[trigger] tail[k]) by {
            assert(tail[k] == s@[start + k]);
        }
        lemma_trim_end_ws_skip(tail, end - start);
        assert(tail.subrange(0, end - start) =~= s@.subrange(start as int, end as int));
        let mid = s@.subrange(start as int, end as int);
        assert(trim_end_ws(mid) == mid);
    }
    substring_chars(s, start, end)
}

} // verus!
