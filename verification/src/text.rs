//! Character-level helpers over the `Seq<char>` view of strings.
use vstd::prelude::*;

verus! {

// ---------------------------------------------------------------------------
// Building strings
// ---------------------------------------------------------------------------

/// Appends one character to a string (`String::push`).
#[verifier::external_body]
pub fn push_char(s: &mut String, c: char)
    ensures
        final(s)@ == old(s)@.push(c),
{
    s.push(c);
}

/// The characters of a string slice, in order.
pub fn chars_of(s: &str) -> (out: Vec<char>)
    ensures
        out@ == s@,
{
    let mut out: Vec<char> = Vec::new();
    for c in it: s.chars()
        invariant
            it.seq() == s@,
            out@ == it.seq().take(it.index() as int),
    {
        out.push(c);
    }
    out
}

/// A string holding exactly the given characters.
pub fn string_from_chars(chars: &[char]) -> (out: String)
    ensures
        out@ == chars@,
{
    let mut out = String::new();
    for i in 0..chars.len()
        invariant
            out@ == chars@.take(i as int),
    {
        push_char(&mut out, chars[i]);
        proof {
            assert(chars@.take(i + 1) == chars@.take(i as int).push(chars@[i as int]));
        }
    }
    proof {
        assert(chars@.take(chars@.len() as int) == chars@);
    }
    out
}

/// Whether two texts are equal.
pub fn same_text(a: &str, b: &str) -> (same: bool)
    ensures
        same == (a@ == b@),
{
    let x = chars_of(a);
    let y = chars_of(b);
    if x.len() != y.len() {
        return false;
    }
    for i in 0..x.len()
        invariant
            x@ == a@,
            y@ == b@,
            x@.len() == y@.len(),
            forall|k: int| 0 <= k < i ==> x@[k] == y@[k],
    {
        if x[i] != y[i] {
            proof {
                assert(x@[i as int] != y@[i as int]);
            }
            return false;
        }
    }
    proof {
        assert(x@ =~= y@);
    }
    true
}

/// Appends all characters of `extra` to `out`.
pub fn append_chars(out: &mut Vec<char>, extra: &[char])
    ensures
        final(out)@ == old(out)@ + extra@,
{
    let ghost start = out@;
    for i in 0..extra.len()
        invariant
            out@ == start + extra@.take(i as int),
    {
        out.push(extra[i]);
        proof {
            assert(extra@.take(i + 1) == extra@.take(i as int).push(extra@[i as int]));
        }
    }
    proof {
        assert(extra@.take(extra@.len() as int) == extra@);
    }
}

// ---------------------------------------------------------------------------
// ASCII case
// ---------------------------------------------------------------------------

pub open spec fn is_ascii_upper(c: char) -> bool {
    'A' <= c && c <= 'Z'
}

pub open spec fn is_ascii_lower(c: char) -> bool {
    'a' <= c && c <= 'z'
}

/// `char::to_ascii_lowercase`.
pub open spec fn lower(c: char) -> char {
    if is_ascii_upper(c) {
        ((c as u32) + 32) as char
    } else {
        c
    }
}

/// `char::to_ascii_uppercase`.
pub open spec fn upper(c: char) -> char {
    if is_ascii_lower(c) {
        ((c as u32) - 32) as char
    } else {
        c
    }
}

pub open spec fn lower_seq(s: Seq<char>) -> Seq<char> {
    s.map_values(|c: char| lower(c))
}

pub open spec fn upper_seq(s: Seq<char>) -> Seq<char> {
    s.map_values(|c: char| upper(c))
}

pub fn lower_char(c: char) -> (r: char)
    ensures
        r == lower(c),
{
    if 'A' <= c && c <= 'Z' {
        ((c as u8) + 32) as char
    } else {
        c
    }
}

pub fn upper_char(c: char) -> (r: char)
    ensures
        r == upper(c),
{
    if 'a' <= c && c <= 'z' {
        ((c as u8) - 32) as char
    } else {
        c
    }
}

/// `to_ascii_lowercase` over a character sequence.
pub fn to_lower(s: &[char]) -> (out: Vec<char>)
    ensures
        out@ == lower_seq(s@),
{
    let mut out: Vec<char> = Vec::new();
    for i in 0..s.len()
        invariant
            out@ == lower_seq(s@.take(i as int)),
    {
        out.push(lower_char(s[i]));
        proof {
            assert(s@.take(i + 1) == s@.take(i as int).push(s@[i as int]));
            assert(lower_seq(s@.take(i + 1)) == lower_seq(s@.take(i as int)).push(lower(s@[i as int])));
        }
    }
    proof {
        assert(s@.take(s@.len() as int) == s@);
    }
    out
}

/// `to_ascii_uppercase` over a character sequence.
pub fn to_upper(s: &[char]) -> (out: Vec<char>)
    ensures
        out@ == upper_seq(s@),
{
    let mut out: Vec<char> = Vec::new();
    for i in 0..s.len()
        invariant
            out@ == upper_seq(s@.take(i as int)),
    {
        out.push(upper_char(s[i]));
        proof {
            assert(s@.take(i + 1) == s@.take(i as int).push(s@[i as int]));
            assert(upper_seq(s@.take(i + 1)) == upper_seq(s@.take(i as int)).push(upper(s@[i as int])));
        }
    }
    proof {
        assert(s@.take(s@.len() as int) == s@);
    }
    out
}

/// `eq_ignore_ascii_case`.
pub open spec fn eq_ignore_case(a: Seq<char>, b: Seq<char>) -> bool {
    lower_seq(a) == lower_seq(b)
}

// ---------------------------------------------------------------------------
// Searching
// ---------------------------------------------------------------------------

/// `needle` occurs in `s` starting at index `i`.
pub open spec fn occurs_at(s: Seq<char>, needle: Seq<char>, i: int) -> bool {
    0 <= i && i + needle.len() <= s.len() && s.subrange(i, i + needle.len()) == needle
}

/// `str::contains` with a string pattern.
pub open spec fn has_infix(s: Seq<char>, needle: Seq<char>) -> bool {
    exists|i: int| occurs_at(s, needle, i)
}

pub fn matches_at(s: &[char], needle: &[char], i: usize) -> (b: bool)
    requires
        i <= s@.len(),
    ensures
        b == occurs_at(s@, needle@, i as int),
{
    if needle.len() > s.len() - i {
        return false;
    }
    let mut k: usize = 0;
    while k < needle.len()
        invariant
            i + needle@.len() <= s@.len(),
            s@.len() == s.len(),
            needle@.len() == needle.len(),
            k <= needle@.len(),
            forall|m: int| 0 <= m < k ==> s@[i + m] == needle@[m],
        decreases needle@.len() - k,
    {
        if s[i + k] != needle[k] {
            proof {
                assert(s@.subrange(i as int, i + needle@.len())[k as int] != needle@[k as int]);
            }
            return false;
        }
        k += 1;
    }
    proof {
        assert(s@.subrange(i as int, i + needle@.len()) =~= needle@);
    }
    true
}

/// `str::starts_with`.
pub fn starts_with(s: &[char], prefix: &[char]) -> (b: bool)
    ensures
        b == prefix@.is_prefix_of(s@),
{
    let b = matches_at(s, prefix, 0);
    proof {
        if b {
            assert(s@.subrange(0, prefix@.len() as int) =~= prefix@);
        }
    }
    b
}

/// `str::ends_with`.
pub fn ends_with(s: &[char], suffix: &[char]) -> (b: bool)
    ensures
        b == suffix@.is_suffix_of(s@),
{
    if suffix.len() > s.len() {
        return false;
    }
    matches_at(s, suffix, s.len() - suffix.len())
}

/// The first index at which `needle` occurs (`str::find`).
pub fn find(s: &[char], needle: &[char]) -> (r: Option<usize>)
    ensures
        match r {
            Some(i) => occurs_at(s@, needle@, i as int) && forall|j: int|
                0 <= j < i ==> !occurs_at(s@, needle@, j),
            None => !has_infix(s@, needle@),
        },
{
    if needle.len() > s.len() {
        return None;
    }
    if needle.len() == 0 {
        proof {
            assert(s@.subrange(0, 0) =~= needle@);
        }
        return Some(0);
    }
    let last = s.len() - needle.len();
    for i in 0..last + 1
        invariant
            last + needle@.len() == s@.len(),
            forall|j: int| 0 <= j < i ==> !occurs_at(s@, needle@, j),
    {
        if matches_at(s, needle, i) {
            return Some(i);
        }
    }
    None
}

/// `str::contains`.
pub fn contains(s: &[char], needle: &[char]) -> (b: bool)
    ensures
        b == has_infix(s@, needle@),
{
    find(s, needle).is_some()
}

/// The index of the first element of `s` that is one of `set`, or `s.len()`.
pub open spec fn first_in(s: Seq<char>, set: Seq<char>) -> int
    decreases s.len(),
{
    if s.len() == 0 {
        0
    } else if set.contains(s[0]) {
        0
    } else {
        1 + first_in(s.drop_first(), set)
    }
}

pub proof fn lemma_first_in(s: Seq<char>, set: Seq<char>, k: int)
    requires
        0 <= k <= s.len(),
        forall|m: int| 0 <= m < k ==> !set.contains(#[trigger] s[m]),
        k == s.len() || set.contains(s[k]),
    ensures
        first_in(s, set) == k,
    decreases k,
{
    if k > 0 {
        assert forall|m: int| 0 <= m < k - 1 implies !set.contains(#[trigger] s.drop_first()[m]) by {
            assert(s.drop_first()[m] == s[m + 1]);
        }
        lemma_first_in(s.drop_first(), set, k - 1);
    }
}

/// Whether `c` is one of `set`.
pub fn member(c: char, set: &[char]) -> (b: bool)
    ensures
        b == set@.contains(c),
{
    for i in 0..set.len()
        invariant
            forall|m: int| 0 <= m < i ==> set@[m] != c,
    {
        if set[i] == c {
            return true;
        }
    }
    false
}

/// Index of the first character of `s[start..]` that is in `set`, relative
/// to the whole of `s`; `s.len()` when there is none.
pub fn position_in(s: &[char], start: usize, set: &[char]) -> (r: usize)
    requires
        start <= s@.len(),
    ensures
        start <= r <= s@.len(),
        r - start == first_in(s@.subrange(start as int, s@.len() as int), set@),
{
    let mut j = start;
    while j < s.len() && !member(s[j], set)
        invariant
            start <= j <= s@.len(),
            forall|m: int| start <= m < j ==> !set@.contains(#[trigger] s@[m]),
        decreases s@.len() - j,
    {
        j += 1;
    }
    proof {
        let t = s@.subrange(start as int, s@.len() as int);
        assert forall|m: int| 0 <= m < j - start implies !set@.contains(#[trigger] t[m]) by {
            assert(t[m] == s@[start + m]);
        }
        if j < s@.len() {
            assert(t[j - start] == s@[j as int]);
        }
        lemma_first_in(t, set@, j - start);
    }
    j
}

// ---------------------------------------------------------------------------
// Splitting
// ---------------------------------------------------------------------------

/// The pieces of `s` between separators from `set` (`str::split` with a
/// set of characters): always at least one piece.
pub open spec fn split_on(s: Seq<char>, set: Seq<char>) -> Seq<Seq<char>>
    decreases s.len(),
{
    let f = first_in(s, set);
    if f >= s.len() {
        seq![s]
    } else {
        proof {
            lemma_first_in_bounds(s, set);
        }
        seq![s.take(f)] + split_on(s.skip(f + 1), set)
    }
}

/// Splitting always yields at least one piece.
pub proof fn lemma_split_nonempty(s: Seq<char>, set: Seq<char>)
    ensures
        split_on(s, set).len() >= 1,
{
    lemma_first_in_bounds(s, set);
}

pub proof fn lemma_first_in_bounds(s: Seq<char>, set: Seq<char>)
    ensures
        0 <= first_in(s, set) <= s.len(),
        first_in(s, set) < s.len() ==> set.contains(s[first_in(s, set)]),
        forall|m: int| 0 <= m < first_in(s, set) ==> !set.contains(#[trigger] s[m]),
    decreases s.len(),
{
    if s.len() > 0 && !set.contains(s[0]) {
        lemma_first_in_bounds(s.drop_first(), set);
        assert forall|m: int| 0 <= m < first_in(s, set) implies !set.contains(#[trigger] s[m]) by {
            if m > 0 {
                assert(s[m] == s.drop_first()[m - 1]);
            }
        }
    }
}

/// The first piece of `split_on` (what `split(..).next()` returns).
pub fn first_piece(s: &[char], set: &[char]) -> (out: Vec<char>)
    ensures
        out@ == split_on(s@, set@)[0],
{
    let j = position_in(s, 0, set);
    proof {
        assert(s@.subrange(0, s@.len() as int) == s@);
        lemma_first_in_bounds(s@, set@);
    }
    let mut out: Vec<char> = Vec::new();
    for i in 0..j
        invariant
            j <= s@.len(),
            out@ == s@.take(i as int),
    {
        out.push(s[i]);
        proof {
            assert(s@.take(i + 1) == s@.take(i as int).push(s@[i as int]));
        }
    }
    proof {
        if (j as int) < s@.len() {
            assert(split_on(s@, set@)[0] == s@.take(j as int));
        } else {
            assert(s@.take(j as int) == s@);
        }
    }
    out
}

/// `s[from..to]` as a vector.
pub fn slice_chars(s: &[char], from: usize, to: usize) -> (out: Vec<char>)
    requires
        from <= to <= s@.len(),
    ensures
        out@ == s@.subrange(from as int, to as int),
{
    let mut out: Vec<char> = Vec::new();
    let mut i = from;
    while i < to
        invariant
            from <= i <= to <= s@.len(),
            out@ == s@.subrange(from as int, i as int),
        decreases to - i,
    {
        out.push(s[i]);
        proof {
            assert(s@.subrange(from as int, i + 1) == s@.subrange(from as int, i as int).push(s@[i as int]));
        }
        i += 1;
    }
    out
}

pub proof fn lemma_split_step(s: Seq<char>, set: Seq<char>, start: int, j: int)
    requires
        0 <= start <= j < s.len(),
        j - start == first_in(s.subrange(start, s.len() as int), set),
    ensures
        split_on(s.subrange(start, s.len() as int), set) == seq![s.subrange(start, j)]
            + split_on(s.subrange(j + 1, s.len() as int), set),
{
    let t = s.subrange(start, s.len() as int);
    assert(t.take(j - start) == s.subrange(start, j));
    assert(t.skip(j - start + 1) == s.subrange(j + 1, s.len() as int));
}

/// The character sequences held by a vector of character vectors.
pub open spec fn pieces(v: Seq<Vec<char>>) -> Seq<Seq<char>> {
    Seq::new(v.len(), |i: int| v[i]@)
}

/// All pieces of `split_on`.
pub fn split(s: &[char], set: &[char]) -> (out: Vec<Vec<char>>)
    ensures
        pieces(out@) == split_on(s@, set@),
{
    let mut out: Vec<Vec<char>> = Vec::new();
    let mut start: usize = 0;
    proof {
        assert(s@.subrange(0, s@.len() as int) == s@);
    }
    loop
        invariant
            start <= s@.len(),
            split_on(s@, set@) == pieces(out@) + split_on(s@.subrange(start as int, s@.len() as int), set@),
        decreases s@.len() - start,
    {
        let j = position_in(s, start, set);
        let piece = slice_chars(s, start, j);
        let ghost before = pieces(out@);
        out.push(piece);
        proof {
            assert(pieces(out@) =~= before.push(piece@));
        }
        if j == s.len() {
            proof {
                let t = s@.subrange(start as int, s@.len() as int);
                assert(split_on(t, set@) == seq![t]);
                assert(pieces(out@) =~= before + seq![t]);
            }
            return out;
        }
        proof {
            lemma_split_step(s@, set@, start as int, j as int);
            assert(before.push(piece@) + split_on(s@.subrange(j + 1, s@.len() as int), set@)
                =~= before + (seq![piece@] + split_on(s@.subrange(j + 1, s@.len() as int), set@)));
        }
        start = j + 1;
    }
}

// ---------------------------------------------------------------------------
// Whitespace
// ---------------------------------------------------------------------------

/// `char::is_whitespace`: the Unicode `White_Space` property.
pub open spec fn is_space(c: char) -> bool {
    ('\u{9}' <= c && c <= '\u{d}') || c == ' ' || c == '\u{85}' || c == '\u{a0}'
        || c == '\u{1680}' || ('\u{2000}' <= c && c <= '\u{200a}') || c == '\u{2028}'
        || c == '\u{2029}' || c == '\u{202f}' || c == '\u{205f}' || c == '\u{3000}'
}

pub fn is_space_char(c: char) -> (b: bool)
    ensures
        b == is_space(c),
{
    ('\u{9}' <= c && c <= '\u{d}') || c == ' ' || c == '\u{85}' || c == '\u{a0}'
        || c == '\u{1680}' || ('\u{2000}' <= c && c <= '\u{200a}') || c == '\u{2028}'
        || c == '\u{2029}' || c == '\u{202f}' || c == '\u{205f}' || c == '\u{3000}'
}

/// `str::trim_start`.
pub open spec fn trim_start(s: Seq<char>) -> Seq<char>
    decreases s.len(),
{
    if s.len() > 0 && is_space(s[0]) {
        trim_start(s.drop_first())
    } else {
        s
    }
}

/// `str::trim_end`.
pub open spec fn trim_end(s: Seq<char>) -> Seq<char>
    decreases s.len(),
{
    if s.len() > 0 && is_space(s.last()) {
        trim_end(s.drop_last())
    } else {
        s
    }
}

/// `str::trim`.
pub open spec fn trim(s: Seq<char>) -> Seq<char> {
    trim_end(trim_start(s))
}

/// Index range of `trim_start`.
pub fn trim_start_index(s: &[char]) -> (a: usize)
    ensures
        a <= s@.len(),
        trim_start(s@) == s@.subrange(a as int, s@.len() as int),
{
    let mut a: usize = 0;
    proof {
        assert(s@.subrange(0, s@.len() as int) == s@);
    }
    while a < s.len() && is_space_char(s[a])
        invariant
            a <= s@.len(),
            trim_start(s@) == trim_start(s@.subrange(a as int, s@.len() as int)),
        decreases s@.len() - a,
    {
        proof {
            assert(s@.subrange(a as int, s@.len() as int).drop_first() == s@.subrange(a + 1, s@.len() as int));
        }
        a += 1;
    }
    a
}

/// Index range of `trim_end` applied to `s[from..]`.
pub fn trim_end_index(s: &[char], from: usize) -> (b: usize)
    requires
        from <= s@.len(),
    ensures
        from <= b <= s@.len(),
        trim_end(s@.subrange(from as int, s@.len() as int)) == s@.subrange(from as int, b as int),
{
    let mut b: usize = s.len();
    while b > from && is_space_char(s[b - 1])
        invariant
            from <= b <= s@.len(),
            trim_end(s@.subrange(from as int, s@.len() as int)) == trim_end(s@.subrange(from as int, b as int)),
        decreases b,
    {
        proof {
            assert(s@.subrange(from as int, b as int).drop_last() == s@.subrange(from as int, b - 1));
        }
        b -= 1;
    }
    b
}

/// `str::trim_start` over characters.
pub fn trimmed_start(s: &[char]) -> (out: Vec<char>)
    ensures
        out@ == trim_start(s@),
{
    let a = trim_start_index(s);
    slice_chars(s, a, s.len())
}

/// `str::trim` over characters.
pub fn trimmed(s: &[char]) -> (out: Vec<char>)
    ensures
        out@ == trim(s@),
{
    let a = trim_start_index(s);
    let b = trim_end_index(s, a);
    slice_chars(s, a, b)
}

/// Whether every character is whitespace, i.e. `trim()` is empty.
pub fn is_blank(s: &[char]) -> (b: bool)
    ensures
        b == (trim(s@).len() == 0),
{
    let t = trimmed(s);
    t.len() == 0
}

// ---------------------------------------------------------------------------
// Decimal numbers
// ---------------------------------------------------------------------------

pub open spec fn digit(d: nat) -> char {
    ((('0' as u32) as nat) + d) as char
}

pub open spec fn is_digit(c: char) -> bool {
    '0' <= c && c <= '9'
}

pub open spec fn digit_value(c: char) -> nat {
    ((c as u32) - ('0' as u32)) as nat
}

/// The decimal representation of `n`, as `u64::to_string` prints it.
pub open spec fn decimal(n: nat) -> Seq<char>
    decreases n,
{
    if n < 10 {
        seq![digit(n)]
    } else {
        decimal(n / 10).push(digit(n % 10))
    }
}

pub fn digit_char(d: u64) -> (c: char)
    requires
        d < 10,
    ensures
        c == digit(d as nat),
        is_digit(c),
        digit_value(c) == d,
{
    ((d as u8) + 48) as char
}

/// Appends the decimal representation of `n` to `out`.
pub fn push_decimal(out: &mut Vec<char>, n: u64)
    ensures
        final(out)@ == old(out)@ + decimal(n as nat),
    decreases n,
{
    if n >= 10 {
        push_decimal(out, n / 10);
    }
    let ghost before = out@;
    out.push(digit_char(n % 10));
    proof {
        if n >= 10 {
            assert(before + seq![digit((n % 10) as nat)] == before.push(digit((n % 10) as nat)));
        }
    }
}

/// `n.to_string()`.
pub fn decimal_string(n: u64) -> (s: String)
    ensures
        s@ == decimal(n as nat),
{
    let mut v: Vec<char> = Vec::new();
    push_decimal(&mut v, n);
    proof {
        assert(Seq::<char>::empty() + decimal(n as nat) == decimal(n as nat));
    }
    string_from_chars(&v)
}

pub open spec fn all_digits(s: Seq<char>) -> bool {
    forall|i: int| 0 <= i < s.len() ==> is_digit(#[trigger] s[i])
}

/// The value of a run of decimal digits.
pub open spec fn digits_value(s: Seq<char>) -> nat
    decreases s.len(),
{
    if s.len() == 0 {
        0
    } else {
        digits_value(s.drop_last()) * 10 + digit_value(s.last())
    }
}

/// What `str::parse::<u64>` returns: an optional `+`, then at least one
/// decimal digit, and no overflow.
pub open spec fn parse_u64_spec(s: Seq<char>) -> Option<u64> {
    let body = if s.len() > 0 && s[0] == '+' {
        s.drop_first()
    } else {
        s
    };
    if body.len() > 0 && all_digits(body) && digits_value(body) <= u64::MAX {
        Some(digits_value(body) as u64)
    } else {
        None
    }
}

pub proof fn lemma_digits_value_monotone(s: Seq<char>, i: int)
    requires
        0 <= i <= s.len(),
    ensures
        digits_value(s.take(i)) <= digits_value(s),
    decreases s.len() - i,
{
    if i < s.len() {
        assert(s.drop_last().take(i) == s.take(i));
        lemma_digits_value_monotone(s.drop_last(), i);
    } else {
        assert(s.take(i) == s);
    }
}

/// The decimal text of a number reads back as that number.
pub proof fn lemma_decimal_parses(n: nat)
    ensures
        decimal(n).len() > 0,
        all_digits(decimal(n)),
        digits_value(decimal(n)) == n,
        n <= u64::MAX ==> parse_u64_spec(decimal(n)) == Some(n as u64),
    decreases n,
{
    if n >= 10 {
        lemma_decimal_parses(n / 10);
        let s = decimal(n / 10);
        assert(decimal(n).drop_last() =~= s);
        assert(digit_value(digit(n % 10)) == n % 10);
        assert(n == (n / 10) * 10 + n % 10) by (nonlinear_arith);
        assert(digits_value(decimal(n)) == digits_value(s) * 10 + digit_value(digit(n % 10)));
        assert forall|i: int| 0 <= i < decimal(n).len() implies is_digit(#[trigger] decimal(n)[i]) by {
            if i < s.len() {
                assert(decimal(n)[i] == s[i]);
            }
        }
    } else {
        assert(digit_value(digit(n)) == n);
        assert(decimal(n).drop_last() =~= Seq::<char>::empty());
        assert(digits_value(decimal(n)) == digits_value(Seq::<char>::empty()) * 10 + digit_value(digit(n)));
    }
    assert(is_digit(decimal(n)[0]));
}

/// `str::parse::<u64>`.
pub fn parse_u64(s: &[char]) -> (r: Option<u64>)
    ensures
        r == parse_u64_spec(s@),
{
    let start: usize = if s.len() > 0 && s[0] == '+' { 1 } else { 0 };
    let ghost body = if s@.len() > 0 && s@[0] == '+' { s@.drop_first() } else { s@ };
    proof {
        if start == 1 {
            assert(body == s@.subrange(1, s@.len() as int));
        } else {
            assert(body == s@.subrange(0, s@.len() as int));
        }
    }
    if start >= s.len() {
        return None;
    }
    let mut value: u64 = 0;
    let mut i = start;
    while i < s.len()
        invariant
            start <= i <= s@.len(),
            body == s@.subrange(start as int, s@.len() as int),
            body == (if s@.len() > 0 && s@[0] == '+' { s@.drop_first() } else { s@ }),
            all_digits(body.take(i - start)),
            value == digits_value(body.take(i - start)),
        decreases s@.len() - i,
    {
        let c = s[i];
        proof {
            assert(body.take(i - start + 1).drop_last() == body.take(i - start));
            assert(body.take(i - start + 1).last() == c);
        }
        if !('0' <= c && c <= '9') {
            proof {
                assert(body[i - start] == c);
            }
            return None;
        }
        let d = (c as u32 - '0' as u32) as u64;
        let next = match value.checked_mul(10) {
            Some(m) => m.checked_add(d),
            None => None,
        };
        match next {
            Some(v) => {
                value = v;
            },
            None => {
                proof {
                    lemma_digits_value_monotone(body, i - start + 1);
                }
                return None;
            },
        }
        i += 1;
    }
    proof {
        assert(body.take(i - start) == body);
    }
    Some(value)
}

} // verus!

verus! {

/// Removes and returns the last character of a string (`String::pop`).
#[verifier::external_body]
pub fn pop_char(s: &mut String) -> (c: Option<char>)
    ensures
        old(s)@.len() == 0 ==> c is None && final(s)@ == old(s)@,
        old(s)@.len() > 0 ==> c == Some(old(s)@.last()) && final(s)@ == old(s)@.drop_last(),
{
    s.pop()
}

/// The concatenation of three strings.
pub fn concat3(a: &str, b: &str, c: &str) -> (out: String)
    ensures
        out@ == a@ + b@ + c@,
{
    let mut v = chars_of(a);
    let vb = chars_of(b);
    let vc = chars_of(c);
    append_chars(&mut v, &vb);
    append_chars(&mut v, &vc);
    string_from_chars(&v)
}

} // verus!

verus! {

/// The UTF-8 encoding of a character sequence.
pub open spec fn utf8_bytes(s: Seq<char>) -> Seq<u8> {
    vstd::utf8::encode_utf8(s)
}

} // verus!

verus! {

/// Parts separated by `separator`.
pub open spec fn joined(parts: Seq<Seq<char>>, separator: Seq<char>) -> Seq<char>
    decreases parts.len(),
{
    if parts.len() == 0 {
        Seq::empty()
    } else if parts.len() == 1 {
        parts[0]
    } else {
        joined(parts.drop_last(), separator) + separator + parts.last()
    }
}

} // verus!
