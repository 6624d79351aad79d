//! Text as sequences of characters: conversion, search and edit distance.

use vstd::prelude::*;
use vstd::std_specs::iter::IteratorSpec;

verus! {

broadcast use vstd::string::group_string_axioms;

/// The characters of `s`, in order.
pub fn char_vec(s: &str) -> (v: Vec<char>)
    ensures
        v@ == s@,
{
    let mut v: Vec<char> = Vec::new();
    let mut it = s.chars();
    loop
        invariant
            it.obeys_prophetic_iter_laws(),
            it.decrease() is Some,
            v@ + it.remaining() == s@,
        decreases it.decrease()->0,
    {
        let ghost before = it.remaining();
        let ghost taken = v@;
        match it.next() {
            Some(c) => {
                v.push(c);
                assert(v@ + it.remaining() =~= taken + before) by {
                    assert(before =~= seq![c] + before.drop_first());
                }
            },
            None => {
                assert(v@ + it.remaining() =~= v@);
                return v;
            },
        }
    }
}

/// `String::push`: the character is appended to the string.
#[verifier::external_body]
pub(crate) fn push_char(s: &mut String, c: char)
    ensures
        final(s)@ == old(s)@.push(c),
{
    s.push(c)
}

/// The string made of the characters of `chars`, in order.
pub fn string_of(chars: &Vec<char>) -> (s: String)
    ensures
        s@ == chars@,
{
    let mut s = String::new();
    let mut i: usize = 0;
    while i < chars.len()
        invariant
            i <= chars.len(),
            s@ == chars@.take(i as int),
        decreases chars.len() - i,
    {
        push_char(&mut s, chars[i]);
        assert(chars@.take(i as int).push(chars@[i as int]) =~= chars@.take(i + 1));
        i += 1;
    }
    assert(chars@.take(chars.len() as int) =~= chars@);
    s
}

/// What `str::to_lowercase` makes of a text.
pub uninterp spec fn lowercase_of(s: Seq<char>) -> Seq<char>;

/// `str::to_lowercase`: the lowercase equivalent of the text, as Unicode
/// defines it. The result is a function of the text alone.
#[verifier::external_body]
pub(crate) fn to_lowercase(s: &str) -> (r: String)
    ensures
        r@ == lowercase_of(s@),
{
    s.to_lowercase()
}

/// Whether `needle` occurs in `hay` at position `i`.
pub open spec fn occurs_at(hay: Seq<char>, needle: Seq<char>, i: int) -> bool {
    &&& 0 <= i
    &&& i + needle.len() <= hay.len()
    &&& hay.subrange(i, i + needle.len()) == needle
}

/// Whether `needle` occurs anywhere in `hay`.
pub open spec fn spec_contains(hay: Seq<char>, needle: Seq<char>) -> bool {
    exists|i: int| occurs_at(hay, needle, i)
}

/// Whether `hay` begins with `prefix`.
pub open spec fn spec_starts_with(hay: Seq<char>, prefix: Seq<char>) -> bool {
    occurs_at(hay, prefix, 0)
}

/// Whether `hay` ends with `suffix`.
pub open spec fn spec_ends_with(hay: Seq<char>, suffix: Seq<char>) -> bool {
    occurs_at(hay, suffix, hay.len() - suffix.len())
}

/// Whether `needle` occurs in `hay` at position `i`.
pub fn matches_at(hay: &Vec<char>, needle: &Vec<char>, i: usize) -> (r: bool)
    ensures
        r == occurs_at(hay@, needle@, i as int),
{
    if i > hay.len() || needle.len() > hay.len() - i {
        return false;
    }
    let mut j: usize = 0;
    while j < needle.len()
        invariant
            j <= needle.len(),
            i + needle.len() <= hay.len(),
            hay@.subrange(i as int, i + j) == needle@.take(j as int),
        decreases needle.len() - j,
    {
        if hay[i + j] != needle[j] {
            assert(hay@.subrange(i as int, i + needle.len())[j as int] != needle@[j as int]);
            return false;
        }
        assert(hay@.subrange(i as int, i + j + 1) =~= hay@.subrange(i as int, i + j).push(
            hay@[i + j],
        ));
        assert(needle@.take(j + 1) =~= needle@.take(j as int).push(needle@[j as int]));
        j += 1;
    }
    assert(needle@.take(needle.len() as int) =~= needle@);
    true
}

/// Whether `needle` occurs anywhere in `hay`.
pub fn contains(hay: &Vec<char>, needle: &Vec<char>) -> (r: bool)
    ensures
        r == spec_contains(hay@, needle@),
{
    if needle.len() > hay.len() {
        return false;
    }
    let last: usize = hay.len() - needle.len();
    let mut i: usize = 0;
    loop
        invariant
            i <= last,
            last == hay.len() - needle.len(),
            forall|k: int| 0 <= k < i ==> !occurs_at(hay@, needle@, k),
        decreases last - i,
    {
        if matches_at(hay, needle, i) {
            return true;
        }
        if i == last {
            return false;
        }
        i += 1;
    }
}

/// Whether `hay` begins with `prefix`.
pub fn starts_with(hay: &Vec<char>, prefix: &Vec<char>) -> (r: bool)
    ensures
        r == spec_starts_with(hay@, prefix@),
{
    matches_at(hay, prefix, 0)
}

/// Whether `hay` ends with `suffix`.
pub fn ends_with(hay: &Vec<char>, suffix: &Vec<char>) -> (r: bool)
    ensures
        r == spec_ends_with(hay@, suffix@),
{
    if suffix.len() > hay.len() {
        return false;
    }
    matches_at(hay, suffix, hay.len() - suffix.len())
}

/// Whether `c` occurs in `s`.
pub fn contains_char(s: &Vec<char>, c: char) -> (r: bool)
    ensures
        r == s@.contains(c),
{
    let mut i: usize = 0;
    while i < s.len()
        invariant
            i <= s.len(),
            forall|k: int| 0 <= k < i ==> s@[k] != c,
        decreases s.len() - i,
    {
        if s[i] == c {
            return true;
        }
        i += 1;
    }
    false
}

/// The smallest of three numbers.
pub open spec fn min3(a: int, b: int, c: int) -> int {
    if a <= b && a <= c {
        a
    } else if b <= c {
        b
    } else {
        c
    }
}

/// The least number of insertions, deletions and substitutions of single
/// characters that turn the first `i` characters of `a` into the first
/// `j` characters of `b`.
pub open spec fn edit_distance(a: Seq<char>, b: Seq<char>, i: nat, j: nat) -> nat
    decreases i + j,
{
    if i == 0 {
        j
    } else if j == 0 {
        i
    } else {
        let cost: int = if a[i - 1] == b[j - 1] {
            0
        } else {
            1
        };
        min3(
            edit_distance(a, b, (i - 1) as nat, j) as int + 1,
            edit_distance(a, b, i, (j - 1) as nat) as int + 1,
            edit_distance(a, b, (i - 1) as nat, (j - 1) as nat) as int + cost,
        ) as nat
    }
}

/// The Levenshtein distance between two texts, counted in characters.
pub open spec fn spec_levenshtein(a: Seq<char>, b: Seq<char>) -> nat {
    edit_distance(a, b, a.len(), b.len())
}

/// The distance between two prefixes is at most the length of the longer.
pub proof fn lemma_edit_distance_bound(a: Seq<char>, b: Seq<char>, i: nat, j: nat)
    ensures
        edit_distance(a, b, i, j) <= if i >= j {
            i
        } else {
            j
        },
    decreases i + j,
{
    if i != 0 && j != 0 {
        lemma_edit_distance_bound(a, b, (i - 1) as nat, (j - 1) as nat);
    }
}

/// A text is at distance 0 from itself.
pub proof fn lemma_edit_distance_same(a: Seq<char>, i: nat)
    ensures
        edit_distance(a, a, i, i) == 0,
    decreases i,
{
    if i != 0 {
        lemma_edit_distance_same(a, (i - 1) as nat);
    }
}

/// The Levenshtein distance between two texts, counted in characters.
pub fn levenshtein_distance(s1: &str, s2: &str) -> (d: usize)
    ensures
        d as nat == spec_levenshtein(s1@, s2@),
{
    let a = char_vec(s1);
    let b = char_vec(s2);
    levenshtein_chars(&a, &b)
}

/// The Levenshtein distance between two sequences of characters.
pub fn levenshtein_chars(a: &Vec<char>, b: &Vec<char>) -> (d: usize)
    ensures
        d as nat == spec_levenshtein(a@, b@),
        d <= a.len() || d <= b.len(),
{
    let n: usize = a.len();
    let m: usize = b.len();
    proof {
        lemma_edit_distance_bound(a@, b@, n as nat, m as nat);
    }
    if n == 0 {
        return m;
    }
    if m == 0 {
        return n;
    }
    let mut row: Vec<usize> = Vec::new();
    let mut j: usize = 0;
    while j < m
        invariant
            j <= m,
            row.len() == j,
            forall|t: int| 0 <= t < j ==> row@[t] as nat == edit_distance(a@, b@, 0, (t + 1) as nat),
        decreases m - j,
    {
        row.push(j + 1);
        j += 1;
    }
    let mut i: usize = 0;
    while i < n
        invariant
            i <= n,
            n == a.len(),
            m == b.len(),
            m > 0,
            row.len() == m,
            forall|t: int|
                0 <= t < m ==> row@[t] as nat == edit_distance(a@, b@, i as nat, (t + 1) as nat),
        decreases n - i,
    {
        let mut diag: usize = i;
        let mut left: usize = i + 1;
        let mut k: usize = 0;
        while k < m
            invariant
                k <= m,
                i < n,
                n == a.len(),
                m == b.len(),
                row.len() == m,
                diag as nat == edit_distance(a@, b@, i as nat, k as nat),
                left as nat == edit_distance(a@, b@, (i + 1) as nat, k as nat),
                forall|t: int|
                    0 <= t < k ==> row@[t] as nat == edit_distance(
                        a@,
                        b@,
                        (i + 1) as nat,
                        (t + 1) as nat,
                    ),
                forall|t: int|
                    k <= t < m ==> row@[t] as nat == edit_distance(
                        a@,
                        b@,
                        i as nat,
                        (t + 1) as nat,
                    ),
            decreases m - k,
        {
            let up: usize = row[k];
            proof {
                lemma_edit_distance_bound(a@, b@, i as nat, k as nat);
                lemma_edit_distance_bound(a@, b@, (i + 1) as nat, (k + 1) as nat);
            }
            let low: usize = if up <= left {
                up
            } else {
                left
            };
            let val: usize = if a[i] == b[k] {
                if diag <= low {
                    diag
                } else {
                    low + 1
                }
            } else if diag <= low {
                diag + 1
            } else {
                low + 1
            };
            assert(val as nat == edit_distance(a@, b@, (i + 1) as nat, (k + 1) as nat));
            row.set(k, val);
            diag = up;
            left = val;
            k += 1;
        }
        i += 1;
    }
    row[m - 1]
}

/// The character of a decimal digit.
pub open spec fn digit_char(d: int) -> char {
    if d == 0 {
        '0'
    } else if d == 1 {
        '1'
    } else if d == 2 {
        '2'
    } else if d == 3 {
        '3'
    } else if d == 4 {
        '4'
    } else if d == 5 {
        '5'
    } else if d == 6 {
        '6'
    } else if d == 7 {
        '7'
    } else if d == 8 {
        '8'
    } else {
        '9'
    }
}

/// The decimal digits of `n`, most significant first, without leading zeros.
pub open spec fn spec_decimal(n: nat) -> Seq<char>
    decreases n,
{
    if n < 10 {
        seq![digit_char(n as int)]
    } else {
        spec_decimal(n / 10).push(digit_char((n % 10) as int))
    }
}

/// The decimal form of a signed number: a minus sign where it is negative,
/// then the digits of its magnitude.
pub open spec fn spec_signed_decimal(n: int) -> Seq<char> {
    if n < 0 {
        seq!['-'] + spec_decimal((-n) as nat)
    } else {
        spec_decimal(n as nat)
    }
}

fn digit_of(d: u64) -> (c: char)
    requires
        d < 10,
    ensures
        c == digit_char(d as int),
{
    if d == 0 {
        '0'
    } else if d == 1 {
        '1'
    } else if d == 2 {
        '2'
    } else if d == 3 {
        '3'
    } else if d == 4 {
        '4'
    } else if d == 5 {
        '5'
    } else if d == 6 {
        '6'
    } else if d == 7 {
        '7'
    } else if d == 8 {
        '8'
    } else {
        '9'
    }
}

/// Appends the decimal digits of `n` to `out`.
pub fn push_decimal(out: &mut Vec<char>, n: u64)
    ensures
        final(out)@ == old(out)@ + spec_decimal(n as nat),
    decreases n,
{
    if n < 10 {
        out.push(digit_of(n));
        assert(out@ =~= old(out)@ + spec_decimal(n as nat));
    } else {
        push_decimal(out, n / 10);
        out.push(digit_of(n % 10));
        assert(out@ =~= old(out)@ + spec_decimal(n as nat));
    }
}

/// Appends the decimal form of the signed number `n` to `out`.
pub fn push_signed_decimal(out: &mut Vec<char>, n: i64)
    ensures
        final(out)@ == old(out)@ + spec_signed_decimal(n as int),
{
    if n < 0 {
        out.push('-');
        let magnitude: u64 = if n == i64::MIN {
            0x8000_0000_0000_0000u64
        } else {
            (-n) as u64
        };
        push_decimal(out, magnitude);
        assert(out@ =~= old(out)@ + spec_signed_decimal(n as int));
    } else {
        push_decimal(out, n as u64);
    }
}

/// The decimal form of `n`.
pub fn decimal_string(n: u64) -> (s: String)
    ensures
        s@ == spec_decimal(n as nat),
{
    let mut out: Vec<char> = Vec::new();
    push_decimal(&mut out, n);
    assert(out@ =~= spec_decimal(n as nat));
    string_of(&out)
}

/// The decimal form of the signed number `n`.
pub fn signed_decimal_string(n: i64) -> (s: String)
    ensures
        s@ == spec_signed_decimal(n as int),
{
    let mut out: Vec<char> = Vec::new();
    push_signed_decimal(&mut out, n);
    assert(out@ =~= spec_signed_decimal(n as int));
    string_of(&out)
}

/// Appends the characters of `more` to `out`.
pub fn push_all(out: &mut Vec<char>, more: &Vec<char>)
    ensures
        final(out)@ == old(out)@ + more@,
{
    let mut i: usize = 0;
    while i < more.len()
        invariant
            i <= more.len(),
            out@ == old(out)@ + more@.take(i as int),
        decreases more.len() - i,
    {
        out.push(more[i]);
        assert(out@ =~= old(out)@ + more@.take(i + 1));
        i += 1;
    }
    assert(more@.take(more.len() as int) =~= more@);
}

/// Appends the characters of `more` to `out`.
pub fn push_str_chars(out: &mut Vec<char>, more: &str)
    ensures
        final(out)@ == old(out)@ + more@,
{
    let v = char_vec(more);
    push_all(out, &v);
}

/// Whether `c` has the Unicode property White_Space.
pub open spec fn is_whitespace(c: char) -> bool {
    let u = c as u32;
    ||| 0x09 <= u <= 0x0d
    ||| u == 0x20
    ||| u == 0x85
    ||| u == 0xa0
    ||| u == 0x1680
    ||| 0x2000 <= u <= 0x200a
    ||| u == 0x2028
    ||| u == 0x2029
    ||| u == 0x202f
    ||| u == 0x205f
    ||| u == 0x3000
}

/// Whether `c` has the Unicode property White_Space.
pub fn char_is_whitespace(c: char) -> (r: bool)
    ensures
        r == is_whitespace(c),
{
    let u: u32 = c as u32;
    (0x09 <= u && u <= 0x0d) || u == 0x20 || u == 0x85 || u == 0xa0 || u == 0x1680 || (0x2000 <= u
        && u <= 0x200a) || u == 0x2028 || u == 0x2029 || u == 0x202f || u == 0x205f || u == 0x3000
}

/// `s` without the whitespace at its start.
pub open spec fn trim_start(s: Seq<char>) -> Seq<char>
    decreases s.len(),
{
    if s.len() > 0 && is_whitespace(s[0]) {
        trim_start(s.drop_first())
    } else {
        s
    }
}

/// `s` without the whitespace at its end.
pub open spec fn trim_end(s: Seq<char>) -> Seq<char>
    decreases s.len(),
{
    if s.len() > 0 && is_whitespace(s.last()) {
        trim_end(s.drop_last())
    } else {
        s
    }
}

/// `s` without the whitespace at its start and at its end.
pub open spec fn trim(s: Seq<char>) -> Seq<char> {
    trim_end(trim_start(s))
}

/// The part of `s` before the first occurrence of `c`; all of `s` where `c`
/// does not occur.
pub open spec fn prefix_before(s: Seq<char>, c: char) -> Seq<char>
    decreases s.len(),
{
    if s.len() == 0 || s[0] == c {
        Seq::empty()
    } else {
        seq![s[0]] + prefix_before(s.drop_first(), c)
    }
}

proof fn lemma_trim_start_skip(s: Seq<char>, lo: int)
    requires
        0 <= lo <= s.len(),
        forall|k: int| 0 <= k < lo ==> is_whitespace(s[k]),
        lo == s.len() || !is_whitespace(s[lo]),
    ensures
        trim_start(s) == s.skip(lo),
    decreases lo,
{
    if lo == 0 {
        assert(s.skip(0) =~= s);
    } else {
        lemma_trim_start_skip(s.drop_first(), lo - 1);
        assert(s.drop_first().skip(lo - 1) =~= s.skip(lo));
    }
}

proof fn lemma_trim_end_take(s: Seq<char>, hi: int)
    requires
        0 <= hi <= s.len(),
        forall|k: int| hi <= k < s.len() ==> is_whitespace(s[k]),
        hi == 0 || !is_whitespace(s[hi - 1]),
    ensures
        trim_end(s) == s.take(hi),
    decreases s.len() - hi,
{
    if hi == s.len() {
        assert(s.take(hi) =~= s);
    } else {
        lemma_trim_end_take(s.drop_last(), hi);
        assert(s.drop_last().take(hi) =~= s.take(hi));
    }
}

/// The part before a character is a prefix of the text.
pub proof fn lemma_prefix_before_is_prefix(s: Seq<char>, c: char)
    ensures
        prefix_before(s, c).len() <= s.len(),
        prefix_before(s, c) == s.take(prefix_before(s, c).len() as int),
        prefix_before(s, c).len() < s.len() ==> s[prefix_before(s, c).len() as int] == c,
    decreases s.len(),
{
    if s.len() == 0 || s[0] == c {
        assert(s.take(0) =~= Seq::<char>::empty());
    } else {
        lemma_prefix_before_is_prefix(s.drop_first(), c);
        let n = prefix_before(s.drop_first(), c).len() as int;
        assert(seq![s[0]] + s.drop_first().take(n) =~= s.take(n + 1));
    }
}

proof fn lemma_prefix_before_take(s: Seq<char>, c: char, i: int)
    requires
        0 <= i <= s.len(),
        forall|k: int| 0 <= k < i ==> s[k] != c,
        i == s.len() || s[i] == c,
    ensures
        prefix_before(s, c) == s.take(i),
    decreases i,
{
    if i == 0 {
        assert(s.take(0) =~= Seq::<char>::empty());
    } else {
        lemma_prefix_before_take(s.drop_first(), c, i - 1);
        assert(seq![s[0]] + s.drop_first().take(i - 1) =~= s.take(i));
    }
}

/// The characters of `s` from position `from` up to, not including, `to`.
pub fn slice_chars(s: &Vec<char>, from: usize, to: usize) -> (r: Vec<char>)
    requires
        from <= to <= s.len(),
    ensures
        r@ == s@.subrange(from as int, to as int),
{
    let mut r: Vec<char> = Vec::new();
    let mut i: usize = from;
    while i < to
        invariant
            from <= i <= to,
            to <= s.len(),
            r@ == s@.subrange(from as int, i as int),
        decreases to - i,
    {
        r.push(s[i]);
        assert(r@ =~= s@.subrange(from as int, i + 1));
        i += 1;
    }
    r
}

/// `s` without the whitespace at its start and at its end.
pub fn trim_chars(s: &Vec<char>) -> (r: Vec<char>)
    ensures
        r@ == trim(s@),
{
    let mut lo: usize = 0;
    while lo < s.len() && char_is_whitespace(s[lo])
        invariant
            lo <= s.len(),
            forall|k: int| 0 <= k < lo ==> is_whitespace(s@[k]),
        decreases s.len() - lo,
    {
        lo += 1;
    }
    let mut hi: usize = s.len();
    while hi > lo && char_is_whitespace(s[hi - 1])
        invariant
            lo <= hi <= s.len(),
            forall|k: int| hi <= k < s.len() ==> is_whitespace(s@[k]),
        decreases hi,
    {
        hi -= 1;
    }
    proof {
        lemma_trim_start_skip(s@, lo as int);
        let rest = s@.skip(lo as int);
        assert forall|k: int| hi - lo <= k < rest.len() implies is_whitespace(rest[k]) by {
            assert(rest[k] == s@[k + lo]);
        }
        if hi > lo {
            assert(rest[hi - lo - 1] == s@[hi - 1]);
        }
        lemma_trim_end_take(rest, hi - lo);
        assert(rest.take(hi - lo) =~= s@.subrange(lo as int, hi as int));
    }
    slice_chars(s, lo, hi)
}

/// The part of `s` before the first occurrence of `c`.
pub fn take_before(s: &Vec<char>, c: char) -> (r: Vec<char>)
    ensures
        r@ == prefix_before(s@, c),
{
    let mut i: usize = 0;
    while i < s.len() && s[i] != c
        invariant
            i <= s.len(),
            forall|k: int| 0 <= k < i ==> s@[k] != c,
        decreases s.len() - i,
    {
        i += 1;
    }
    proof {
        lemma_prefix_before_take(s@, c, i as int);
        assert(s@.take(i as int) =~= s@.subrange(0, i as int));
    }
    slice_chars(s, 0, i)
}

/// Whether two sequences of characters are the same.
pub fn same_chars(a: &Vec<char>, b: &Vec<char>) -> (r: bool)
    ensures
        r == (a@ == b@),
{
    if a.len() != b.len() {
        return false;
    }
    let mut i: usize = 0;
    while i < a.len()
        invariant
            i <= a.len(),
            a.len() == b.len(),
            forall|k: int| 0 <= k < i ==> a@[k] == b@[k],
        decreases a.len() - i,
    {
        if a[i] != b[i] {
            return false;
        }
        i += 1;
    }
    assert(a@ =~= b@);
    true
}

/// Whether two texts are the same.
pub fn str_eq(a: &str, b: &str) -> (r: bool)
    ensures
        r == (a@ == b@),
{
    let x = char_vec(a);
    let y = char_vec(b);
    same_chars(&x, &y)
}

/// Whether `c` is one of the digits 0 to 9.
pub open spec fn is_digit(c: char) -> bool {
    '0' <= c <= '9'
}

/// The value of a digit.
pub open spec fn digit_value(c: char) -> int {
    c as u32 as int - '0' as u32 as int
}

/// Whether every character of `s` is a digit.
pub open spec fn all_digits(s: Seq<char>) -> bool {
    forall|i: int| 0 <= i < s.len() ==> is_digit(#[trigger] s[i])
}

/// The number that the digits of `s` write in base ten.
pub open spec fn digits_value(s: Seq<char>) -> nat
    decreases s.len(),
{
    if s.len() == 0 {
        0
    } else {
        (digits_value(s.drop_last()) * 10 + digit_value(s.last())) as nat
    }
}

/// The number between `lo` and `hi` that `s` writes in base ten: an
/// optional sign, then at least one digit and nothing else; none where the
/// number is outside these bounds.
pub open spec fn parse_int(s: Seq<char>, lo: int, hi: int) -> Option<int> {
    let negative = s.len() > 0 && s[0] == '-';
    let body = if s.len() > 0 && (s[0] == '-' || s[0] == '+') {
        s.drop_first()
    } else {
        s
    };
    let value = if negative {
        -(digits_value(body) as int)
    } else {
        digits_value(body) as int
    };
    if body.len() == 0 || !all_digits(body) || value < lo || value > hi {
        None
    } else {
        Some(value)
    }
}

/// The 32-bit number that `s` writes in base ten.
pub open spec fn parse_i32(s: Seq<char>) -> Option<i32> {
    match parse_int(s, i32::MIN as int, i32::MAX as int) {
        Some(v) => Some(v as i32),
        None => None,
    }
}

/// The 64-bit number that `s` writes in base ten.
pub open spec fn parse_i64(s: Seq<char>) -> Option<i64> {
    match parse_int(s, i64::MIN as int, i64::MAX as int) {
        Some(v) => Some(v as i64),
        None => None,
    }
}

/// The 32-bit number without sign that `s` writes in base ten.
pub open spec fn parse_u32(s: Seq<char>) -> Option<u32> {
    match parse_int(s, 0, u32::MAX as int) {
        Some(v) => Some(v as u32),
        None => None,
    }
}

/// The number between `lo` and `hi` that the characters write in base ten.
pub fn parse_int_chars(s: &Vec<char>, lo: i128, hi: i128) -> (r: Option<i128>)
    requires
        -0x1_0000_0000_0000_0000 <= lo <= hi <= 0x1_0000_0000_0000_0000,
    ensures
        match r {
            Some(v) => parse_int(s@, lo as int, hi as int) == Some(v as int),
            None => parse_int(s@, lo as int, hi as int) is None,
        },
{
    if s.len() == 0 {
        return None;
    }
    let negative: bool = s[0] == '-';
    let start: usize = if s[0] == '-' || s[0] == '+' {
        1
    } else {
        0
    };
    let ghost body = if start == 1 {
        s@.drop_first()
    } else {
        s@
    };
    assert(body =~= s@.skip(start as int));
    if start == s.len() {
        return None;
    }
    let mut acc: i128 = 0;
    let mut too_large: bool = false;
    let mut i: usize = start;
    while i < s.len()
        invariant
            start <= i <= s.len(),
            body == s@.skip(start as int),
            body == if s@.len() > 0 && (s@[0] == '-' || s@[0] == '+') {
                s@.drop_first()
            } else {
                s@
            },
            forall|k: int| 0 <= k < i - start ==> is_digit(#[trigger] body[k]),
            !too_large ==> acc as nat == digits_value(body.take(i - start)),
            too_large ==> digits_value(body.take(i - start)) > 0x1_0000_0000_0000_0000,
            0 <= acc <= 0x1_0000_0000_0000_0000,
        decreases s.len() - i,
    {
        let c = s[i];
        assert(body[i - start] == c);
        if !('0' <= c && c <= '9') {
            assert(!is_digit(body[i - start]));
            assert(!all_digits(body));
            return None;
        }
        let d: i128 = (c as u32 - '0' as u32) as i128;
        proof {
            assert(body.take(i - start + 1).drop_last() =~= body.take(i - start));
            assert(body.take(i - start + 1).last() == c);
        }
        if !too_large {
            let next: i128 = acc * 10 + d;
            if next > 0x1_0000_0000_0000_0000 {
                too_large = true;
            } else {
                acc = next;
            }
        } else {
            assert(digits_value(body.take(i - start + 1)) > 0x1_0000_0000_0000_0000)
                by (nonlinear_arith)
                requires
                    digits_value(body.take(i - start + 1)) == digits_value(body.take(i - start)) * 10
                        + d,
                    digits_value(body.take(i - start)) > 0x1_0000_0000_0000_0000,
                    d >= 0,
            ;
        }
        i += 1;
    }
    assert(body.take(body.len() as int) =~= body);
    assert(all_digits(body));
    if too_large {
        return None;
    }
    let value: i128 = if negative {
        -acc
    } else {
        acc
    };
    if value < lo || value > hi {
        None
    } else {
        Some(value)
    }
}

/// The 32-bit number that the characters write in base ten.
pub fn parse_i32_chars(s: &Vec<char>) -> (r: Option<i32>)
    ensures
        r == parse_i32(s@),
{
    match parse_int_chars(s, i32::MIN as i128, i32::MAX as i128) {
        Some(v) => Some(v as i32),
        None => None,
    }
}

/// The 64-bit number that the characters write in base ten.
pub fn parse_i64_chars(s: &Vec<char>) -> (r: Option<i64>)
    ensures
        r == parse_i64(s@),
{
    match parse_int_chars(s, i64::MIN as i128, i64::MAX as i128) {
        Some(v) => Some(v as i64),
        None => None,
    }
}

/// The 32-bit number without sign that the characters write in base ten.
pub fn parse_u32_chars(s: &Vec<char>) -> (r: Option<u32>)
    ensures
        r == parse_u32(s@),
{
    match parse_int_chars(s, 0, u32::MAX as i128) {
        Some(v) => Some(v as u32),
        None => None,
    }
}

/// The digits behind the point of a fraction: the digits of `rest` at
/// the places from `scale` down, most significant first, up to the last
/// digit that is not 0.
pub open spec fn fraction_digits(rest: nat, scale: nat) -> Seq<char>
    decreases scale,
{
    if rest == 0 || scale == 0 {
        Seq::empty()
    } else {
        seq![digit_char((rest / scale) as int)] + fraction_digits(rest % scale, scale / 10)
    }
}

/// A number of millionths as a decimal fraction: the whole part and, where
/// there is more, a point and up to six digits without zeros at the end.
pub open spec fn spec_millionths(m: nat) -> Seq<char> {
    if m % 1_000_000 == 0 {
        spec_decimal(m / 1_000_000)
    } else {
        spec_decimal(m / 1_000_000) + seq!['.'] + fraction_digits(m % 1_000_000, 100_000)
    }
}

/// Appends a number of millionths as a decimal fraction to `out`.
pub fn push_millionths(out: &mut Vec<char>, m: u32)
    ensures
        final(out)@ == old(out)@ + spec_millionths(m as nat),
{
    let ghost start = out@;
    push_decimal(out, (m / 1_000_000) as u64);
    let mut rest: u32 = m % 1_000_000;
    if rest == 0 {
        return;
    }
    out.push('.');
    let ghost head = start + spec_decimal((m / 1_000_000) as nat) + seq!['.'];
    let ghost all = fraction_digits(rest as nat, 100_000);
    let ghost mut written: Seq<char> = Seq::empty();
    let mut scale: u32 = 100_000;
    assert(out@ =~= head + written);
    assert(written + fraction_digits(rest as nat, scale as nat) =~= all);
    while rest != 0 && scale != 0
        invariant
            rest < 10 * scale || scale == 0,
            scale == 100_000 || scale == 10_000 || scale == 1000 || scale == 100 || scale == 10
                || scale == 1 || scale == 0,
            out@ == head + written,
            written + fraction_digits(rest as nat, scale as nat) == all,
        decreases scale,
    {
        let d: u32 = rest / scale;
        assert(d < 10) by (nonlinear_arith)
            requires
                d == rest / scale,
                rest < 10 * scale,
                scale > 0,
        ;
        out.push(digit_of(d as u64));
        proof {
            let next = written.push(digit_char(d as int));
            assert(next + fraction_digits((rest % scale) as nat, (scale / 10) as nat) =~= written
                + fraction_digits(rest as nat, scale as nat));
            assert(out@ =~= head + next);
            written = next;
            assert(rest % scale < scale) by (nonlinear_arith)
                requires
                    scale > 0,
            ;
        }
        rest = rest % scale;
        scale = scale / 10;
    }
    assert(fraction_digits(rest as nat, scale as nat) =~= Seq::<char>::empty());
    assert(written =~= all);
    assert(out@ =~= start + spec_millionths(m as nat));
}

/// A number of millionths as a decimal fraction.
pub fn millionths_string(m: u32) -> (s: String)
    ensures
        s@ == spec_millionths(m as nat),
{
    let mut out: Vec<char> = Vec::new();
    push_millionths(&mut out, m);
    assert(out@ =~= spec_millionths(m as nat));
    string_of(&out)
}

/// What the digits of `s` are worth at the places from `scale` down;
/// digits behind the last place count for nothing.
pub open spec fn scaled_digits(s: Seq<char>, scale: nat) -> nat
    decreases s.len(),
{
    if s.len() == 0 || scale == 0 {
        0
    } else {
        (digit_value(s[0]) * scale + scaled_digits(s.drop_first(), scale / 10)) as nat
    }
}

/// The number of millionths that a decimal fraction writes: a whole part
/// as `parse_int` reads it and, behind a point, digits and nothing else,
/// of which the first six count. None where the text is not of this form
/// or the number does not fit in 32 bits.
pub open spec fn parse_millionths(s: Seq<char>) -> Option<u32> {
    let whole = prefix_before(s, '.');
    let rest = if whole.len() < s.len() {
        s.skip(whole.len() as int + 1)
    } else {
        Seq::empty()
    };
    match parse_int(whole, 0, 4294) {
        Some(w) => if all_digits(rest) && w * 1_000_000 + scaled_digits(rest, 100_000) <= u32::MAX {
            Some((w * 1_000_000 + scaled_digits(rest, 100_000)) as u32)
        } else {
            None
        },
        None => None,
    }
}

/// The number of millionths that the characters write as a decimal fraction.
pub fn parse_millionths_chars(s: &Vec<char>) -> (r: Option<u32>)
    ensures
        r == parse_millionths(s@),
{
    let whole = take_before(s, '.');
    proof {
        lemma_prefix_before_is_prefix(s@, '.');
    }
    let w: i128 = match parse_int_chars(&whole, 0, 4294) {
        Some(w) => w,
        None => {
            return None;
        },
    };
    let from: usize = if whole.len() < s.len() {
        whole.len() + 1
    } else {
        s.len()
    };
    let ghost rest = if whole.len() < s.len() {
        s@.skip(whole.len() as int + 1)
    } else {
        Seq::<char>::empty()
    };
    assert(rest =~= s@.skip(from as int));
    let mut acc: u32 = 0;
    let mut scale: u32 = 100_000;
    let mut i: usize = from;
    assert(rest.skip(0) =~= rest);
    while i < s.len()
        invariant
            from <= i <= s.len(),
            rest == s@.skip(from as int),
            rest == (if whole@.len() < s@.len() {
                s@.skip(whole@.len() as int + 1)
            } else {
                Seq::<char>::empty()
            }),
            whole@ == prefix_before(s@, '.'),
            parse_int(whole@, 0, 4294) == Some(w as int),
            forall|k: int| 0 <= k < i - from ==> is_digit(#[trigger] rest[k]),
            scale == 100_000 || scale == 10_000 || scale == 1000 || scale == 100 || scale == 10
                || scale == 1 || scale == 0,
            acc + 10 * scale <= 1_000_000,
            scaled_digits(rest, 100_000) == acc + scaled_digits(rest.skip(i - from), scale as nat),
        decreases s.len() - i,
    {
        let c = s[i];
        assert(rest[i - from] == c);
        if !('0' <= c && c <= '9') {
            assert(!is_digit(rest[i - from]));
            assert(!all_digits(rest));
            return None;
        }
        let d: u32 = c as u32 - '0' as u32;
        proof {
            assert(rest.skip(i - from)[0] == c);
            assert(rest.skip(i - from).drop_first() =~= rest.skip(i - from + 1));
            assert(d * scale <= 9 * scale) by (nonlinear_arith)
                requires
                    d <= 9,
            ;
        }
        acc = acc + d * scale;
        scale = scale / 10;
        i += 1;
    }
    assert(all_digits(rest));
    assert(rest.skip(rest.len() as int).len() == 0);
    let total: u64 = (w as u64) * 1_000_000 + acc as u64;
    if total > u32::MAX as u64 {
        None
    } else {
        Some(total as u32)
    }
}

/// The parts of a text between the occurrences of a separator.
pub open spec fn split(s: Seq<char>, sep: char) -> Seq<Seq<char>>
    decreases s.len(),
{
    let head = prefix_before(s, sep);
    if head.len() < s.len() {
        seq![head] + split(s.skip(head.len() as int + 1), sep)
    } else {
        seq![s]
    }
}

/// The texts of the parts.
pub open spec fn part_views(parts: Seq<Vec<char>>) -> Seq<Seq<char>> {
    Seq::new(parts.len(), |i: int| parts[i]@)
}

/// The parts of a text between the occurrences of a separator.
pub fn split_chars(s: &Vec<char>, sep: char) -> (parts: Vec<Vec<char>>)
    ensures
        part_views(parts@) == split(s@, sep),
        parts@.len() >= 1,
{
    let mut parts: Vec<Vec<char>> = Vec::new();
    let mut from: usize = 0;
    assert(s@.skip(0) =~= s@);
    assert(part_views(parts@) + split(s@.skip(0), sep) =~= split(s@, sep));
    loop
        invariant
            from <= s.len(),
            part_views(parts@) + split(s@.skip(from as int), sep) == split(s@, sep),
        decreases s.len() - from,
    {
        let rest = slice_chars(s, from, s.len());
        assert(rest@ =~= s@.skip(from as int));
        let head = take_before(&rest, sep);
        proof {
            lemma_prefix_before_is_prefix(rest@, sep);
        }
        let ghost before = part_views(parts@);
        let head_len = head.len();
        let more = head_len < rest.len();
        parts.push(head);
        if more {
            assert(rest@.skip(head_len + 1) =~= s@.skip(from + head_len + 1));
            assert(part_views(parts@) =~= before.push(prefix_before(rest@, sep)));
            assert(before.push(prefix_before(rest@, sep)) + split(rest@.skip(head_len + 1), sep)
                =~= before + split(rest@, sep));
            from = from + head_len + 1;
        } else {
            assert(part_views(parts@) =~= before + split(rest@, sep)) by {
                assert(prefix_before(rest@, sep) =~= rest@);
            }
            return parts;
        }
    }
}

/// The texts of the strings, in order.
pub open spec fn string_views(s: Seq<String>) -> Seq<Seq<char>> {
    Seq::new(s.len(), |i: int| s[i]@)
}

/// The text of the string, if there is one.
pub open spec fn option_view(s: Option<String>) -> Option<Seq<char>> {
    match s {
        Some(t) => Some(t@),
        None => None,
    }
}

/// A copy of the strings.
pub fn clone_strings(v: &Vec<String>) -> (r: Vec<String>)
    ensures
        string_views(r@) == string_views(v@),
{
    let mut r: Vec<String> = Vec::new();
    let mut i: usize = 0;
    while i < v.len()
        invariant
            i <= v.len(),
            r.len() == i,
            forall|k: int| 0 <= k < i ==> r@[k]@ == v@[k]@,
        decreases v.len() - i,
    {
        r.push(v[i].clone());
        i += 1;
    }
    assert(string_views(r@) =~= string_views(v@));
    r
}

/// A copy of the string, if there is one.
pub fn clone_option(s: &Option<String>) -> (r: Option<String>)
    ensures
        option_view(r) == option_view(*s),
{
    match s {
        Some(t) => Some(t.clone()),
        None => None,
    }
}

/// The one text as a list of texts.
pub fn single(text: &str) -> (v: Vec<String>)
    ensures
        string_views(v@) == seq![text@],
{
    let mut v: Vec<String> = Vec::new();
    v.push(String::from_str(text));
    assert(string_views(v@) =~= seq![text@]);
    v
}

} // verus!
