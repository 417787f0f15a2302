//! Character-level text operations, each with the specification it meets.
//!
//! Strings are handled by their views (`Seq<char>`); comparisons at the
//! character level agree with the byte-level ones of `str` because UTF-8
//! preserves character boundaries and code-point order.

use vstd::prelude::*;

verus! {

/// Wraps `String::push`: `c` is appended to `s`.
#[verifier::external_body]
fn push_char(s: &mut String, c: char)
    ensures
        final(s)@ == old(s)@.push(c),
{
    s.push(c);
}

/// The characters of `s`, in order.
pub fn chars_of(s: &str) -> (res: Vec<char>)
    ensures
        res@ == s@,
{
    let mut res: Vec<char> = Vec::new();
    for c in it: s.chars()
        invariant
            res@ == it.seq().take(it.index() as int),
    {
        res.push(c);
    }
    res
}

/// A string holding the characters of `v`.
pub fn string_from(v: &[char]) -> (res: String)
    ensures
        res@ == v@,
{
    let mut res = String::new();
    for i in 0..v.len()
        invariant
            res@ == v@.take(i as int),
    {
        push_char(&mut res, v[i]);
    }
    res
}

/// Appends the characters of `v` to `s`.
pub fn push_chars(s: &mut String, v: &[char])
    ensures
        final(s)@ == old(s)@ + v@,
{
    let ghost start = s@;
    for i in 0..v.len()
        invariant
            s@ == start + v@.take(i as int),
    {
        push_char(s, v[i]);
        assert(v@.take(i + 1) == v@.take(i as int).push(v@[i as int]));
    }
    assert(v@.take(v@.len() as int) == v@);
}

/// Appends the characters of `t` to `s`.
pub fn push_text(s: &mut String, t: &str)
    ensures
        final(s)@ == old(s)@ + t@,
{
    let v = chars_of(t);
    push_chars(s, v.as_slice());
}

/// `c` mapped to lower case when it is an ASCII upper-case letter.
pub open spec fn ascii_lower(c: char) -> char {
    if 'A' <= c && c <= 'Z' {
        ((c as u32) + 32) as char
    } else {
        c
    }
}

/// Each character of `ascii_lower_seq(s)` is the lower-case form of the
/// character of `s` at the same place.
pub proof fn lemma_ascii_lower_seq_index(s: Seq<char>, i: int)
    ensures
        ascii_lower_seq(s).len() == s.len(),
        0 <= i < s.len() ==> ascii_lower_seq(s)[i] == ascii_lower(s[i]),
{
}

/// Lower-casing commutes with taking and dropping a prefix.
pub proof fn lemma_ascii_lower_take_skip(s: Seq<char>, n: int)
    requires
        0 <= n <= s.len(),
    ensures
        ascii_lower_seq(s.take(n)) == ascii_lower_seq(s).take(n),
        ascii_lower_seq(s.skip(n)) == ascii_lower_seq(s).skip(n),
{
    lemma_ascii_lower_seq_index(s, 0);
    lemma_ascii_lower_seq_index(s.take(n), 0);
    lemma_ascii_lower_seq_index(s.skip(n), 0);
    assert forall|i: int| 0 <= i < n implies ascii_lower_seq(s.take(n))[i] == ascii_lower_seq(
        s,
    ).take(n)[i] by {
        lemma_ascii_lower_seq_index(s.take(n), i);
        lemma_ascii_lower_seq_index(s, i);
    }
    assert forall|i: int| 0 <= i < s.len() - n implies ascii_lower_seq(s.skip(n))[i]
        == ascii_lower_seq(s).skip(n)[i] by {
        lemma_ascii_lower_seq_index(s.skip(n), i);
        lemma_ascii_lower_seq_index(s, i + n);
    }
}

/// Texts equal up to ASCII case begin with a given text, up to ASCII case,
/// alike.
pub proof fn lemma_has_prefix_ieq_alike(a: Seq<char>, b: Seq<char>, p: Seq<char>)
    requires
        ascii_ieq(a, b),
    ensures
        has_prefix_ieq(a, p) == has_prefix_ieq(b, p),
{
    lemma_ascii_lower_seq_index(a, 0);
    lemma_ascii_lower_seq_index(b, 0);
    if p.len() <= a.len() {
        lemma_ascii_lower_take_skip(a, p.len() as int);
        lemma_ascii_lower_take_skip(b, p.len() as int);
    }
}

proof fn lemma_first_occurrence(s: Seq<char>, c: char, i: int)
    requires
        0 <= i < s.len(),
        s[i] == c,
    ensures
        exists|p: int| 0 <= p < s.len() && s[p] == c && (forall|j: int| 0 <= j < p ==> s[j] != c),
    decreases i,
{
    if exists|j: int| 0 <= j < i && s[j] == c {
        let j = choose|j: int| 0 <= j < i && s[j] == c;
        lemma_first_occurrence(s, c, j);
    } else {
        assert(0 <= i < s.len() && s[i] == c && (forall|j: int| 0 <= j < i ==> s[j] != c));
    }
}

/// `char_pos(s, c)` is the place of the first `c` in `s`, or the length of
/// `s` when it holds none.
pub proof fn lemma_char_pos(s: Seq<char>, c: char)
    ensures
        0 <= char_pos(s, c) <= s.len(),
        forall|j: int| 0 <= j < char_pos(s, c) ==> s[j] != c,
        char_pos(s, c) < s.len() ==> s[char_pos(s, c)] == c,
{
    if !(exists|i: int| 0 <= i < s.len() && s[i] == c && (forall|j: int| 0 <= j < i ==> s[j] != c)) {
        assert forall|j: int| 0 <= j < s.len() implies s[j] != c by {
            if s[j] == c {
                lemma_first_occurrence(s, c, j);
            }
        }
    }
}

/// For a character that is no ASCII letter, texts equal up to ASCII case
/// have it at the same places, so what precedes its first occurrence is
/// equal up to ASCII case too.
pub proof fn lemma_before_char_ieq(a: Seq<char>, b: Seq<char>, c: char)
    requires
        ascii_ieq(a, b),
        !('A' <= c && c <= 'Z'),
        !('a' <= c && c <= 'z'),
    ensures
        char_pos(a, c) == char_pos(b, c),
        ascii_ieq(before_char(a, c), before_char(b, c)),
{
    lemma_ascii_lower_seq_index(a, 0);
    lemma_ascii_lower_seq_index(b, 0);
    assert forall|j: int| 0 <= j < a.len() implies (a[j] == c) == (b[j] == c) by {
        lemma_ascii_lower_seq_index(a, j);
        lemma_ascii_lower_seq_index(b, j);
    }
    lemma_char_pos(a, c);
    lemma_char_pos(b, c);
    let pa = char_pos(a, c);
    let pb = char_pos(b, c);
    if pa < pb {
        assert(b[pa] != c);
    } else if pb < pa {
        assert(a[pb] != c);
    }
    lemma_ascii_lower_take_skip(a, pa);
    lemma_ascii_lower_take_skip(b, pb);
}

/// A text equals its lower-case and its upper-case forms up to ASCII case.
pub proof fn lemma_case_forms_ieq(s: Seq<char>)
    ensures
        ascii_ieq(s, ascii_lower_seq(s)),
        ascii_ieq(s, ascii_upper_seq(s)),
{
    lemma_ascii_lower_seq_index(s, 0);
    lemma_ascii_lower_seq_index(ascii_lower_seq(s), 0);
    lemma_ascii_lower_seq_index(ascii_upper_seq(s), 0);
    assert forall|i: int| 0 <= i < s.len() implies ascii_lower_seq(s)[i] == ascii_lower_seq(
        ascii_lower_seq(s),
    )[i] && ascii_lower_seq(s)[i] == ascii_lower_seq(ascii_upper_seq(s))[i] by {
        lemma_ascii_lower_seq_index(s, i);
        lemma_ascii_lower_seq_index(ascii_lower_seq(s), i);
        lemma_ascii_lower_seq_index(ascii_upper_seq(s), i);
        assert(ascii_upper_seq(s)[i] == ascii_upper(s[i]));
    }
    assert(ascii_upper_seq(s).len() == s.len());
    assert(ascii_lower_seq(s) =~= ascii_lower_seq(ascii_lower_seq(s)));
    assert(ascii_lower_seq(s) =~= ascii_lower_seq(ascii_upper_seq(s)));
}

/// `c` mapped to upper case when it is an ASCII lower-case letter.
pub open spec fn ascii_upper(c: char) -> char {
    if 'a' <= c && c <= 'z' {
        ((c as u32) - 32) as char
    } else {
        c
    }
}

/// `s` with its ASCII letters in lower case (what `to_ascii_lowercase` gives).
pub open spec fn ascii_lower_seq(s: Seq<char>) -> Seq<char> {
    s.map_values(|c: char| ascii_lower(c))
}

/// `s` with its ASCII letters in upper case (what `to_ascii_uppercase` gives).
pub open spec fn ascii_upper_seq(s: Seq<char>) -> Seq<char> {
    s.map_values(|c: char| ascii_upper(c))
}

/// `a` and `b` are equal when ASCII case is ignored (`eq_ignore_ascii_case`).
pub open spec fn ascii_ieq(a: Seq<char>, b: Seq<char>) -> bool {
    ascii_lower_seq(a) == ascii_lower_seq(b)
}

/// `s` begins with `p`.
pub open spec fn has_prefix(s: Seq<char>, p: Seq<char>) -> bool {
    p.len() <= s.len() && s.take(p.len() as int) == p
}

/// `s` begins with something equal to `p` when ASCII case is ignored.
pub open spec fn has_prefix_ieq(s: Seq<char>, p: Seq<char>) -> bool {
    p.len() <= s.len() && ascii_ieq(s.take(p.len() as int), p)
}

/// `s` ends with `p`.
pub open spec fn has_suffix(s: Seq<char>, p: Seq<char>) -> bool {
    p.len() <= s.len() && s.skip(s.len() - p.len()) == p
}

/// `needle` occurs in `s` as a contiguous run.
pub open spec fn occurs_in(s: Seq<char>, needle: Seq<char>) -> bool {
    exists|i: int|
        0 <= i && i + needle.len() <= s.len() && #[trigger] s.subrange(i, i + needle.len())
            == needle
}

/// The index of the first `c` in `s`, or `s.len()` when `s` holds no `c`.
pub open spec fn char_pos(s: Seq<char>, c: char) -> int {
    if exists|i: int| 0 <= i < s.len() && s[i] == c && (forall|j: int| 0 <= j < i ==> s[j] != c) {
        choose|i: int| 0 <= i < s.len() && s[i] == c && (forall|j: int| 0 <= j < i ==> s[j] != c)
    } else {
        s.len() as int
    }
}

/// What precedes the first `c` in `s` (all of `s` when it holds none):
/// the first piece of `split(c)`.
pub open spec fn before_char(s: Seq<char>, c: char) -> Seq<char> {
    s.take(char_pos(s, c))
}

/// What follows the first `c` in `s`, if `s` holds a `c`.
pub open spec fn after_char(s: Seq<char>, c: char) -> Option<Seq<char>> {
    if char_pos(s, c) < s.len() {
        Some(s.skip(char_pos(s, c) + 1))
    } else {
        None
    }
}

/// `c` in lower case if it is an ASCII upper-case letter.
pub fn to_ascii_lower_char(c: char) -> (r: char)
    ensures
        r == ascii_lower(c),
{
    if 'A' <= c && c <= 'Z' {
        ((c as u8) + 32) as char
    } else {
        c
    }
}

/// `c` in upper case if it is an ASCII lower-case letter.
pub fn to_ascii_upper_char(c: char) -> (r: char)
    ensures
        r == ascii_upper(c),
{
    if 'a' <= c && c <= 'z' {
        ((c as u8) - 32) as char
    } else {
        c
    }
}

/// `s` with its ASCII letters in lower case.
pub fn lower_ascii(s: &[char]) -> (res: Vec<char>)
    ensures
        res@ == ascii_lower_seq(s@),
{
    let mut res: Vec<char> = Vec::new();
    for i in 0..s.len()
        invariant
            res@ == ascii_lower_seq(s@.take(i as int)),
    {
        res.push(to_ascii_lower_char(s[i]));
        assert(ascii_lower_seq(s@.take(i + 1)) == ascii_lower_seq(s@.take(i as int)).push(
            ascii_lower(s@[i as int]),
        ));
    }
    assert(s@.take(s@.len() as int) == s@);
    res
}

/// `s` with its ASCII letters in upper case.
pub fn upper_ascii(s: &[char]) -> (res: Vec<char>)
    ensures
        res@ == ascii_upper_seq(s@),
{
    let mut res: Vec<char> = Vec::new();
    for i in 0..s.len()
        invariant
            res@ == ascii_upper_seq(s@.take(i as int)),
    {
        res.push(to_ascii_upper_char(s[i]));
        assert(ascii_upper_seq(s@.take(i + 1)) == ascii_upper_seq(s@.take(i as int)).push(
            ascii_upper(s@[i as int]),
        ));
    }
    assert(s@.take(s@.len() as int) == s@);
    res
}

/// Whether `a` and `b` hold the same characters.
pub fn chars_eq(a: &[char], b: &[char]) -> (r: bool)
    ensures
        r == (a@ == b@),
{
    if a.len() != b.len() {
        return false;
    }
    for i in 0..a.len()
        invariant
            a@.len() == b@.len(),
            forall|j: int| 0 <= j < i ==> a@[j] == b@[j],
    {
        if a[i] != b[i] {
            return false;
        }
    }
    assert(a@ == b@);
    true
}

/// Whether `a` equals the literal `b`.
pub fn chars_eq_str(a: &[char], b: &str) -> (r: bool)
    ensures
        r == (a@ == b@),
{
    let b = chars_of(b);
    chars_eq(a, b.as_slice())
}

/// Whether `a` and `b` are equal when ASCII case is ignored.
pub fn chars_eq_ignore_ascii_case(a: &[char], b: &[char]) -> (r: bool)
    ensures
        r == ascii_ieq(a@, b@),
{
    let la = lower_ascii(a);
    let lb = lower_ascii(b);
    chars_eq(la.as_slice(), lb.as_slice())
}

/// The first `n` characters of `s`.
pub fn take_chars(s: &[char], n: usize) -> (res: Vec<char>)
    requires
        n <= s@.len(),
    ensures
        res@ == s@.take(n as int),
{
    let mut res: Vec<char> = Vec::new();
    for i in 0..n
        invariant
            n <= s@.len(),
            res@ == s@.take(i as int),
    {
        res.push(s[i]);
        assert(s@.take(i + 1) == s@.take(i as int).push(s@[i as int]));
    }
    res
}

/// The characters of `s` from index `n` on.
pub fn skip_chars(s: &[char], n: usize) -> (res: Vec<char>)
    requires
        n <= s@.len(),
    ensures
        res@ == s@.skip(n as int),
{
    let mut res: Vec<char> = Vec::new();
    let mut i = n;
    while i < s.len()
        invariant
            n <= i <= s@.len(),
            res@ == s@.subrange(n as int, i as int),
        decreases s.len() - i,
    {
        res.push(s[i]);
        assert(s@.subrange(n as int, i + 1) == s@.subrange(n as int, i as int).push(s@[i as int]));
        i = i + 1;
    }
    res
}

/// Whether `s` begins with `p`.
pub fn starts_with_chars(s: &[char], p: &[char]) -> (r: bool)
    ensures
        r == has_prefix(s@, p@),
{
    if p.len() > s.len() {
        return false;
    }
    let head = take_chars(s, p.len());
    chars_eq(head.as_slice(), p)
}

/// Whether `s` begins with something equal to `p` when ASCII case is ignored.
pub fn starts_with_ignore_ascii_case(s: &[char], p: &[char]) -> (r: bool)
    ensures
        r == has_prefix_ieq(s@, p@),
{
    if p.len() > s.len() {
        return false;
    }
    let head = take_chars(s, p.len());
    chars_eq_ignore_ascii_case(head.as_slice(), p)
}

/// Whether `s` ends with `p`.
pub fn ends_with_chars(s: &[char], p: &[char]) -> (r: bool)
    ensures
        r == has_suffix(s@, p@),
{
    if p.len() > s.len() {
        return false;
    }
    let tail = skip_chars(s, s.len() - p.len());
    chars_eq(tail.as_slice(), p)
}

/// Whether `needle` occurs in `s` as a contiguous run.
pub fn contains_chars(s: &[char], needle: &[char]) -> (r: bool)
    ensures
        r == occurs_in(s@, needle@),
{
    if needle.len() > s.len() {
        proof {
            assert forall|i: int|
                0 <= i && i + needle@.len() <= s@.len() implies #[trigger] s@.subrange(
                i,
                i + needle@.len(),
            ) != needle@ by {}
        }
        return false;
    }
    if needle.len() == 0 {
        assert(s@.subrange(0, 0 + needle@.len() as int) == needle@);
        return true;
    }
    let last = s.len() - needle.len();
    for i in 0..s.len()
        invariant
            needle@.len() <= s@.len(),
            needle@.len() > 0,
            last == s@.len() - needle@.len(),
            forall|k: int|
                0 <= k < i && k <= last ==> #[trigger] s@.subrange(k, k + needle@.len())
                    != needle@,
    {
        if i <= last {
            let mut j: usize = 0;
            let mut matched = true;
            while j < needle.len()
                invariant
                    i <= last,
                    s@.len() <= usize::MAX,
                    last == s@.len() - needle@.len(),
                    needle@.len() <= s@.len(),
                    j <= needle@.len(),
                    matched == (forall|m: int| 0 <= m < j ==> s@[i + m] == needle@[m]),
                decreases needle.len() - j,
            {
                if s[i + j] != needle[j] {
                    matched = false;
                }
                j = j + 1;
            }
            if matched {
                assert(s@.subrange(i as int, i + needle@.len()) == needle@);
                return true;
            }
            proof {
                let m = choose|m: int| 0 <= m < needle@.len() && s@[i + m] != needle@[m];
                assert(s@.subrange(i as int, i + needle@.len())[m] == s@[i + m]);
            }
        }
    }
    proof {
        assert forall|k: int|
            0 <= k && k + needle@.len() <= s@.len() implies #[trigger] s@.subrange(
            k,
            k + needle@.len(),
        ) != needle@ by {
            assert(k < s@.len());
        }
    }
    false
}

/// Whether the literal `needle` occurs in `s`.
pub fn contains_str(s: &[char], needle: &str) -> (r: bool)
    ensures
        r == occurs_in(s@, needle@),
{
    let n = chars_of(needle);
    contains_chars(s, n.as_slice())
}

/// The index of the first `c` in `s`, or `s.len()` when there is none.
pub fn char_position(s: &[char], c: char) -> (r: usize)
    ensures
        r == char_pos(s@, c),
        r <= s@.len(),
{
    let mut i: usize = 0;
    while i < s.len()
        invariant
            i <= s@.len(),
            forall|j: int| 0 <= j < i ==> s@[j] != c,
        decreases s.len() - i,
    {
        if s[i] == c {
            proof {
                let w = i as int;
                assert(0 <= w < s@.len() && s@[w] == c && (forall|j: int|
                    0 <= j < w ==> s@[j] != c));
                let k = choose|k: int|
                    0 <= k < s@.len() && s@[k] == c && (forall|j: int| 0 <= j < k ==> s@[j] != c);
                assert(k == w);
            }
            return i;
        }
        i = i + 1;
    }
    i
}

/// What precedes the first `c` in `s` (all of `s` when it holds none).
pub fn chars_before(s: &[char], c: char) -> (res: Vec<char>)
    ensures
        res@ == before_char(s@, c),
{
    let p = char_position(s, c);
    take_chars(s, p)
}

/// What follows the first `c` in `s`, if `s` holds a `c`.
pub fn chars_after(s: &[char], c: char) -> (res: Option<Vec<char>>)
    ensures
        match res {
            Some(v) => after_char(s@, c) == Some(v@),
            None => after_char(s@, c) is None,
        },
{
    let p = char_position(s, c);
    if p < s.len() {
        Some(skip_chars(s, p + 1))
    } else {
        None
    }
}

/// The decimal digit character for `d < 10`.
pub open spec fn digit_char(d: nat) -> char {
    ((48 + d) as u32) as char
}

/// The decimal representation of `n`, as `Display` writes an unsigned integer.
pub open spec fn decimal_digits(n: nat) -> Seq<char>
    decreases n,
{
    if n < 10 {
        seq![digit_char(n)]
    } else {
        decimal_digits(n / 10).push(digit_char(n % 10))
    }
}

/// The decimal representation of a signed integer, with `-` when negative.
pub open spec fn signed_decimal(i: int) -> Seq<char> {
    if i < 0 {
        seq!['-'] + decimal_digits((-i) as nat)
    } else {
        decimal_digits(i as nat)
    }
}

fn digit(d: u64) -> (c: char)
    requires
        d < 10,
    ensures
        c == digit_char(d as nat),
{
    ((48 + d) as u8) as char
}

/// Appends the decimal representation of `n` to `s`.
pub fn push_decimal(s: &mut String, n: u64)
    ensures
        final(s)@ == old(s)@ + decimal_digits(n as nat),
    decreases n,
{
    if n < 10 {
        push_char(s, digit(n));
    } else {
        push_decimal(s, n / 10);
        push_char(s, digit(n % 10));
    }
}

/// Appends the decimal representation of `i` to `s`, with `-` when negative.
pub fn push_signed_decimal(s: &mut String, i: i64)
    ensures
        final(s)@ == old(s)@ + signed_decimal(i as int),
{
    if i < 0 {
        push_char(s, '-');
        let magnitude: u64 = if i == i64::MIN {
            9_223_372_036_854_775_808u64
        } else {
            (-i) as u64
        };
        push_decimal(s, magnitude);
    } else {
        push_decimal(s, i as u64);
    }
}

} // verus!
