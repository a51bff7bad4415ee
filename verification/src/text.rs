//! Character-sequence helpers shared by the rest of the library: suffix and
//! substring tests, decimal formatting and parsing, trimming and lower-casing.

use vstd::prelude::*;

verus! {

// ---------------------------------------------------------------------------
// What std computes on characters
// ---------------------------------------------------------------------------

/// What `str::to_lowercase` returns for a string: Unicode lower-casing.
pub uninterp spec fn spec_to_lowercase(s: Seq<char>) -> Seq<char>;

/// What `char::is_whitespace` returns: membership in the Unicode
/// `White_Space` property (tab to carriage return, space, next line,
/// no-break space, ogham space mark, the spaces from en quad to hair space,
/// line and paragraph separators, narrow no-break space, medium mathematical
/// space and ideographic space).
pub open spec fn spec_is_whitespace(c: char) -> bool {
    let u = c as u32;
    ||| 0x9 <= u <= 0xD
    ||| u == 0x20
    ||| u == 0x85
    ||| u == 0xA0
    ||| u == 0x1680
    ||| 0x2000 <= u <= 0x200A
    ||| u == 0x2028
    ||| u == 0x2029
    ||| u == 0x202F
    ||| u == 0x205F
    ||| u == 0x3000
}

/// Lower-cases `s` with `str::to_lowercase` (full Unicode case mapping).
/// The contract only names the result: the mapping tables are std's.
#[verifier::external_body]
pub(crate) fn to_lowercase(s: &str) -> (r: String)
    ensures
        r@ == spec_to_lowercase(s@),
{
    s.to_lowercase()
}

/// Whether `c` is Unicode white space, as `char::is_whitespace` answers.
pub fn is_whitespace(c: char) -> (r: bool)
    ensures
        r == spec_is_whitespace(c),
{
    let u = c as u32;
    (0x9 <= u && u <= 0xD) || u == 0x20 || u == 0x85 || u == 0xA0 || u == 0x1680 || (0x2000 <= u && u
        <= 0x200A) || u == 0x2028 || u == 0x2029 || u == 0x202F || u == 0x205F || u == 0x3000
}

/// Appends one character with `String::push`.
#[verifier::external_body]
pub(crate) fn push_char(s: &mut String, c: char)
    ensures
        final(s)@ == old(s)@.push(c),
{
    s.push(c)
}

// ---------------------------------------------------------------------------
// Suffix, prefix and substring tests
// ---------------------------------------------------------------------------

/// `s` ends with `suffix`.
pub open spec fn spec_ends_with(s: Seq<char>, suffix: Seq<char>) -> bool {
    suffix.len() <= s.len() && s.subrange(s.len() - suffix.len(), s.len() as int) == suffix
}

/// `s` starts with `prefix`.
pub open spec fn spec_starts_with(s: Seq<char>, prefix: Seq<char>) -> bool {
    prefix.len() <= s.len() && s.subrange(0, prefix.len() as int) == prefix
}

/// `needle` occurs in `s` at position `i`.
pub open spec fn occurs_at(s: Seq<char>, needle: Seq<char>, i: int) -> bool {
    0 <= i && i + needle.len() <= s.len() && s.subrange(i, i + needle.len()) == needle
}

/// `needle` occurs somewhere in `s` (the empty needle occurs in every string).
pub open spec fn spec_contains(s: Seq<char>, needle: Seq<char>) -> bool {
    exists|i: int| occurs_at(s, needle, i)
}

/// Checks whether `s` ends with `suffix`, as `str::ends_with` does.
pub fn ends_with(s: &str, suffix: &str) -> (r: bool)
    ensures
        r == spec_ends_with(s@, suffix@),
{
    let n = s.unicode_len();
    let m = suffix.unicode_len();
    if m > n {
        return false;
    }
    let off = n - m;
    let mut i: usize = 0;
    while i < m
        invariant
            n == s@.len(),
            m == suffix@.len(),
            off == n - m,
            i <= m,
            forall|j: int| 0 <= j < i ==> s@[off + j] == suffix@[j],
        decreases m - i,
    {
        if s.get_char(off + i) != suffix.get_char(i) {
            assert(s@.subrange(off as int, n as int)[i as int] != suffix@[i as int]);
            return false;
        }
        i = i + 1;
    }
    assert(s@.subrange(off as int, n as int) =~= suffix@);
    true
}

/// Checks whether two strings hold the same characters.
pub fn str_eq(a: &str, b: &str) -> (r: bool)
    ensures
        r == (a@ == b@),
{
    let n = a.unicode_len();
    if n != b.unicode_len() {
        return false;
    }
    let mut i: usize = 0;
    while i < n
        invariant
            n == a@.len(),
            n == b@.len(),
            i <= n,
            forall|j: int| 0 <= j < i ==> a@[j] == b@[j],
        decreases n - i,
    {
        if a.get_char(i) != b.get_char(i) {
            return false;
        }
        i = i + 1;
    }
    assert(a@ =~= b@);
    true
}

/// Checks whether `s` starts with `prefix`, as `str::starts_with` does.
pub fn starts_with(s: &str, prefix: &str) -> (r: bool)
    ensures
        r == spec_starts_with(s@, prefix@),
{
    let n = s.unicode_len();
    let m = prefix.unicode_len();
    if m > n {
        return false;
    }
    let mut i: usize = 0;
    while i < m
        invariant
            n == s@.len(),
            m == prefix@.len(),
            m <= n,
            i <= m,
            forall|j: int| 0 <= j < i ==> s@[j] == prefix@[j],
        decreases m - i,
    {
        if s.get_char(i) != prefix.get_char(i) {
            assert(s@.subrange(0, m as int)[i as int] != prefix@[i as int]);
            return false;
        }
        i = i + 1;
    }
    assert(s@.subrange(0, m as int) =~= prefix@);
    true
}

/// Checks whether `needle` occurs at position `at` of `s`.
fn matches_at(s: &str, needle: &str, at: usize) -> (r: bool)
    requires
        at + needle@.len() <= s@.len(),
        s@.len() <= usize::MAX,
    ensures
        r == occurs_at(s@, needle@, at as int),
{
    let m = needle.unicode_len();
    let mut i: usize = 0;
    while i < m
        invariant
            m == needle@.len(),
            at + m <= s@.len(),
            s@.len() <= usize::MAX,
            i <= m,
            forall|j: int| 0 <= j < i ==> s@[at + j] == needle@[j],
        decreases m - i,
    {
        if s.get_char(at + i) != needle.get_char(i) {
            assert(s@.subrange(at as int, at + m)[i as int] != needle@[i as int]);
            return false;
        }
        i = i + 1;
    }
    assert(s@.subrange(at as int, at + m) =~= needle@);
    true
}

/// Checks whether `needle` occurs in `s`, as `str::contains` does.
pub fn contains(s: &str, needle: &str) -> (r: bool)
    ensures
        r == spec_contains(s@, needle@),
{
    let n = s.unicode_len();
    let m = needle.unicode_len();
    if m > n {
        assert(forall|i: int| !occurs_at(s@, needle@, i));
        return false;
    }
    let mut i: usize = 0;
    loop
        invariant
            n == s@.len(),
            m == needle@.len(),
            m <= n,
            i <= n - m,
            forall|j: int| 0 <= j < i ==> !occurs_at(s@, needle@, j),
        ensures
            forall|j: int| 0 <= j <= n - m ==> !occurs_at(s@, needle@, j),
        decreases n - m - i,
    {
        if matches_at(s, needle, i) {
            return true;
        }
        if i == n - m {
            break;
        }
        i = i + 1;
    }
    assert forall|j: int| !occurs_at(s@, needle@, j) by {
        if 0 <= j && j + m <= n {
            assert(j <= n - m);
        }
    }
    false
}

/// Index of the first occurrence of `c` in `s`, as a character index.
pub open spec fn spec_find_char(s: Seq<char>, c: char) -> Option<int> {
    if exists|i: int| 0 <= i < s.len() && s[i] == c {
        Some(choose|i: int| 0 <= i < s.len() && s[i] == c && forall|j: int| 0 <= j < i ==> s[j] != c)
    } else {
        None
    }
}

/// Finds the first position of `c` in `s` (counted in characters).
pub fn find_char(s: &str, c: char) -> (r: Option<usize>)
    ensures
        match r {
            Some(i) => i < s@.len() && s@[i as int] == c && forall|j: int| 0 <= j < i ==> s@[j] != c,
            None => forall|j: int| 0 <= j < s@.len() ==> s@[j] != c,
        },
{
    let n = s.unicode_len();
    let mut i: usize = 0;
    while i < n
        invariant
            n == s@.len(),
            i <= n,
            forall|j: int| 0 <= j < i ==> s@[j] != c,
        decreases n - i,
    {
        if s.get_char(i) == c {
            return Some(i);
        }
        i = i + 1;
    }
    None
}

/// `s` with every leading copy of `prefix` removed, as `str::trim_start_matches`
/// does for a non-empty pattern.
pub open spec fn spec_trim_start_matches(s: Seq<char>, prefix: Seq<char>) -> Seq<char>
    decreases s.len(),
{
    if prefix.len() > 0 && spec_starts_with(s, prefix) {
        spec_trim_start_matches(s.subrange(prefix.len() as int, s.len() as int), prefix)
    } else {
        s
    }
}

/// Removes every leading copy of the non-empty `prefix` from `s`.
pub fn trim_start_matches<'a>(s: &'a str, prefix: &str) -> (r: &'a str)
    ensures
        r@ == spec_trim_start_matches(s@, prefix@),
{
    let m = prefix.unicode_len();
    let mut cur = s;
    if m == 0 {
        return cur;
    }
    while starts_with(cur, prefix)
        invariant
            m == prefix@.len(),
            m > 0,
            spec_trim_start_matches(cur@, prefix@) == spec_trim_start_matches(s@, prefix@),
        decreases cur@.len(),
    {
        let n = cur.unicode_len();
        cur = cur.substring_char(m, n);
    }
    cur
}

/// Removes every leading copy of the character `c` from `s`.
pub open spec fn spec_trim_start_char(s: Seq<char>, c: char) -> Seq<char>
    decreases s.len(),
{
    if s.len() > 0 && s[0] == c {
        spec_trim_start_char(s.subrange(1, s.len() as int), c)
    } else {
        s
    }
}

/// Removes every leading `c` from `s`, as `str::trim_start_matches(c)` does.
pub fn trim_start_char(s: &str, c: char) -> (r: &str)
    ensures
        r@ == spec_trim_start_char(s@, c),
{
    let mut cur = s;
    while cur.unicode_len() > 0 && cur.get_char(0) == c
        invariant
            spec_trim_start_char(cur@, c) == spec_trim_start_char(s@, c),
        decreases cur@.len(),
    {
        let n = cur.unicode_len();
        cur = cur.substring_char(1, n);
    }
    cur
}

/// Replaces every `from` character of `s` with `to`.
pub open spec fn spec_replace_char(s: Seq<char>, from: char, to: char) -> Seq<char> {
    s.map_values(|x: char| if x == from { to } else { x })
}

/// Copies `s`, replacing every `from` character with `to`.
pub fn replace_char(s: &str, from: char, to: char) -> (r: String)
    ensures
        r@ == spec_replace_char(s@, from, to),
{
    let n = s.unicode_len();
    let mut out = String::new();
    let mut i: usize = 0;
    while i < n
        invariant
            n == s@.len(),
            i <= n,
            out@ == spec_replace_char(s@.subrange(0, i as int), from, to),
        decreases n - i,
    {
        let x = s.get_char(i);
        push_char(&mut out, if x == from { to } else { x });
        assert(s@.subrange(0, i + 1) =~= s@.subrange(0, i as int).push(x));
        i = i + 1;
    }
    assert(s@.subrange(0, n as int) =~= s@);
    out
}

// ---------------------------------------------------------------------------
// Whitespace trimming
// ---------------------------------------------------------------------------

/// Length of the leading whitespace run of `s`.
pub open spec fn leading_ws(s: Seq<char>) -> nat
    decreases s.len(),
{
    if s.len() > 0 && spec_is_whitespace(s[0]) {
        1 + leading_ws(s.subrange(1, s.len() as int))
    } else {
        0
    }
}

/// Length of the trailing whitespace run of `s`.
pub open spec fn trailing_ws(s: Seq<char>) -> nat
    decreases s.len(),
{
    if s.len() > 0 && spec_is_whitespace(s[s.len() - 1]) {
        1 + trailing_ws(s.subrange(0, s.len() - 1))
    } else {
        0
    }
}

/// `s` without leading and trailing whitespace, as `str::trim` returns it.
pub open spec fn spec_trim(s: Seq<char>) -> Seq<char> {
    let t = s.subrange(leading_ws(s) as int, s.len() as int);
    t.subrange(0, t.len() - trailing_ws(t))
}

proof fn lemma_leading_ws_bound(s: Seq<char>)
    ensures
        leading_ws(s) <= s.len(),
    decreases s.len(),
{
    if s.len() > 0 && spec_is_whitespace(s[0]) {
        lemma_leading_ws_bound(s.subrange(1, s.len() as int));
    }
}

proof fn lemma_trailing_ws_bound(s: Seq<char>)
    ensures
        trailing_ws(s) <= s.len(),
    decreases s.len(),
{
    if s.len() > 0 && spec_is_whitespace(s[s.len() - 1]) {
        lemma_trailing_ws_bound(s.subrange(0, s.len() - 1));
    }
}

/// Removes leading and trailing whitespace, as `str::trim` does.
pub fn trim(s: &str) -> (r: &str)
    ensures
        r@ == spec_trim(s@),
{
    let mut cur = s;
    while cur.unicode_len() > 0 && is_whitespace(cur.get_char(0))
        invariant
            cur@.subrange(leading_ws(cur@) as int, cur@.len() as int) == s@.subrange(
                leading_ws(s@) as int,
                s@.len() as int,
            ),
        decreases cur@.len(),
    {
        proof {
            lemma_leading_ws_bound(cur@.subrange(1, cur@.len() as int));
            assert(cur@.subrange(1, cur@.len() as int).subrange(
                leading_ws(cur@.subrange(1, cur@.len() as int)) as int,
                cur@.len() - 1,
            ) =~= cur@.subrange(leading_ws(cur@) as int, cur@.len() as int));
        }
        let n = cur.unicode_len();
        cur = cur.substring_char(1, n);
    }
    assert(cur@.subrange(0, cur@.len() as int) =~= cur@);
    let ghost t = cur@;
    let mut end = cur;
    while end.unicode_len() > 0 && is_whitespace(end.get_char(end.unicode_len() - 1))
        invariant
            end@.subrange(0, end@.len() - trailing_ws(end@)) == t.subrange(
                0,
                t.len() - trailing_ws(t),
            ),
        decreases end@.len(),
    {
        let n = end.unicode_len();
        proof {
            lemma_trailing_ws_bound(end@.subrange(0, n - 1));
            assert(end@.subrange(0, n - 1).subrange(
                0,
                (n - 1) - trailing_ws(end@.subrange(0, n - 1)),
            ) =~= end@.subrange(0, end@.len() - trailing_ws(end@)));
        }
        end = end.substring_char(0, n - 1);
    }
    assert(end@.subrange(0, end@.len() as int) =~= end@);
    end
}

// ---------------------------------------------------------------------------
// Decimal numbers
// ---------------------------------------------------------------------------

/// The character of the decimal digit `d` (for `d < 10`).
pub open spec fn digit_char(d: nat) -> char {
    if d == 0 {
        '0'
    } else if d == 1 {
        '1'
    } else if d == 2 {
        '2'
    } else if d == 3 {
        '3'
    } else if d == 4 {
        '4'
    } else if d == 5 {
        '5'
    } else if d == 6 {
        '6'
    } else if d == 7 {
        '7'
    } else if d == 8 {
        '8'
    } else {
        '9'
    }
}

/// The value of a decimal digit character, if it is one.
pub open spec fn digit_value(c: char) -> Option<nat> {
    if c == '0' {
        Some(0)
    } else if c == '1' {
        Some(1)
    } else if c == '2' {
        Some(2)
    } else if c == '3' {
        Some(3)
    } else if c == '4' {
        Some(4)
    } else if c == '5' {
        Some(5)
    } else if c == '6' {
        Some(6)
    } else if c == '7' {
        Some(7)
    } else if c == '8' {
        Some(8)
    } else if c == '9' {
        Some(9)
    } else {
        None
    }
}

/// The decimal representation of `n`, without sign or leading zeros.
pub open spec fn spec_decimal(n: nat) -> Seq<char>
    decreases n,
{
    if n < 10 {
        seq![digit_char(n)]
    } else {
        spec_decimal(n / 10).push(digit_char(n % 10))
    }
}

fn exec_digit_char(d: u64) -> (c: char)
    requires
        d < 10,
    ensures
        c == digit_char(d as nat),
{
    if d == 0 {
        '0'
    } else if d == 1 {
        '1'
    } else if d == 2 {
        '2'
    } else if d == 3 {
        '3'
    } else if d == 4 {
        '4'
    } else if d == 5 {
        '5'
    } else if d == 6 {
        '6'
    } else if d == 7 {
        '7'
    } else if d == 8 {
        '8'
    } else {
        '9'
    }
}

/// Appends the decimal representation of `n` to `out`.
pub fn append_decimal(out: &mut String, n: u64)
    ensures
        final(out)@ == old(out)@ + spec_decimal(n as nat),
    decreases n,
{
    if n >= 10 {
        append_decimal(out, n / 10);
    }
    push_char(out, exec_digit_char(n % 10));
    assert(old(out)@ + spec_decimal(n as nat) =~= final(out)@) by {
        if n >= 10 {
            assert(spec_decimal(n as nat) == spec_decimal((n / 10) as nat).push(
                digit_char((n % 10) as nat),
            ));
        }
    }
}

/// The decimal representation of `n`, as `n.to_string()` writes it.
pub fn decimal_string(n: u64) -> (r: String)
    ensures
        r@ == spec_decimal(n as nat),
{
    let mut s = String::new();
    append_decimal(&mut s, n);
    assert(Seq::<char>::empty() + spec_decimal(n as nat) =~= spec_decimal(n as nat));
    s
}

/// The value of a non-empty run of decimal digits.
pub open spec fn digits_value(s: Seq<char>) -> nat
    decreases s.len(),
{
    if s.len() == 0 {
        0
    } else {
        digits_value(s.drop_last()) * 10 + match digit_value(s.last()) {
            Some(d) => d,
            None => 0,
        }
    }
}

/// Every character of `s` is a decimal digit.
pub open spec fn all_digits(s: Seq<char>) -> bool {
    forall|i: int| 0 <= i < s.len() ==> digit_value(#[trigger] s[i]) is Some
}

/// What `u16::from_str` returns for `s`: an optional leading `+`, then at least
/// one digit and nothing else, with a value that fits in 16 bits.
pub open spec fn spec_parse_u16(s: Seq<char>) -> Option<u16> {
    let d = if s.len() > 0 && s[0] == '+' {
        s.subrange(1, s.len() as int)
    } else {
        s
    };
    if d.len() > 0 && all_digits(d) && digits_value(d) <= 65535 {
        Some(digits_value(d) as u16)
    } else {
        None
    }
}

proof fn lemma_digit_round_trip(d: nat)
    requires
        d < 10,
    ensures
        digit_value(digit_char(d)) == Some(d),
        digit_char(d) != '+',
{
}

/// The decimal text of `n` is made of digits, does not start with `+`, and
/// reads back as `n`.
pub proof fn lemma_decimal_reads_back(n: nat)
    ensures
        all_digits(spec_decimal(n)),
        spec_decimal(n).len() > 0,
        spec_decimal(n)[0] != '+',
        digits_value(spec_decimal(n)) == n,
    decreases n,
{
    if n < 10 {
        lemma_digit_round_trip(n);
        let s = spec_decimal(n);
        assert(s.drop_last() =~= Seq::<char>::empty());
        assert(digits_value(s.drop_last()) == 0);
        assert(s.last() == digit_char(n));
        assert(digits_value(s) == digits_value(s.drop_last()) * 10 + n);
    } else {
        lemma_decimal_reads_back(n / 10);
        lemma_digit_round_trip(n % 10);
        let s = spec_decimal(n);
        let p = spec_decimal(n / 10);
        assert(s == p.push(digit_char(n % 10)));
        assert(s.drop_last() =~= p);
        assert(s.last() == digit_char(n % 10));
        assert(n == (n / 10) * 10 + n % 10);
        assert(digits_value(s) == digits_value(s.drop_last()) * 10 + (n % 10));
        assert(s[0] == p[0]);
        assert forall|i: int| 0 <= i < s.len() implies digit_value(#[trigger] s[i]) is Some by {
            if i < p.len() {
                assert(s[i] == p[i]);
            }
        }
    }
}

/// Decimal digits are not white space, so trimming the decimal text of a
/// number leaves it whole.
pub proof fn lemma_trim_decimal(n: nat)
    ensures
        spec_trim(spec_decimal(n)) == spec_decimal(n),
{
    lemma_decimal_reads_back(n);
    let s = spec_decimal(n);
    assert(digit_value(s[0]) is Some);
    assert(!spec_is_whitespace(s[0]));
    assert(leading_ws(s) == 0);
    assert(s.subrange(0, s.len() as int) =~= s);
    assert(digit_value(s[s.len() - 1]) is Some);
    assert(!spec_is_whitespace(s[s.len() - 1]));
    assert(trailing_ws(s) == 0);
}

/// The decimal text of a 16-bit number parses back to it.
pub proof fn lemma_parse_u16_of_decimal(p: u16)
    ensures
        spec_parse_u16(spec_decimal(p as nat)) == Some(p),
{
    lemma_decimal_reads_back(p as nat);
}

proof fn lemma_digits_value_prefix_monotone(s: Seq<char>, k: int)
    requires
        0 <= k <= s.len(),
        all_digits(s),
    ensures
        digits_value(s.subrange(0, k)) <= digits_value(s),
    decreases s.len() - k,
{
    if k < s.len() {
        lemma_digits_value_prefix_monotone(s, k + 1);
        assert(s.subrange(0, k + 1).drop_last() =~= s.subrange(0, k));
        assert(digit_value(s[k]) is Some);
        assert(s.subrange(0, k + 1).last() == s[k]);
    } else {
        assert(s.subrange(0, k) =~= s);
    }
}

/// Parses a port or other 16-bit number exactly as `str::parse::<u16>` does.
pub fn parse_u16(s: &str) -> (r: Option<u16>)
    ensures
        r == spec_parse_u16(s@),
{
    let n = s.unicode_len();
    let start: usize = if n > 0 && s.get_char(0) == '+' {
        1
    } else {
        0
    };
    let ghost d = if s@.len() > 0 && s@[0] == '+' {
        s@.subrange(1, s@.len() as int)
    } else {
        s@
    };
    assert(d =~= s@.subrange(start as int, n as int));
    if start >= n {
        return None;
    }
    let mut acc: u64 = 0;
    let mut i: usize = start;
    while i < n
        invariant
            n == s@.len(),
            start <= i <= n,
            d =~= s@.subrange(start as int, n as int),
            d == (if s@.len() > 0 && s@[0] == '+' {
                s@.subrange(1, s@.len() as int)
            } else {
                s@
            }),
            all_digits(s@.subrange(start as int, i as int)),
            acc == digits_value(s@.subrange(start as int, i as int)),
            acc <= 65535,
        decreases n - i,
    {
        let c = s.get_char(i);
        let v: u64 = if c == '0' {
            0
        } else if c == '1' {
            1
        } else if c == '2' {
            2
        } else if c == '3' {
            3
        } else if c == '4' {
            4
        } else if c == '5' {
            5
        } else if c == '6' {
            6
        } else if c == '7' {
            7
        } else if c == '8' {
            8
        } else if c == '9' {
            9
        } else {
            assert(d[i - start] == c);
            assert(!all_digits(d));
            return None;
        };
        let ghost pre = s@.subrange(start as int, i as int);
        let ghost next = s@.subrange(start as int, i + 1);
        assert(next.drop_last() =~= pre);
        assert(next.last() == c);
        assert forall|j: int| 0 <= j < next.len() implies digit_value(#[trigger] next[j]) is Some by {
            if j < pre.len() {
                assert(next[j] == pre[j]);
            }
        }
        acc = acc * 10 + v;
        i = i + 1;
        if acc > 65535 {
            proof {
                if all_digits(d) {
                    lemma_digits_value_prefix_monotone(d, (i - start) as int);
                    assert(d.subrange(0, (i - start) as int) =~= next);
                }
            }
            return None;
        }
    }
    assert(s@.subrange(start as int, n as int) =~= d);
    Some(acc as u16)
}

// ---------------------------------------------------------------------------
// Lines and words
// ---------------------------------------------------------------------------

/// What `String::from_utf8_lossy` makes of a byte buffer: its UTF-8 decoding,
/// each invalid sequence replaced by U+FFFD.
pub uninterp spec fn spec_from_utf8_lossy(bytes: Seq<u8>) -> Seq<char>;

/// Decodes a byte buffer as text with `String::from_utf8_lossy`; the contract
/// names the result.
#[verifier::external_body]
pub(crate) fn from_utf8_lossy(bytes: &[u8]) -> (r: String)
    ensures
        r@ == spec_from_utf8_lossy(bytes@),
{
    String::from_utf8_lossy(bytes).into_owned()
}

/// The first line of `s`, as `str::lines` yields it: the characters before the
/// first line feed, without the carriage return of a `\r\n` ending; all of `s`
/// when it holds no line feed.
pub open spec fn spec_first_line(s: Seq<char>) -> Seq<char> {
    match spec_find_char(s, '\n') {
        Some(i) => if i > 0 && s[i - 1] == '\r' {
            s.subrange(0, i - 1)
        } else {
            s.subrange(0, i)
        },
        None => s,
    }
}

/// The first line of `s` (see `spec_first_line`).
pub fn first_line(s: &str) -> (r: &str)
    ensures
        r@ == spec_first_line(s@),
{
    match find_char(s, '\n') {
        Some(i) => {
            proof {
                let c = choose|c: int|
                    0 <= c < s@.len() && s@[c] == '\n' && forall|j: int| 0 <= j < c ==> s@[j] != '\n';
                if c < i {
                } else if i < c {
                }
                assert(c == i);
            }
            if i > 0 && s.get_char(i - 1) == '\r' {
                s.substring_char(0, i - 1)
            } else {
                s.substring_char(0, i)
            }
        },
        None => {
            assert(!exists|j: int| 0 <= j < s@.len() && s@[j] == '\n');
            s
        },
    }
}

/// The whitespace-separated words of `s`, as `str::split_whitespace` yields
/// them, defined character by character from the end: a whitespace character
/// ends a word; any other character extends the last word when the character
/// before it is not whitespace, and starts a new word otherwise.
pub open spec fn spec_words(s: Seq<char>) -> Seq<Seq<char>>
    decreases s.len(),
{
    if s.len() == 0 {
        Seq::empty()
    } else {
        let p = spec_words(s.drop_last());
        let c = s.last();
        if spec_is_whitespace(c) {
            p
        } else if s.len() >= 2 && !spec_is_whitespace(s[s.len() - 2]) {
            p.update(p.len() - 1, p.last().push(c))
        } else {
            p.push(seq![c])
        }
    }
}

/// Splits `s` into its whitespace-separated words.
pub fn split_whitespace(s: &str) -> (r: Vec<String>)
    ensures
        r@.map_values(|w: String| w@) == spec_words(s@),
{
    let n = s.unicode_len();
    let mut done: Vec<String> = Vec::new();
    let mut cur = String::new();
    let mut in_word = false;
    let mut i: usize = 0;
    while i < n
        invariant
            n == s@.len(),
            i <= n,
            in_word == (i > 0 && !spec_is_whitespace(s@[i - 1])),
            in_word ==> cur@.len() > 0,
            spec_words(s@.take(i as int)) == (if in_word {
                done@.map_values(|w: String| w@).push(cur@)
            } else {
                done@.map_values(|w: String| w@)
            }),
        decreases n - i,
    {
        let c = s.get_char(i);
        let ghost t = s@.take(i as int + 1);
        assert(t.drop_last() =~= s@.take(i as int));
        assert(t.last() == c);
        if is_whitespace(c) {
            if in_word {
                let ghost before = done@.map_values(|w: String| w@);
                let w = cur;
                cur = String::new();
                done.push(w);
                assert(done@.map_values(|w: String| w@) =~= before.push(w@));
            }
            in_word = false;
        } else {
            if in_word {
                assert(t[t.len() - 2] == s@[i - 1]);
                let ghost pv = done@.map_values(|w: String| w@).push(cur@);
                push_char(&mut cur, c);
                assert(done@.map_values(|w: String| w@).push(cur@) =~= pv.update(
                    pv.len() - 1,
                    pv.last().push(c),
                ));
            } else {
                if i > 0 {
                    assert(t[t.len() - 2] == s@[i - 1]);
                }
                cur = String::new();
                push_char(&mut cur, c);
                assert(cur@ =~= seq![c]);
            }
            in_word = true;
        }
        i = i + 1;
    }
    assert(s@.take(n as int) =~= s@);
    if in_word {
        let ghost before = done@.map_values(|w: String| w@);
        done.push(cur);
        assert(done@.map_values(|w: String| w@) =~= before.push(cur@));
    }
    done
}

} // verus!
