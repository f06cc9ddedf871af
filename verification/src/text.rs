//! Character-level string helpers with their exact meaning stated as spec
//! functions over `Seq<char>`.

use vstd::prelude::*;

verus! {

/// The characters of `s`, one by one.
pub fn chars_of(s: &str) -> (v: Vec<char>)
    ensures
        v@ == s@,
{
    let n = s.unicode_len();
    let mut v: Vec<char> = Vec::new();
    let mut i: usize = 0;
    while i < n
        invariant
            n == s@.len(),
            i <= n,
            v@ == s@.take(i as int),
        decreases n - i,
    {
        let c = s.get_char(i);
        v.push(c);
        i = i + 1;
        assert(v@ =~= s@.take(i as int));
    }
    assert(v@ =~= s@);
    v
}

/// Appends one character to a `String` (`String::push`).
#[verifier::external_body]
pub(crate) fn push_char(s: &mut String, c: char)
    ensures
        final(s)@ == old(s)@.push(c),
{
    s.push(c);
}

/// The string made of the characters `chars[from..to]`.
pub fn string_of(chars: &Vec<char>, from: usize, to: usize) -> (s: String)
    requires
        from <= to <= chars@.len(),
    ensures
        s@ == chars@.subrange(from as int, to as int),
{
    let mut s = String::new();
    let mut i: usize = from;
    while i < to
        invariant
            from <= i <= to <= chars@.len(),
            s@ == chars@.subrange(from as int, i as int),
        decreases to - i,
    {
        push_char(&mut s, chars[i]);
        i = i + 1;
        assert(s@ =~= chars@.subrange(from as int, i as int));
    }
    s
}

/// The decimal digit character for `d < 10`.
pub open spec fn digit_char(d: nat) -> char {
    (('0' as nat) + d) as char
}

/// Decimal notation of a natural number, without leading zeros.
pub open spec fn decimal(n: nat) -> Seq<char>
    decreases n,
{
    if n < 10 {
        seq![digit_char(n)]
    } else {
        decimal(n / 10).push(digit_char(n % 10))
    }
}

/// Decimal notation of an integer: a minus sign before negative numbers.
pub open spec fn signed_decimal(i: int) -> Seq<char> {
    if i < 0 {
        seq!['-'] + decimal((-i) as nat)
    } else {
        decimal(i as nat)
    }
}

fn digit(d: u64) -> (c: char)
    requires
        d < 10,
    ensures
        c == digit_char(d as nat),
{
    let b: u8 = 48u8 + (d as u8);
    b as char
}

/// Appends the decimal notation of `n` to `s`.
pub fn push_decimal(s: &mut String, n: u64)
    ensures
        final(s)@ == old(s)@ + decimal(n as nat),
    decreases n,
{
    if n < 10 {
        push_char(s, digit(n));
        assert(decimal(n as nat) =~= seq![digit_char(n as nat)]);
    } else {
        push_decimal(s, n / 10);
        push_char(s, digit(n % 10));
        assert(decimal(n as nat) == decimal((n / 10) as nat).push(digit_char((n % 10) as nat)));
    }
}

/// Decimal notation of `n`, as `n.to_string()` writes it.
pub fn decimal_string(n: u64) -> (s: String)
    ensures
        s@ == decimal(n as nat),
{
    let mut s = String::new();
    push_decimal(&mut s, n);
    assert(s@ =~= decimal(n as nat));
    s
}

/// Signed decimal notation of `i`, as `i.to_string()` writes it.
pub fn signed_decimal_string(i: i64) -> (s: String)
    ensures
        s@ == signed_decimal(i as int),
{
    let mut s = String::new();
    if i < 0 {
        push_char(&mut s, '-');
        let m: u64 = if i == i64::MIN { 9223372036854775808u64 } else { (-i) as u64 };
        push_decimal(&mut s, m);
        assert(s@ =~= signed_decimal(i as int));
    } else {
        push_decimal(&mut s, i as u64);
        assert(s@ =~= signed_decimal(i as int));
    }
    s
}


/// `pat` occurs in `s` starting at position `i`.
pub open spec fn occurs_at(s: Seq<char>, pat: Seq<char>, i: int) -> bool {
    0 <= i && i + pat.len() <= s.len() && s.subrange(i, i + pat.len()) == pat
}

/// `pat` occurs somewhere in `s` (`str::contains`).
pub open spec fn has_substring(s: Seq<char>, pat: Seq<char>) -> bool {
    exists|i: int| occurs_at(s, pat, i)
}

fn matches_at(s: &Vec<char>, pat: &Vec<char>, i: usize) -> (r: bool)
    requires
        i + pat@.len() <= s@.len(),
    ensures
        r == occurs_at(s@, pat@, i as int),
{
    let m = pat.len();
    let sl = s.len();
    let mut j: usize = 0;
    while j < m
        invariant
            m == pat@.len(),
            sl == s@.len(),
            i + m <= s@.len(),
            j <= m,
            forall|k: int| 0 <= k < j ==> s@[i + k] == pat@[k],
        decreases m - j,
    {
        if s[i + j] != pat[j] {
            assert(s@.subrange(i as int, i + m)[j as int] != pat@[j as int]);
            return false;
        }
        j = j + 1;
    }
    assert(s@.subrange(i as int, i + m) =~= pat@);
    true
}

/// Whether `pat` occurs in `s`.
pub fn contains_chars(s: &Vec<char>, pat: &Vec<char>) -> (r: bool)
    ensures
        r == has_substring(s@, pat@),
{
    let n = s.len();
    let m = pat.len();
    if m > n {
        assert forall|i: int| !occurs_at(s@, pat@, i) by {}
        return false;
    }
    let mut i: usize = 0;
    loop
        invariant
            n == s@.len(),
            m == pat@.len(),
            m <= n,
            i <= n - m,
            forall|k: int| 0 <= k < i ==> !occurs_at(s@, pat@, k),
        ensures
            forall|k: int| 0 <= k <= n - m ==> !occurs_at(s@, pat@, k),
        decreases n - m - i,
    {
        if matches_at(s, pat, i) {
            return true;
        }
        if i == n - m {
            break;
        }
        i = i + 1;
    }
    assert forall|k: int| !occurs_at(s@, pat@, k) by {
        if 0 <= k <= n - m {
        }
    }
    false
}

/// Whether `pat` occurs in `s` (`str::contains`).
pub fn str_contains(s: &str, pat: &str) -> (r: bool)
    ensures
        r == has_substring(s@, pat@),
{
    let sc = chars_of(s);
    let pc = chars_of(pat);
    contains_chars(&sc, &pc)
}

/// Whether two strings hold the same characters.
pub fn str_eq(a: &str, b: &str) -> (r: bool)
    ensures
        r == (a@ == b@),
{
    let ac = chars_of(a);
    let bc = chars_of(b);
    if ac.len() != bc.len() {
        assert(ac@.len() != bc@.len());
        return false;
    }
    let n = ac.len();
    let mut i: usize = 0;
    while i < n
        invariant
            n == ac@.len(),
            n == bc@.len(),
            ac@ == a@,
            bc@ == b@,
            i <= n,
            forall|k: int| 0 <= k < i ==> ac@[k] == bc@[k],
        decreases n - i,
    {
        if ac[i] != bc[i] {
            assert(ac@[i as int] != bc@[i as int]);
            return false;
        }
        i = i + 1;
    }
    assert(ac@ =~= bc@);
    true
}

/// `s` with its prefix `prefix` removed, if it starts with it
/// (`str::strip_prefix`).
pub open spec fn without_prefix(s: Seq<char>, prefix: Seq<char>) -> Option<Seq<char>> {
    if prefix.len() <= s.len() && s.subrange(0, prefix.len() as int) == prefix {
        Some(s.subrange(prefix.len() as int, s.len() as int))
    } else {
        None
    }
}

/// `s` without the prefix `prefix`, or `None` where `s` does not start with it.
pub fn strip_prefix(s: &str, prefix: &str) -> (r: Option<String>)
    ensures
        match r {
            Some(rest) => without_prefix(s@, prefix@) == Some(rest@),
            None => without_prefix(s@, prefix@) is None,
        },
{
    let sc = chars_of(s);
    let pc = chars_of(prefix);
    if pc.len() > sc.len() {
        return None;
    }
    if matches_at(&sc, &pc, 0) {
        Some(string_of(&sc, pc.len(), sc.len()))
    } else {
        None
    }
}

/// White space as `char::is_whitespace` defines it (Unicode `White_Space`).
pub open spec fn is_white_space(c: char) -> bool {
    let u = c as u32;
    (0x9 <= u <= 0xD) || u == 0x20 || u == 0x85 || u == 0xA0 || u == 0x1680
        || (0x2000 <= u <= 0x200A) || u == 0x2028 || u == 0x2029 || u == 0x202F
        || u == 0x205F || u == 0x3000
}

fn white_space(c: char) -> (r: bool)
    ensures
        r == is_white_space(c),
{
    let u = c as u32;
    (0x9 <= u && u <= 0xD) || u == 0x20 || u == 0x85 || u == 0xA0 || u == 0x1680
        || (0x2000 <= u && u <= 0x200A) || u == 0x2028 || u == 0x2029 || u == 0x202F
        || u == 0x205F || u == 0x3000
}

/// `s` with leading and trailing white space removed (`str::trim`): the
/// part from the first to the last character that is not white space.
#[verifier::opaque]
pub open spec fn trimmed(s: Seq<char>) -> Seq<char> {
    if forall|i: int| 0 <= i < s.len() ==> is_white_space(#[trigger] s[i]) {
        Seq::empty()
    } else {
        let a = choose|a: int|
            0 <= a < s.len() && !is_white_space(s[a]) && forall|k: int|
                0 <= k < a ==> is_white_space(#[trigger] s[k]);
        let b = choose|b: int|
            0 <= b < s.len() && !is_white_space(s[b]) && forall|k: int|
                b < k < s.len() ==> is_white_space(#[trigger] s[k]);
        s.subrange(a, b + 1)
    }
}

/// `s` without leading and trailing white space.
pub fn trim(s: &str) -> (r: String)
    ensures
        r@ == trimmed(s@),
{
    reveal(trimmed);
    let c = chars_of(s);
    let n = c.len();
    let mut a: usize = 0;
    while a < n && white_space(c[a])
        invariant
            n == c@.len(),
            a <= n,
            forall|k: int| 0 <= k < a ==> is_white_space(#[trigger] c@[k]),
        decreases n - a,
    {
        a = a + 1;
    }
    if a == n {
        return String::new();
    }
    let mut b: usize = n - 1;
    while white_space(c[b])
        invariant
            n == c@.len(),
            a < n,
            a <= b < n,
            !is_white_space(c@[a as int]),
            forall|k: int| b < k < n ==> is_white_space(#[trigger] c@[k]),
        decreases b,
    {
        b = b - 1;
    }
    let ghost sa = choose|x: int|
        0 <= x < c@.len() && !is_white_space(c@[x]) && forall|k: int|
            0 <= k < x ==> is_white_space(#[trigger] c@[k]);
    let ghost sb = choose|x: int|
        0 <= x < c@.len() && !is_white_space(c@[x]) && forall|k: int|
            x < k < c@.len() ==> is_white_space(#[trigger] c@[k]);
    assert(!(forall|i: int| 0 <= i < c@.len() ==> is_white_space(#[trigger] c@[i])));
    assert(sa == a as int) by {
        if sa < a {
        } else if sa > a {
            assert(is_white_space(c@[a as int]));
        }
    }
    assert(sb == b as int) by {
        if sb < b {
            assert(is_white_space(c@[b as int]));
        } else if sb > b {
        }
    }
    string_of(&c, a, b + 1)
}

/// ASCII upper-case letters mapped to lower case, all else unchanged
/// (`char::to_ascii_lowercase`).
pub open spec fn ascii_lower(c: char) -> char {
    if 'A' <= c <= 'Z' {
        ((c as u32) + 32) as char
    } else {
        c
    }
}

fn lower_char(c: char) -> (r: char)
    ensures
        r == ascii_lower(c),
{
    if 'A' <= c && c <= 'Z' {
        let b: u8 = (c as u8) + 32;
        b as char
    } else {
        c
    }
}

/// `s` with every ASCII letter in lower case (`str::to_ascii_lowercase`).
pub open spec fn ascii_lowercase(s: Seq<char>) -> Seq<char> {
    s.map_values(|c: char| ascii_lower(c))
}

/// The characters of `s` with ASCII letters in lower case.
pub fn lowercase_chars(s: &str) -> (r: Vec<char>)
    ensures
        r@ == ascii_lowercase(s@),
{
    let c = chars_of(s);
    let n = c.len();
    let mut r: Vec<char> = Vec::new();
    let mut i: usize = 0;
    while i < n
        invariant
            n == c@.len(),
            i <= n,
            r@ == ascii_lowercase(c@.take(i as int)),
        decreases n - i,
    {
        r.push(lower_char(c[i]));
        i = i + 1;
        assert(r@ =~= ascii_lowercase(c@.take(i as int)));
    }
    assert(c@.take(n as int) =~= c@);
    r
}

/// Whether `a` and `b` are equal once ASCII letters are put in lower case
/// (`str::eq_ignore_ascii_case`).
pub fn eq_ignore_ascii_case(a: &str, b: &str) -> (r: bool)
    ensures
        r == (ascii_lowercase(a@) == ascii_lowercase(b@)),
{
    let la = lowercase_chars(a);
    let lb = lowercase_chars(b);
    if la.len() != lb.len() {
        assert(la@.len() != lb@.len());
        return false;
    }
    let n = la.len();
    let mut i: usize = 0;
    while i < n
        invariant
            n == la@.len(),
            n == lb@.len(),
            la@ == ascii_lowercase(a@),
            lb@ == ascii_lowercase(b@),
            i <= n,
            forall|k: int| 0 <= k < i ==> la@[k] == lb@[k],
        decreases n - i,
    {
        if la[i] != lb[i] {
            assert(la@[i as int] != lb@[i as int]);
            return false;
        }
        i = i + 1;
    }
    assert(la@ =~= lb@);
    true
}

/// `s` without any occurrence of `c` (`str::replace(c, "")`).
pub open spec fn without_char(s: Seq<char>, c: char) -> Seq<char> {
    s.filter(|x: char| x != c)
}

/// The characters of `s` other than `c`.
pub fn remove_char(s: &str, c: char) -> (r: Vec<char>)
    ensures
        r@ == without_char(s@, c),
{
    let v = chars_of(s);
    let n = v.len();
    let mut r: Vec<char> = Vec::new();
    let mut i: usize = 0;
    while i < n
        invariant
            n == v@.len(),
            i <= n,
            r@ == without_char(v@.take(i as int), c),
        decreases n - i,
    {
        proof {
            reveal_with_fuel(Seq::filter, 1);
            assert(v@.take(i + 1).drop_last() =~= v@.take(i as int));
        }
        if v[i] != c {
            r.push(v[i]);
        }
        i = i + 1;
    }
    assert(v@.take(n as int) =~= v@);
    r
}


/// A UTF-16 code unit that opens a surrogate pair.
pub open spec fn is_high_surrogate(u: u16) -> bool {
    0xD800 <= u <= 0xDBFF
}

/// A UTF-16 code unit that closes a surrogate pair.
pub open spec fn is_low_surrogate(u: u16) -> bool {
    0xDC00 <= u <= 0xDFFF
}

/// UTF-16 decoding with every unpaired surrogate replaced by U+FFFD
/// (`String::from_utf16_lossy`).
pub open spec fn utf16_lossy(units: Seq<u16>) -> Seq<char>
    decreases units.len(),
{
    if units.len() == 0 {
        Seq::empty()
    } else if !is_high_surrogate(units[0]) && !is_low_surrogate(units[0]) {
        seq![units[0] as char] + utf16_lossy(units.drop_first())
    } else if is_high_surrogate(units[0]) && units.len() >= 2 && is_low_surrogate(units[1]) {
        seq![(0x10000 + (units[0] - 0xD800) * 0x400 + (units[1] - 0xDC00)) as char]
            + utf16_lossy(units.subrange(2, units.len() as int))
    } else {
        seq!['\u{FFFD}'] + utf16_lossy(units.drop_first())
    }
}

/// The UTF-16 code units of one character.
pub open spec fn utf16_of_char(c: char) -> Seq<u16> {
    let u = c as u32;
    if u < 0x10000 {
        seq![u as u16]
    } else {
        seq![(0xD800 + (u - 0x10000) / 0x400) as u16, (0xDC00 + (u - 0x10000) % 0x400) as u16]
    }
}

/// UTF-16 encoding of a character sequence (`str::encode_utf16`).
pub open spec fn utf16_encode(s: Seq<char>) -> Seq<u16>
    decreases s.len(),
{
    if s.len() == 0 {
        Seq::empty()
    } else {
        utf16_of_char(s[0]) + utf16_encode(s.drop_first())
    }
}

/// `String::from_utf16_lossy`: decodes UTF-16, putting U+FFFD (the
/// replacement character) for each unpaired surrogate.
#[verifier::external_body]
pub(crate) fn decode_utf16_lossy(units: &[u16]) -> (s: String)
    ensures
        s@ == utf16_lossy(units@),
{
    String::from_utf16_lossy(units)
}

/// The UTF-16 units of one character: one unit, or a surrogate pair.
fn char_units(ch: char) -> (r: (u16, Option<u16>))
    ensures
        match r.1 {
            None => utf16_of_char(ch) == seq![r.0],
            Some(lo) => utf16_of_char(ch) == seq![r.0, lo],
        },
{
    let u = ch as u32;
    if u < 0x10000 {
        (u as u16, None)
    } else {
        let v = u - 0x10000;
        assert(v / 0x400 < 0x400) by (nonlinear_arith)
            requires v < 0x100000;
        let hi: u16 = (0xD800 + v / 0x400) as u16;
        let lo: u16 = (0xDC00 + v % 0x400) as u16;
        (hi, Some(lo))
    }
}

/// The UTF-16 code units of `s`, as `str::encode_utf16` gives them.
pub fn encode_utf16(s: &str) -> (units: Vec<u16>)
    ensures
        units@ == utf16_encode(s@),
{
    let c = chars_of(s);
    let n = c.len();
    let mut i: usize = n;
    let mut rev: Vec<u16> = Vec::new();
    // Encode back to front, so that each step prepends one character.
    while i > 0
        invariant
            n == c@.len(),
            i <= n,
            rev@.reverse() == utf16_encode(c@.subrange(i as int, n as int)),
        decreases i,
    {
        i = i - 1;
        let ch = c[i];
        let ghost before = rev@;
        let (first, second) = char_units(ch);
        match second {
            Some(lo) => {
                rev.push(lo);
                rev.push(first);
            },
            None => {
                rev.push(first);
            },
        }
        proof {
            let tail = c@.subrange(i + 1, n as int);
            let whole = c@.subrange(i as int, n as int);
            assert(whole.drop_first() =~= tail);
            assert(whole[0] == ch);
            assert(rev@.reverse() =~= utf16_of_char(ch) + before.reverse());
        }
    }
    assert(c@.subrange(0, n as int) =~= c@);
    let m = rev.len();
    let mut units: Vec<u16> = Vec::new();
    let mut j: usize = 0;
    while j < m
        invariant
            m == rev@.len(),
            j <= m,
            units@ == rev@.reverse().take(j as int),
        decreases m - j,
    {
        units.push(rev[m - 1 - j]);
        j = j + 1;
        assert(units@ =~= rev@.reverse().take(j as int));
    }
    assert(rev@.reverse().take(m as int) =~= rev@.reverse());
    units
}

/// The part of a NUL-terminated UTF-16 buffer before its first NUL (all of
/// it where there is none).
pub open spec fn before_nul(wide: Seq<u16>) -> Seq<u16> {
    if exists|i: int| 0 <= i < wide.len() && wide[i] == 0 {
        let i = choose|i: int| 0 <= i < wide.len() && wide[i] == 0 && forall|k: int| 0 <= k < i ==> wide[k] != 0;
        wide.take(i)
    } else {
        wide
    }
}

/// The text of a NUL-terminated UTF-16 buffer: the units before the first
/// NUL, decoded with replacement of unpaired surrogates.
pub fn wide_to_text(wide: &[u16]) -> (s: String)
    ensures
        s@ == utf16_lossy(before_nul(wide@)),
{
    let n = wide.len();
    let mut end: usize = 0;
    while end < n && wide[end] != 0
        invariant
            n == wide@.len(),
            end <= n,
            forall|k: int| 0 <= k < end ==> wide@[k] != 0,
        decreases n - end,
    {
        end = end + 1;
    }
    let mut prefix: Vec<u16> = Vec::new();
    let mut i: usize = 0;
    while i < end
        invariant
            n == wide@.len(),
            end <= n,
            i <= end,
            prefix@ == wide@.take(i as int),
        decreases end - i,
    {
        prefix.push(wide[i]);
        i = i + 1;
        assert(prefix@ =~= wide@.take(i as int));
    }
    proof {
        if end < n {
            let w = choose|x: int| 0 <= x < wide@.len() && wide@[x] == 0 && forall|k: int| 0 <= k < x ==> wide@[k] != 0;
            assert(wide@[end as int] == 0);
            assert(w == end as int) by {
                if w < end {
                } else if w > end {
                }
            }
        } else {
            assert(wide@.take(n as int) =~= wide@);
        }
    }
    decode_utf16_lossy(prefix.as_slice())
}

/// Whether two character vectors hold the same characters.
pub fn chars_eq(a: &Vec<char>, b: &Vec<char>) -> (r: bool)
    ensures
        r == (a@ == b@),
{
    if a.len() != b.len() {
        assert(a@.len() != b@.len());
        return false;
    }
    let n = a.len();
    let mut i: usize = 0;
    while i < n
        invariant
            n == a@.len(),
            n == b@.len(),
            i <= n,
            forall|k: int| 0 <= k < i ==> a@[k] == b@[k],
        decreases n - i,
    {
        if a[i] != b[i] {
            assert(a@[i as int] != b@[i as int]);
            return false;
        }
        i = i + 1;
    }
    assert(a@ =~= b@);
    true
}


/// The UTF-16 units of one character decode back to that character,
/// whatever follows them, and none of them is NUL unless the character is.
pub proof fn char_units_decode_back(c: char, rest: Seq<u16>)
    ensures
        utf16_lossy(utf16_of_char(c) + rest) == seq![c] + utf16_lossy(rest),
        c != '\0' ==> forall|k: int| 0 <= k < utf16_of_char(c).len() ==> utf16_of_char(c)[k] != 0,
{
    let u = c as u32;
    let units = utf16_of_char(c) + rest;
    if u < 0x10000 {
        assert(!(0xD800 <= u <= 0xDFFF));
        assert(units[0] == u as u16);
        assert(((u as u16) as char) == c);
        assert(units.drop_first() =~= rest);
    } else {
        let v = u - 0x10000;
        let hi = (0xD800 + v / 0x400) as u16;
        let lo = (0xDC00 + v % 0x400) as u16;
        assert(v / 0x400 < 0x400) by (nonlinear_arith)
            requires 0 <= v < 0x100000;
        assert(0 <= v % 0x400 < 0x400) by (nonlinear_arith)
            requires 0 <= v;
        assert(0x400 * (v / 0x400) + v % 0x400 == v) by (nonlinear_arith)
            requires 0 <= v;
        assert(units[0] == hi && units[1] == lo);
        assert(0x10000 + (hi - 0xD800) * 0x400 + (lo - 0xDC00) == u);
        assert(units.subrange(2, units.len() as int) =~= rest);
    }
}


/// Decoding what encoding produced gives the characters back, whatever
/// follows.
pub proof fn utf16_decode_encode(s: Seq<char>, rest: Seq<u16>)
    ensures
        utf16_lossy(utf16_encode(s) + rest) == s + utf16_lossy(rest),
    decreases s.len(),
{
    if s.len() == 0 {
        assert(utf16_encode(s) + rest =~= rest);
        assert(s + utf16_lossy(rest) =~= utf16_lossy(rest));
    } else {
        utf16_decode_encode(s.drop_first(), rest);
        char_units_decode_back(s[0], utf16_encode(s.drop_first()) + rest);
        assert(utf16_encode(s) + rest =~= utf16_of_char(s[0]) + (utf16_encode(s.drop_first()) + rest));
        assert(s =~= seq![s[0]] + s.drop_first());
        assert(seq![s[0]] + (s.drop_first() + utf16_lossy(rest)) =~= s + utf16_lossy(rest));
    }
}

/// The encoding of characters other than NUL holds no NUL unit.
pub proof fn utf16_encode_has_no_nul(s: Seq<char>)
    requires
        forall|i: int| 0 <= i < s.len() ==> s[i] != '\0',
    ensures
        forall|k: int| 0 <= k < utf16_encode(s).len() ==> utf16_encode(s)[k] != 0,
    decreases s.len(),
{
    if s.len() > 0 {
        utf16_encode_has_no_nul(s.drop_first());
        char_units_decode_back(s[0], Seq::empty());
        let head = utf16_of_char(s[0]);
        let tail = utf16_encode(s.drop_first());
        assert forall|k: int| 0 <= k < utf16_encode(s).len() implies utf16_encode(s)[k] != 0 by {
            if k < head.len() {
                assert(utf16_encode(s)[k] == head[k]);
            } else {
                assert(utf16_encode(s)[k] == tail[k - head.len()]);
            }
        }
    }
}

/// A text without NUL, written as UTF-16 into a buffer, with or without a
/// terminating NUL and whatever follows it, reads back as that text.
pub proof fn wide_text_round_trip(s: Seq<char>, tail: Seq<u16>)
    requires
        forall|i: int| 0 <= i < s.len() ==> s[i] != '\0',
    ensures
        utf16_lossy(before_nul(utf16_encode(s) + seq![0u16] + tail)) == s,
        utf16_lossy(before_nul(utf16_encode(s))) == s,
{
    let e = utf16_encode(s);
    let w = e + seq![0u16] + tail;
    utf16_encode_has_no_nul(s);
    utf16_decode_encode(s, Seq::empty());
    assert(e + Seq::<u16>::empty() =~= e);
    assert(s + utf16_lossy(Seq::<u16>::empty()) =~= s);
    assert(w[e.len() as int] == 0);
    let i = choose|i: int| 0 <= i < w.len() && w[i] == 0 && forall|k: int| 0 <= k < i ==> w[k] != 0;
    assert(i == e.len()) by {
        if i < e.len() {
            assert(w[i] == e[i]);
        } else if i > e.len() {
        }
    }
    assert(w.take(e.len() as int) =~= e);
    assert(!(exists|k: int| 0 <= k < e.len() && e[k] == 0));
}

} // verus!
