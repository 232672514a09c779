//! Character-level helpers: turning strings into character vectors and back,
//! writing numbers in decimal and hexadecimal, and reading unsigned numbers.
use vstd::prelude::*;
use vstd::string::*;

verus! {

/// The character of a decimal or (upper-case) hexadecimal digit value.
pub open spec fn digit_char(d: nat) -> char {
    if d < 10 {
        (48 + d) as char
    } else {
        (55 + d) as char
    }
}

/// Decimal notation of `n`, without leading zeros ("0" for zero).
pub open spec fn dec_text(n: nat) -> Seq<char>
    decreases n,
{
    if n < 10 {
        seq![digit_char(n)]
    } else {
        dec_text(n / 10).push(digit_char(n % 10))
    }
}

/// Upper-case hexadecimal notation of `n`, without leading zeros ("0" for zero).
pub open spec fn hex_text(n: nat) -> Seq<char>
    decreases n,
{
    if n < 16 {
        seq![digit_char(n)]
    } else {
        hex_text(n / 16).push(digit_char(n % 16))
    }
}

/// The value of character `c` as a digit in base `radix` (10 or 16); hexadecimal
/// digits may be written in either case.
pub open spec fn digit_value(c: char, radix: nat) -> Option<nat> {
    if '0' <= c && c <= '9' && (c as nat) - 48 < radix {
        Some((c as nat - 48) as nat)
    } else if radix == 16 && 'a' <= c && c <= 'f' {
        Some((c as nat - 87) as nat)
    } else if radix == 16 && 'A' <= c && c <= 'F' {
        Some((c as nat - 55) as nat)
    } else {
        None
    }
}

/// Every character of `s` is a digit in base `radix`.
pub open spec fn all_digits(s: Seq<char>, radix: nat) -> bool {
    forall|i: int| 0 <= i < s.len() ==> (#[trigger] digit_value(s[i], radix)) is Some
}

/// The number that the digits `s` denote in base `radix` (non-digits count as zero).
pub open spec fn digits_value(s: Seq<char>, radix: nat) -> nat
    decreases s.len(),
{
    if s.len() == 0 {
        0
    } else {
        digits_value(s.drop_last(), radix) * radix + match digit_value(s.last(), radix) {
            Some(d) => d,
            None => 0,
        }
    }
}

/// What the standard library's `u64` parsing accepts: an optional `+` sign followed
/// by one or more digits in base `radix`, denoting a value that fits in a `u64`.
pub open spec fn parse_u64_text(s: Seq<char>, radix: nat) -> Option<u64> {
    let d = if s.len() > 0 && s[0] == '+' {
        s.drop_first()
    } else {
        s
    };
    if d.len() > 0 && all_digits(d, radix) && digits_value(d, radix) <= u64::MAX {
        Some(digits_value(d, radix) as u64)
    } else {
        None
    }
}

/// `s` starts with `prefix`.
pub open spec fn starts_with(s: Seq<char>, prefix: Seq<char>) -> bool {
    prefix.len() <= s.len() && s.subrange(0, prefix.len() as int) == prefix
}

pub proof fn lemma_digits_value_monotone(s: Seq<char>, k: int, radix: nat)
    requires
        0 <= k <= s.len(),
        radix >= 1,
    ensures
        digits_value(s.subrange(0, k), radix) <= digits_value(s, radix),
    decreases s.len() - k,
{
    if k < s.len() {
        lemma_digits_value_monotone(s, k + 1, radix);
        let p = s.subrange(0, k + 1);
        assert(p.drop_last() =~= s.subrange(0, k));
        let v = digits_value(s.subrange(0, k), radix);
        assert(v * radix >= v) by (nonlinear_arith)
            requires
                radix >= 1,
        ;
    } else {
        assert(s.subrange(0, k) =~= s);
    }
}

proof fn lemma_dec_text_shape(n: nat)
    ensures
        dec_text(n).len() >= 1,
        all_digits(dec_text(n), 10),
        digits_value(dec_text(n), 10) == n,
        n > 0 ==> dec_text(n)[0] != '0',
        n == 0 ==> dec_text(n) == seq!['0'],
    decreases n,
{
    let c = digit_char(n % 10);
    assert(c as nat == 48 + n % 10);
    assert(digit_value(c, 10) == Some(n % 10));
    if n < 10 {
        assert(dec_text(n).drop_last() =~= Seq::<char>::empty());
        assert(digits_value(Seq::<char>::empty(), 10) == 0);
        assert(dec_text(n).last() == c);
        assert(digit_value(dec_text(n)[0], 10) is Some);
    } else {
        lemma_dec_text_shape(n / 10);
        let t = dec_text(n);
        assert(t.drop_last() =~= dec_text(n / 10));
        assert(t.last() == c);
        assert(digits_value(t, 10) == digits_value(t.drop_last(), 10) * 10 + n % 10);
        assert forall|i: int| 0 <= i < t.len() implies (#[trigger] digit_value(t[i], 10)) is Some by {
            if i < t.len() - 1 {
                assert(t[i] == dec_text(n / 10)[i]);
            }
        }
    }
}

/// Decimal notation reads back as the number it was written from.
pub proof fn lemma_dec_text_parses(n: nat)
    requires
        n <= u64::MAX,
    ensures
        parse_u64_text(dec_text(n), 10) == Some(n as u64),
        dec_text(n).len() >= 1,
        all_digits(dec_text(n), 10),
        n > 0 ==> dec_text(n)[0] != '0',
        n == 0 ==> dec_text(n) == seq!['0'],
{
    lemma_dec_text_shape(n);
    assert(digit_value(dec_text(n)[0], 10) is Some);
}

proof fn lemma_hex_text_shape(n: nat)
    ensures
        hex_text(n).len() >= 1,
        all_digits(hex_text(n), 16),
        digits_value(hex_text(n), 16) == n,
    decreases n,
{
    let c = digit_char(n % 16);
    if n % 16 < 10 {
        assert(c as nat == 48 + n % 16);
    } else {
        assert(c as nat == 55 + n % 16);
    }
    assert(digit_value(c, 16) == Some(n % 16));
    if n < 16 {
        assert(hex_text(n).drop_last() =~= Seq::<char>::empty());
        assert(digits_value(Seq::<char>::empty(), 16) == 0);
        assert(hex_text(n).last() == c);
        assert(digit_value(hex_text(n)[0], 16) is Some);
    } else {
        lemma_hex_text_shape(n / 16);
        let t = hex_text(n);
        assert(t.drop_last() =~= hex_text(n / 16));
        assert(t.last() == c);
        assert(digits_value(t, 16) == digits_value(t.drop_last(), 16) * 16 + n % 16);
        assert forall|i: int| 0 <= i < t.len() implies (#[trigger] digit_value(t[i], 16)) is Some by {
            if i < t.len() - 1 {
                assert(t[i] == hex_text(n / 16)[i]);
            }
        }
    }
}

/// Hexadecimal notation reads back as the number it was written from.
pub proof fn lemma_hex_text_parses(n: nat)
    requires
        n <= u64::MAX,
    ensures
        parse_u64_text(hex_text(n), 16) == Some(n as u64),
        hex_text(n).len() >= 1,
{
    lemma_hex_text_shape(n);
    assert(digit_value(hex_text(n)[0], 16) is Some);
}

/// All characters of a string slice, in order.
pub fn chars_of(s: &str) -> (v: Vec<char>)
    ensures
        v@ == s@,
{
    let n = s.unicode_len();
    let mut v: Vec<char> = Vec::new();
    let mut i: usize = 0;
    while i < n
        invariant
            n == s@.len(),
            i <= n,
            v@ == s@.subrange(0, i as int),
        decreases n - i,
    {
        v.push(s.get_char(i));
        i = i + 1;
    }
    assert(v@ =~= s@);
    v
}

/// Collects characters into a `String` (`String::from_iter`).
#[verifier::external_body]
pub fn string_from_chars(v: &Vec<char>) -> (s: String)
    ensures
        s@ == v@,
{
    String::from_iter(v.iter())
}

/// Appends the characters of `s` to `out`.
pub fn push_str(out: &mut Vec<char>, s: &str)
    ensures
        final(out)@ == old(out)@ + s@,
{
    let n = s.unicode_len();
    let mut i: usize = 0;
    while i < n
        invariant
            n == s@.len(),
            i <= n,
            out@ == old(out)@ + s@.subrange(0, i as int),
        decreases n - i,
    {
        out.push(s.get_char(i));
        i = i + 1;
        assert(s@.subrange(0, i as int) =~= s@.subrange(0, i - 1).push(s@[i - 1]));
    }
    assert(s@.subrange(0, n as int) =~= s@);
}

/// Appends the characters of `s` to `out`.
pub fn push_chars(out: &mut Vec<char>, s: &Vec<char>)
    ensures
        final(out)@ == old(out)@ + s@,
{
    let mut i: usize = 0;
    while i < s.len()
        invariant
            i <= s.len(),
            out@ == old(out)@ + s@.subrange(0, i as int),
        decreases s.len() - i,
    {
        out.push(s[i]);
        i = i + 1;
        assert(s@.subrange(0, i as int) =~= s@.subrange(0, i - 1).push(s@[i - 1]));
    }
    assert(s@.subrange(0, s.len() as int) =~= s@);
}

fn digit_to_char(d: u64) -> (c: char)
    requires
        d < 16,
    ensures
        c == digit_char(d as nat),
{
    match d {
        0 => '0',
        1 => '1',
        2 => '2',
        3 => '3',
        4 => '4',
        5 => '5',
        6 => '6',
        7 => '7',
        8 => '8',
        9 => '9',
        10 => 'A',
        11 => 'B',
        12 => 'C',
        13 => 'D',
        14 => 'E',
        _ => 'F',
    }
}

/// Appends the decimal notation of `n` to `out`.
pub fn push_decimal(out: &mut Vec<char>, n: u64)
    ensures
        final(out)@ == old(out)@ + dec_text(n as nat),
    decreases n,
{
    if n >= 10 {
        push_decimal(out, n / 10);
    }
    out.push(digit_to_char(n % 10));
    assert(out@ =~= old(out)@ + dec_text(n as nat));
}

/// Appends the upper-case hexadecimal notation of `n` to `out`.
pub fn push_hex(out: &mut Vec<char>, n: u64)
    ensures
        final(out)@ == old(out)@ + hex_text(n as nat),
    decreases n,
{
    if n >= 16 {
        push_hex(out, n / 16);
    }
    out.push(digit_to_char(n % 16));
    assert(out@ =~= old(out)@ + hex_text(n as nat));
}

fn char_digit_value(c: char, radix: u64) -> (r: Option<u64>)
    requires
        radix == 10 || radix == 16,
    ensures
        match digit_value(c, radix as nat) {
            Some(d) => r == Some(d as u64),
            None => r is None,
        },
{
    if '0' <= c && c <= '9' {
        Some((c as u32 - 48) as u64)
    } else if radix == 16 && 'a' <= c && c <= 'f' {
        Some((c as u32 - 87) as u64)
    } else if radix == 16 && 'A' <= c && c <= 'F' {
        Some((c as u32 - 55) as u64)
    } else {
        None
    }
}

/// Reads the characters `v[start..end]` as an unsigned number in base `radix`, as the
/// standard library's `u64` parsing does: an optional `+` and at least one digit;
/// `None` for anything else or for a value beyond `u64::MAX`.
pub fn parse_u64_range(v: &Vec<char>, start: usize, end: usize, radix: u64) -> (r: Option<u64>)
    requires
        start <= end <= v@.len(),
        radix == 10 || radix == 16,
    ensures
        r == parse_u64_text(v@.subrange(start as int, end as int), radix as nat),
{
    let ghost s = v@.subrange(start as int, end as int);
    let mut i = start;
    if i < end && v[i] == '+' {
        i = i + 1;
    }
    let ghost d = v@.subrange(i as int, end as int);
    proof {
        if s.len() > 0 && s[0] == '+' {
            assert(d =~= s.drop_first());
        } else {
            assert(d =~= s);
        }
    }
    if i == end {
        return None;
    }
    let first = i;
    let mut acc: u64 = 0;
    while i < end
        invariant
            start <= first <= i <= end <= v@.len(),
            d == v@.subrange(first as int, end as int),
            d.len() > 0,
            s == v@.subrange(start as int, end as int),
            (s.len() > 0 && s[0] == '+') ==> d == s.drop_first(),
            !(s.len() > 0 && s[0] == '+') ==> d == s,
            radix == 10 || radix == 16,
            all_digits(v@.subrange(first as int, i as int), radix as nat),
            acc as nat == digits_value(v@.subrange(first as int, i as int), radix as nat),
        decreases end - i,
    {
        let ghost p = v@.subrange(first as int, i as int);
        let ghost p1 = v@.subrange(first as int, i + 1);
        assert(p1.drop_last() =~= p);
        assert(p1.last() == v@[i as int]);
        match char_digit_value(v[i], radix) {
            None => {
                assert(d[i - first] == v@[i as int]);
                assert(digit_value(d[i - first], radix as nat) is None);
                assert(!all_digits(d, radix as nat));
                return None;
            },
            Some(dv) => {
                let m = acc.checked_mul(radix);
                let next = match m {
                    Some(m) => m.checked_add(dv),
                    None => None,
                };
                match next {
                    None => {
                        proof {
                            assert(digits_value(p1, radix as nat) > u64::MAX) by (nonlinear_arith)
                                requires
                                    digits_value(p1, radix as nat) == acc * radix + dv,
                                    m is None ==> acc * radix > u64::MAX,
                                    m matches Some(mm) ==> mm == acc * radix && mm + dv > u64::MAX,
                            ;
                            assert(p1 =~= d.subrange(0, (i + 1 - first) as int));
                            lemma_digits_value_monotone(d, (i + 1 - first) as int, radix as nat);
                        }
                        return None;
                    },
                    Some(n) => {
                        assert forall|j: int| 0 <= j < p1.len() implies (#[trigger] digit_value(
                            p1[j],
                            radix as nat,
                        )) is Some by {
                            if j < p.len() {
                                assert(p1[j] == p[j]);
                            }
                        }
                        acc = n;
                        i = i + 1;
                    },
                }
            },
        }
    }
    assert(v@.subrange(first as int, i as int) =~= d);
    Some(acc)
}

/// `a` and `b` hold the same characters.
pub fn chars_equal(a: &Vec<char>, b: &Vec<char>) -> (r: bool)
    ensures
        r == (a@ == b@),
{
    if a.len() != b.len() {
        return false;
    }
    let mut i: usize = 0;
    while i < a.len()
        invariant
            a@.len() == b@.len(),
            i <= a@.len(),
            forall|j: int| 0 <= j < i ==> a@[j] == b@[j],
        decreases a.len() - i,
    {
        if a[i] != b[i] {
            return false;
        }
        i = i + 1;
    }
    assert(a@ =~= b@);
    true
}

/// `needle` occurs in `s` at position `at`.
pub fn occurs_at(s: &Vec<char>, needle: &Vec<char>, at: usize) -> (r: bool)
    requires
        at <= s@.len(),
    ensures
        r == (at + needle@.len() <= s@.len() && s@.subrange(at as int, at + needle@.len())
            == needle@),
{
    let slen = s.len();
    if needle.len() > slen - at {
        return false;
    }
    let mut i: usize = 0;
    while i < needle.len()
        invariant
            slen == s@.len(),
            at + needle@.len() <= s@.len(),
            i <= needle@.len(),
            forall|j: int| 0 <= j < i ==> s@[at + j] == needle@[j],
        decreases needle.len() - i,
    {
        if s[at + i] != needle[i] {
            assert(s@.subrange(at as int, at + needle@.len())[i as int] != needle@[i as int]);
            return false;
        }
        i = i + 1;
    }
    assert(s@.subrange(at as int, at + needle@.len()) =~= needle@);
    true
}

/// `s` starts with `prefix`.
pub fn has_prefix(s: &Vec<char>, prefix: &str) -> (r: bool)
    ensures
        r == starts_with(s@, prefix@),
{
    let p = chars_of(prefix);
    occurs_at(s, &p, 0)
}

/// Position of the first occurrence of `needle` in `s` at or after `from`.
pub open spec fn find_from(s: Seq<char>, needle: Seq<char>, from: int) -> Option<int>
    decreases s.len() + 1 - from,
{
    if from < 0 || from + needle.len() > s.len() {
        None
    } else if s.subrange(from, from + needle.len()) == needle {
        Some(from)
    } else {
        find_from(s, needle, from + 1)
    }
}

pub proof fn lemma_find_from(s: Seq<char>, needle: Seq<char>, from: int)
    requires
        0 <= from,
    ensures
        match find_from(s, needle, from) {
            Some(i) => from <= i && i + needle.len() <= s.len() && s.subrange(i, i + needle.len())
                == needle && forall|j: int|
                from <= j < i ==> #[trigger] s.subrange(j, j + needle.len()) != needle,
            None => forall|j: int|
                from <= j && j + needle.len() <= s.len() ==> #[trigger] s.subrange(
                    j,
                    j + needle.len(),
                ) != needle,
        },
    decreases s.len() + 1 - from,
{
    if from + needle.len() <= s.len() {
        lemma_find_from(s, needle, from + 1);
    }
}

/// Position of the first occurrence of `needle` in `s` at or after `from`.
pub fn find_chars(s: &Vec<char>, needle: &Vec<char>, from: usize) -> (r: Option<usize>)
    requires
        from <= s@.len(),
    ensures
        match r {
            Some(i) => find_from(s@, needle@, from as int) == Some(i as int),
            None => find_from(s@, needle@, from as int) is None,
        },
{
    let slen = s.len();
    let nlen = needle.len();
    if nlen > slen - from {
        return None;
    }
    let last = slen - nlen;
    let mut i = from;
    while i <= last
        invariant
            slen == s@.len(),
            nlen == needle@.len(),
            last == slen - nlen,
            from <= i,
            find_from(s@, needle@, from as int) == find_from(s@, needle@, i as int),
        decreases last - i,
    {
        if occurs_at(s, needle, i) {
            return Some(i);
        }
        if i == last {
            assert(find_from(s@, needle@, i + 1) is None);
            return None;
        }
        i = i + 1;
    }
    None
}

/// `needle` occurs somewhere in `s`.
pub fn has_text(s: &Vec<char>, needle: &str) -> (r: bool)
    ensures
        r == (find_from(s@, needle@, 0) is Some),
{
    let n = chars_of(needle);
    find_chars(s, &n, 0).is_some()
}

/// `s` and `t` hold the same characters.
pub fn is_text(s: &Vec<char>, t: &str) -> (r: bool)
    ensures
        r == (s@ == t@),
{
    let v = chars_of(t);
    chars_equal(s, &v)
}

/// The characters `v[start..end]`.
pub fn sub_chars(v: &Vec<char>, start: usize, end: usize) -> (r: Vec<char>)
    requires
        start <= end <= v@.len(),
    ensures
        r@ == v@.subrange(start as int, end as int),
{
    let mut r: Vec<char> = Vec::new();
    let mut i = start;
    while i < end
        invariant
            start <= i <= end <= v@.len(),
            r@ == v@.subrange(start as int, i as int),
        decreases end - i,
    {
        r.push(v[i]);
        i = i + 1;
        assert(r@ =~= v@.subrange(start as int, i as int));
    }
    r
}

/// A crate name with each `-` written as `_`, as it appears in symbol names.
pub open spec fn underscored(s: Seq<char>) -> Seq<char> {
    s.map_values(|c: char| if c == '-' { '_' } else { c })
}

/// A crate name with each `-` written as `_`.
pub fn dashes_to_underscores(s: &String) -> (r: Vec<char>)
    ensures
        r@ == underscored(s@),
{
    let v = chars_of(s.as_str());
    let mut out: Vec<char> = Vec::new();
    let mut i: usize = 0;
    while i < v.len()
        invariant
            i <= v@.len(),
            v@ == s@,
            out@.len() == i,
            forall|j: int| 0 <= j < i ==> out@[j] == (if v@[j] == '-' { '_' } else { v@[j] }),
        decreases v.len() - i,
    {
        let c = v[i];
        out.push(if c == '-' { '_' } else { c });
        i = i + 1;
    }
    assert(out@ =~= underscored(s@));
    out
}

/// The character of a lower-case hexadecimal digit value.
pub open spec fn lower_digit_char(d: nat) -> char {
    if d < 10 {
        (48 + d) as char
    } else {
        (87 + d) as char
    }
}

/// Lower-case hexadecimal notation of `n`, without leading zeros ("0" for zero).
pub open spec fn lower_hex_text(n: nat) -> Seq<char>
    decreases n,
{
    if n < 16 {
        seq![lower_digit_char(n)]
    } else {
        lower_hex_text(n / 16).push(lower_digit_char(n % 16))
    }
}

/// Lower-case hexadecimal notation of `n`, with at least two digits.
pub open spec fn lower_hex2_text(n: nat) -> Seq<char> {
    if n < 16 {
        seq!['0'] + lower_hex_text(n)
    } else {
        lower_hex_text(n)
    }
}

fn lower_digit_to_char(d: u64) -> (c: char)
    requires
        d < 16,
    ensures
        c == lower_digit_char(d as nat),
{
    if d < 10 {
        digit_to_char(d)
    } else {
        match d {
            10 => 'a',
            11 => 'b',
            12 => 'c',
            13 => 'd',
            14 => 'e',
            _ => 'f',
        }
    }
}

/// Appends the lower-case hexadecimal notation of `n` to `out`.
pub fn push_lower_hex(out: &mut Vec<char>, n: u64)
    ensures
        final(out)@ == old(out)@ + lower_hex_text(n as nat),
    decreases n,
{
    if n >= 16 {
        push_lower_hex(out, n / 16);
    }
    out.push(lower_digit_to_char(n % 16));
    assert(out@ =~= old(out)@ + lower_hex_text(n as nat));
}

/// Appends the lower-case hexadecimal notation of `n`, with at least two digits.
pub fn push_lower_hex2(out: &mut Vec<char>, n: u64)
    ensures
        final(out)@ == old(out)@ + lower_hex2_text(n as nat),
{
    if n < 16 {
        out.push('0');
    }
    push_lower_hex(out, n);
    assert(out@ =~= old(out)@ + lower_hex2_text(n as nat));
}

} // verus!
