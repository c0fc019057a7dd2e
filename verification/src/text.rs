//! Character-level helpers: whitespace trimming, decimal and hexadecimal
//! rendering and integer parsing, each stated over `Seq<char>`.

use vstd::prelude::*;
use vstd::string::*;

verus! {

// ---------------------------------------------------------------------------
// Building strings
// ---------------------------------------------------------------------------

/// Builds an owned string holding exactly the given characters.
///
/// Trusted: `String::from_iter` over the characters, which appends every
/// character in order.
#[verifier::external_body]
pub fn string_from_chars(chars: &Vec<char>) -> (s: String)
    ensures
        s@ == chars@,
{
    String::from_iter(chars)
}

/// The characters of a string slice, in order.
pub fn chars_of(s: &str) -> (v: Vec<char>)
    ensures
        v@ == s@,
{
    let mut v: Vec<char> = Vec::new();
    for c in it: s.chars()
        invariant
            v@ == it.seq().take(it.index() as int),
    {
        v.push(c);
    }
    v
}

/// Appends every character of `s` to `out`.
pub fn push_str(out: &mut Vec<char>, s: &str)
    ensures
        final(out)@ == old(out)@ + s@,
{
    let cs = chars_of(s);
    let mut i: usize = 0;
    while i < cs.len()
        invariant
            i <= cs.len(),
            cs@ == s@,
            out@ == old(out)@ + cs@.take(i as int),
        decreases cs.len() - i,
    {
        out.push(cs[i]);
        i = i + 1;
        assert(cs@.take(i as int) =~= cs@.take(i - 1 as int).push(cs@[i - 1]));
    }
    assert(cs@.take(cs.len() as int) =~= cs@);
}

/// Appends every character of `s` to `out`.
pub fn push_string(out: &mut Vec<char>, s: &String)
    ensures
        final(out)@ == old(out)@ + s@,
{
    push_str(out, s.as_str());
}

/// Whether `s` begins with `prefix`.
pub fn starts_with(s: &str, prefix: &str) -> (r: bool)
    ensures
        r == prefix@.is_prefix_of(s@),
{
    let a = chars_of(s);
    let p = chars_of(prefix);
    if p.len() > a.len() {
        return false;
    }
    let mut i: usize = 0;
    while i < p.len()
        invariant
            i <= p@.len() <= a@.len(),
            a@ == s@,
            p@ == prefix@,
            forall|j: int| 0 <= j < i ==> p@[j] == a@[j],
        decreases p.len() - i,
    {
        if p[i] != a[i] {
            return false;
        }
        i = i + 1;
    }
    assert(p@ =~= a@.take(p@.len() as int));
    true
}

/// Whether two string slices hold the same text.
pub fn str_eq(a: &str, b: &str) -> (r: bool)
    ensures
        r == (a@ == b@),
{
    let x = chars_of(a);
    let y = chars_of(b);
    if x.len() != y.len() {
        return false;
    }
    let mut i: usize = 0;
    while i < x.len()
        invariant
            i <= x@.len() == y@.len(),
            x@ == a@,
            y@ == b@,
            forall|j: int| 0 <= j < i ==> x@[j] == y@[j],
        decreases x.len() - i,
    {
        if x[i] != y[i] {
            return false;
        }
        i = i + 1;
    }
    assert(x@ =~= y@);
    true
}

// ---------------------------------------------------------------------------
// Whitespace and trimming
// ---------------------------------------------------------------------------

/// Unicode `White_Space`, the set that `char::is_whitespace` and `str::trim`
/// use.
pub open spec fn is_white_space(c: char) -> bool {
    let u = c as u32;
    ||| 0x9 <= u <= 0xD
    ||| u == 0x20
    ||| u == 0x85
    ||| u == 0xA0
    ||| u == 0x1680
    ||| 0x2000 <= u <= 0x200A
    ||| u == 0x2028
    ||| u == 0x2029
    ||| u == 0x202F
    ||| u == 0x205F
    ||| u == 0x3000
}

/// `cs` without its leading whitespace.
pub open spec fn trim_start(cs: Seq<char>) -> Seq<char>
    decreases cs.len(),
{
    if cs.len() > 0 && is_white_space(cs[0]) {
        trim_start(cs.drop_first())
    } else {
        cs
    }
}

/// `cs` without its trailing whitespace.
pub open spec fn trim_end(cs: Seq<char>) -> Seq<char>
    decreases cs.len(),
{
    if cs.len() > 0 && is_white_space(cs.last()) {
        trim_end(cs.drop_last())
    } else {
        cs
    }
}

/// `cs` without leading and trailing whitespace, as `str::trim` gives it.
pub open spec fn trim(cs: Seq<char>) -> Seq<char> {
    trim_end(trim_start(cs))
}

/// Whether `c` is Unicode whitespace.
pub fn is_white_space_char(c: char) -> (r: bool)
    ensures
        r == is_white_space(c),
{
    let u = c as u32;
    (0x9 <= u && u <= 0xD) || u == 0x20 || u == 0x85 || u == 0xA0 || u == 0x1680 || (0x2000
        <= u && u <= 0x200A) || u == 0x2028 || u == 0x2029 || u == 0x202F || u == 0x205F || u
        == 0x3000
}

proof fn lemma_trim_start(cs: Seq<char>, k: int)
    requires
        0 <= k <= cs.len(),
        forall|i: int| 0 <= i < k ==> is_white_space(#[trigger] cs[i]),
        k == cs.len() || !is_white_space(cs[k]),
    ensures
        trim_start(cs) == cs.subrange(k, cs.len() as int),
    decreases k,
{
    if k == 0 {
        assert(cs.subrange(0, cs.len() as int) =~= cs);
    } else {
        let rest = cs.drop_first();
        assert forall|i: int| 0 <= i < k - 1 implies is_white_space(#[trigger] rest[i]) by {
            assert(rest[i] == cs[i + 1]);
        }
        if k - 1 < rest.len() {
            assert(rest[k - 1] == cs[k]);
        }
        lemma_trim_start(rest, k - 1);
        assert(rest.subrange(k - 1, rest.len() as int) =~= cs.subrange(k, cs.len() as int));
    }
}

proof fn lemma_trim_end(cs: Seq<char>, e: int)
    requires
        0 <= e <= cs.len(),
        forall|i: int| e <= i < cs.len() ==> is_white_space(#[trigger] cs[i]),
        e == 0 || !is_white_space(cs[e - 1]),
    ensures
        trim_end(cs) == cs.subrange(0, e),
    decreases cs.len() - e,
{
    if e == cs.len() {
        assert(cs.subrange(0, e) =~= cs);
    } else {
        let rest = cs.drop_last();
        assert forall|i: int| e <= i < rest.len() implies is_white_space(#[trigger] rest[i]) by {
            assert(rest[i] == cs[i]);
        }
        if e > 0 {
            assert(rest[e - 1] == cs[e - 1]);
        }
        lemma_trim_end(rest, e);
        assert(rest.subrange(0, e) =~= cs.subrange(0, e));
    }
}

/// The string slice without leading and trailing whitespace.
pub fn trim_str(s: &str) -> (r: &str)
    ensures
        r@ == trim(s@),
{
    let cs = chars_of(s);
    let n = cs.len();
    let mut start: usize = 0;
    while start < n && is_white_space_char(cs[start])
        invariant
            start <= n,
            n == cs@.len(),
            forall|i: int| 0 <= i < start ==> is_white_space(#[trigger] cs@[i]),
        decreases n - start,
    {
        start = start + 1;
    }
    let mut end: usize = n;
    while end > start && is_white_space_char(cs[end - 1])
        invariant
            start <= end <= n,
            n == cs@.len(),
            forall|i: int| end <= i < n ==> is_white_space(#[trigger] cs@[i]),
        decreases end,
    {
        end = end - 1;
    }
    proof {
        lemma_trim_start(cs@, start as int);
        let mid = cs@.subrange(start as int, n as int);
        assert forall|i: int| end - start <= i < mid.len() implies is_white_space(
            #[trigger] mid[i],
        ) by {
            assert(mid[i] == cs@[start + i]);
        }
        if end > start {
            assert(mid[end - start - 1] == cs@[end - 1]);
        }
        lemma_trim_end(mid, end - start);
        assert(mid.subrange(0, end - start) =~= cs@.subrange(start as int, end as int));
    }
    s.substring_char(start, end)
}

/// Whether the string is empty once leading and trailing whitespace is removed.
pub fn is_blank(s: &str) -> (r: bool)
    ensures
        r == (trim(s@).len() == 0),
{
    let t = trim_str(s);
    t.is_empty()
}

/// Length in bytes of the UTF-8 encoding of `cs`, which `str::len` returns
/// (as a `usize`).
pub open spec fn byte_len(cs: Seq<char>) -> usize {
    vstd::utf8::encode_utf8(cs).len() as usize
}

/// Length in bytes of a string slice.
pub fn str_byte_len(s: &str) -> (n: usize)
    ensures
        n == byte_len(s@),
{
    s.len()
}

/// Length in bytes of a string.
pub fn string_byte_len(s: &String) -> (n: usize)
    ensures
        n == byte_len(s@),
{
    s.as_str().len()
}

// ---------------------------------------------------------------------------
// Decimal rendering
// ---------------------------------------------------------------------------

/// The ASCII digit for `d` (0 to 9).
pub open spec fn digit_char(d: int) -> char {
    if d == 0 {
        '0'
    } else if d == 1 {
        '1'
    } else if d == 2 {
        '2'
    } else if d == 3 {
        '3'
    } else if d == 4 {
        '4'
    } else if d == 5 {
        '5'
    } else if d == 6 {
        '6'
    } else if d == 7 {
        '7'
    } else if d == 8 {
        '8'
    } else {
        '9'
    }
}

/// The decimal digits of `n`, most significant first, without leading zeros
/// (a single `0` for zero).
pub open spec fn decimal_digits(n: nat) -> Seq<char>
    decreases n,
{
    if n < 10 {
        seq![digit_char(n as int)]
    } else {
        decimal_digits(n / 10).push(digit_char((n % 10) as int))
    }
}

/// The decimal text of a signed value, as `Display` writes it.
pub open spec fn decimal_int(v: int) -> Seq<char> {
    if v < 0 {
        seq!['-'] + decimal_digits((-v) as nat)
    } else {
        decimal_digits(v as nat)
    }
}

fn digit_to_char(d: u64) -> (c: char)
    requires
        d < 10,
    ensures
        c == digit_char(d as int),
{
    if d == 0 {
        '0'
    } else if d == 1 {
        '1'
    } else if d == 2 {
        '2'
    } else if d == 3 {
        '3'
    } else if d == 4 {
        '4'
    } else if d == 5 {
        '5'
    } else if d == 6 {
        '6'
    } else if d == 7 {
        '7'
    } else if d == 8 {
        '8'
    } else {
        '9'
    }
}

/// The decimal digits of `n`.
pub fn decimal_digits_of(n: u64) -> (v: Vec<char>)
    ensures
        v@ == decimal_digits(n as nat),
        v@.len() >= 1,
{
    let mut m: u64 = n / 10;
    let mut v: Vec<char> = Vec::new();
    v.push(digit_to_char(n % 10));
    while m > 0
        invariant
            m > 0 ==> decimal_digits(n as nat) == decimal_digits(m as nat) + v@,
            m == 0 ==> decimal_digits(n as nat) == v@,
            v@.len() >= 1,
        decreases m,
    {
        let c = digit_to_char(m % 10);
        let ghost prev = v@;
        proof {
            if m >= 10 {
                assert(decimal_digits(m as nat) == decimal_digits((m / 10) as nat).push(c));
                assert(decimal_digits((m / 10) as nat).push(c) + prev =~= decimal_digits(
                    (m / 10) as nat,
                ) + (seq![c] + prev));
            } else {
                assert(decimal_digits(m as nat) == seq![c]);
            }
        }
        v.insert(0, c);
        assert(v@ =~= seq![c] + prev);
        m = m / 10;
    }
    v
}

/// `|a|` as an unsigned value, as `i64::unsigned_abs` gives it.
pub fn unsigned_abs(a: i64) -> (r: u64)
    ensures
        r as int == (if a < 0 { -a } else { a as int }),
{
    if a >= 0 {
        a as u64
    } else {
        ((-(a + 1)) as u64) + 1
    }
}

/// The decimal text of `a` with a leading `-` when negative.
pub fn int_decimal_chars(a: i64) -> (v: Vec<char>)
    ensures
        v@ == decimal_int(a as int),
{
    let mag = unsigned_abs(a);
    let digits = decimal_digits_of(mag);
    if a < 0 {
        let mut v: Vec<char> = Vec::new();
        v.push('-');
        let mut d = digits;
        v.append(&mut d);
        assert(v@ =~= seq!['-'] + decimal_digits((-a) as nat));
        v
    } else {
        digits
    }
}

/// The decimal text of `a`, as `a.to_string()` gives it.
pub fn int_to_string(a: i64) -> (s: String)
    ensures
        s@ == decimal_int(a as int),
{
    let v = int_decimal_chars(a);
    string_from_chars(&v)
}

// ---------------------------------------------------------------------------
// Decimal parsing
// ---------------------------------------------------------------------------

/// Whether `c` is an ASCII decimal digit.
pub open spec fn is_digit(c: char) -> bool {
    '0' <= c <= '9'
}

/// The value of an ASCII decimal digit.
pub open spec fn digit_value(c: char) -> int {
    c as int - '0' as int
}

/// The value of a run of decimal digits, most significant first.
pub open spec fn digits_value(cs: Seq<char>) -> int
    decreases cs.len(),
{
    if cs.len() == 0 {
        0
    } else {
        digits_value(cs.drop_last()) * 10 + digit_value(cs.last())
    }
}

/// Whether every character of `cs` is a decimal digit.
pub open spec fn all_digits(cs: Seq<char>) -> bool {
    forall|i: int| 0 <= i < cs.len() ==> is_digit(#[trigger] cs[i])
}

/// What `str::parse::<i64>` returns: an optional `+` or `-`, then one or more
/// ASCII digits, whose value must lie in the range of `i64`.
pub open spec fn parse_i64_spec(cs: Seq<char>) -> Option<i64> {
    if cs.len() == 0 {
        None
    } else {
        let negative = cs[0] == '-';
        let body = if cs[0] == '-' || cs[0] == '+' {
            cs.drop_first()
        } else {
            cs
        };
        if body.len() == 0 || !all_digits(body) {
            None
        } else {
            let v = if negative {
                -digits_value(body)
            } else {
                digits_value(body)
            };
            if i64::MIN <= v <= i64::MAX {
                Some(v as i64)
            } else {
                None
            }
        }
    }
}

/// What `str::parse::<u16>` returns: an optional `+`, then one or more ASCII
/// digits whose value fits in a `u16`.
pub open spec fn parse_u16_spec(cs: Seq<char>) -> Option<u16> {
    if cs.len() == 0 {
        None
    } else {
        let body = if cs[0] == '+' {
            cs.drop_first()
        } else {
            cs
        };
        if body.len() == 0 || !all_digits(body) || digits_value(body) > u16::MAX {
            None
        } else {
            Some(digits_value(body) as u16)
        }
    }
}

proof fn lemma_digits_value_nonneg(cs: Seq<char>)
    requires
        all_digits(cs),
    ensures
        digits_value(cs) >= 0,
    decreases cs.len(),
{
    if cs.len() > 0 {
        assert(all_digits(cs.drop_last())) by {
            assert forall|i: int| 0 <= i < cs.drop_last().len() implies is_digit(
                #[trigger] cs.drop_last()[i],
            ) by {
                assert(cs.drop_last()[i] == cs[i]);
            }
        }
        lemma_digits_value_nonneg(cs.drop_last());
        assert(is_digit(cs[cs.len() - 1]));
    }
}

proof fn lemma_digits_value_monotone(cs: Seq<char>, k: int)
    requires
        all_digits(cs),
        0 <= k <= cs.len(),
    ensures
        digits_value(cs.take(k)) <= digits_value(cs),
    decreases cs.len() - k,
{
    if k < cs.len() {
        let next = cs.take(k + 1);
        assert(next.drop_last() =~= cs.take(k));
        assert(is_digit(cs[k]));
        assert(next.last() == cs[k]);
        assert(all_digits(cs.take(k))) by {
            assert forall|i: int| 0 <= i < k implies is_digit(#[trigger] cs.take(k)[i]) by {
                assert(cs.take(k)[i] == cs[i]);
            }
        }
        lemma_digits_value_nonneg(cs.take(k));
        lemma_digits_value_monotone(cs, k + 1);
    } else {
        assert(cs.take(k) =~= cs);
    }
}

/// Reads the digits of `cs[from..]`: `Some` of their value when all are digits,
/// at least one, and the value is at most `limit`; `None` otherwise.
fn read_digits(cs: &Vec<char>, from: usize, limit: u64) -> (r: Option<u64>)
    requires
        from <= cs@.len(),
    ensures
        ({
            let body = cs@.skip(from as int);
            match r {
                Some(v) => body.len() > 0 && all_digits(body) && v as int == digits_value(body) && v
                    <= limit,
                None => body.len() == 0 || !all_digits(body) || digits_value(body) > limit,
            }
        }),
{
    let ghost body = cs@.skip(from as int);
    if from == cs.len() {
        return None;
    }
    let mut acc: u64 = 0;
    let mut i: usize = from;
    while i < cs.len()
        invariant
            from <= i <= cs@.len(),
            body == cs@.skip(from as int),
            all_digits(body.take(i - from)),
            acc as int == digits_value(body.take(i - from)),
            acc <= limit,
        decreases cs.len() - i,
    {
        let c = cs[i];
        let ghost prefix = body.take(i - from);
        let ghost next = body.take(i - from + 1);
        assert(next.drop_last() =~= prefix);
        assert(next.last() == c);
        if !('0' <= c && c <= '9') {
            assert(!is_digit(body[i - from]));
            return None;
        }
        let d = (c as u32 - '0' as u32) as u64;
        assert(all_digits(next)) by {
            assert forall|j: int| 0 <= j < next.len() implies is_digit(#[trigger] next[j]) by {
                if j < prefix.len() {
                    assert(next[j] == prefix[j]);
                }
            }
        }
        if d > limit || acc > (limit - d) / 10 {
            proof {
                assert(digits_value(next) == acc * 10 + d);
                if d <= limit {
                    assert(acc * 10 + d > limit) by (nonlinear_arith)
                        requires
                            acc > (limit - d) / 10,
                            d <= limit,
                    ;
                }
                if all_digits(body) {
                    lemma_digits_value_monotone(body, i - from + 1);
                }
            }
            return None;
        }
        assert(acc * 10 + d <= limit) by (nonlinear_arith)
            requires
                acc <= (limit - d) / 10,
                d <= limit,
        ;
        acc = acc * 10 + d;
        i = i + 1;
    }
    assert(body.take(i - from) =~= body);
    Some(acc)
}

/// Parses a signed decimal integer as `str::parse::<i64>` does.
pub fn parse_i64(s: &str) -> (r: Option<i64>)
    ensures
        r == parse_i64_spec(s@),
{
    let cs = chars_of(s);
    if cs.len() == 0 {
        return None;
    }
    let negative = cs[0] == '-';
    let from: usize = if cs[0] == '-' || cs[0] == '+' {
        1
    } else {
        0
    };
    assert(cs@.skip(from as int) =~= (if cs@[0] == '-' || cs@[0] == '+' {
        cs@.drop_first()
    } else {
        cs@
    }));
    // The magnitude of i64::MIN is the largest that can be accepted.
    let limit: u64 = 0x8000_0000_0000_0000u64;
    match read_digits(&cs, from, limit) {
        None => {
            proof {
                let body = cs@.skip(from as int);
                if body.len() > 0 && all_digits(body) {
                    lemma_digits_value_nonneg(body);
                }
            }
            None
        },
        Some(mag) => {
            if negative {
                if mag == limit {
                    Some(i64::MIN)
                } else {
                    Some(-(mag as i64))
                }
            } else if mag >= limit {
                None
            } else {
                Some(mag as i64)
            }
        },
    }
}

/// Parses an unsigned 16-bit decimal integer as `str::parse::<u16>` does.
pub fn parse_u16(s: &str) -> (r: Option<u16>)
    ensures
        r == parse_u16_spec(s@),
{
    let cs = chars_of(s);
    if cs.len() == 0 {
        return None;
    }
    let from: usize = if cs[0] == '+' {
        1
    } else {
        0
    };
    assert(cs@.skip(from as int) =~= (if cs@[0] == '+' {
        cs@.drop_first()
    } else {
        cs@
    }));
    match read_digits(&cs, from, 0xFFFF) {
        None => None,
        Some(v) => Some(v as u16),
    }
}

/// What `str::parse::<bool>` returns: exactly `"true"` or `"false"`.
pub open spec fn parse_bool_spec(cs: Seq<char>) -> Option<bool> {
    if cs == seq!['t', 'r', 'u', 'e'] {
        Some(true)
    } else if cs == seq!['f', 'a', 'l', 's', 'e'] {
        Some(false)
    } else {
        None
    }
}

/// Parses a boolean as `str::parse::<bool>` does.
pub fn parse_bool(s: &str) -> (r: Option<bool>)
    ensures
        r == parse_bool_spec(s@),
{
    let cs = chars_of(s);
    if cs.len() == 4 && cs[0] == 't' && cs[1] == 'r' && cs[2] == 'u' && cs[3] == 'e' {
        assert(cs@ =~= seq!['t', 'r', 'u', 'e']);
        Some(true)
    } else if cs.len() == 5 && cs[0] == 'f' && cs[1] == 'a' && cs[2] == 'l' && cs[3] == 's'
        && cs[4] == 'e' {
        assert(cs@ =~= seq!['f', 'a', 'l', 's', 'e']);
        Some(false)
    } else {
        proof {
            if cs@ == seq!['t', 'r', 'u', 'e'] {
                assert(cs@[0] == 't' && cs@[1] == 'r' && cs@[2] == 'u' && cs@[3] == 'e');
            }
            if cs@ == seq!['f', 'a', 'l', 's', 'e'] {
                assert(cs@[0] == 'f' && cs@[1] == 'a' && cs@[2] == 'l' && cs@[3] == 's' && cs@[4] == 'e');
            }
        }
        None
    }
}

proof fn lemma_digit_char_value(d: int)
    requires
        0 <= d < 10,
    ensures
        is_digit(digit_char(d)),
        digit_value(digit_char(d)) == d,
        !is_white_space(digit_char(d)),
{
}

/// The decimal digits of `n` are digits and read back as `n`.
pub proof fn lemma_decimal_digits_read_back(n: nat)
    ensures
        decimal_digits(n).len() > 0,
        all_digits(decimal_digits(n)),
        digits_value(decimal_digits(n)) == n,
    decreases n,
{
    if n < 10 {
        lemma_digit_char_value(n as int);
        let ds = decimal_digits(n);
        assert(ds.drop_last() =~= Seq::<char>::empty());
        assert(digits_value(ds.drop_last()) == 0);
        assert(ds.last() == digit_char(n as int));
    } else {
        lemma_decimal_digits_read_back(n / 10);
        lemma_digit_char_value((n % 10) as int);
        let ds = decimal_digits(n);
        assert(ds.drop_last() =~= decimal_digits(n / 10));
        assert(ds.last() == digit_char((n % 10) as int));
        assert(digits_value(ds) == digits_value(decimal_digits(n / 10)) * 10 + digit_value(ds.last()));
        assert forall|i: int| 0 <= i < ds.len() implies is_digit(#[trigger] ds[i]) by {
            if i < ds.len() - 1 {
                assert(ds[i] == decimal_digits(n / 10)[i]);
            }
        }
    }
}

/// The decimal text of any `i64` has no surrounding whitespace and parses
/// back to the same value.
pub proof fn lemma_decimal_int_parses_back(v: i64)
    ensures
        decimal_int(v as int).len() > 0,
        !is_white_space(decimal_int(v as int)[0]),
        !is_white_space(decimal_int(v as int).last()),
        trim(decimal_int(v as int)) == decimal_int(v as int),
        parse_i64_spec(decimal_int(v as int)) == Some(v),
{
    let cs = decimal_int(v as int);
    let mag: nat = if v < 0 {
        (-v) as nat
    } else {
        v as nat
    };
    lemma_decimal_digits_read_back(mag);
    let ds = decimal_digits(mag);
    assert(is_digit(ds[0]));
    assert(is_digit(ds.last()));
    if v < 0 {
        assert(cs.drop_first() =~= ds);
        assert(cs[0] == '-');
        assert(cs.last() == ds.last());
    } else {
        assert(cs == ds);
    }
    assert(!is_white_space(cs[0]));
    assert(!is_white_space(cs.last()));
    assert(trim_start(cs) == cs);
    assert(trim_end(cs) == cs);
}

proof fn lemma_trim_start_pad(pad: Seq<char>, rest: Seq<char>)
    requires
        forall|i: int| 0 <= i < pad.len() ==> is_white_space(#[trigger] pad[i]),
        rest.len() > 0,
        !is_white_space(rest[0]),
    ensures
        trim_start(pad + rest) == rest,
    decreases pad.len(),
{
    if pad.len() > 0 {
        assert((pad + rest)[0] == pad[0]);
        assert((pad + rest).drop_first() =~= pad.drop_first() + rest);
        assert forall|i: int| 0 <= i < pad.drop_first().len() implies is_white_space(
            #[trigger] pad.drop_first()[i],
        ) by {
            assert(pad.drop_first()[i] == pad[i + 1]);
        }
        lemma_trim_start_pad(pad.drop_first(), rest);
    } else {
        assert(pad + rest =~= rest);
    }
}

proof fn lemma_trim_end_pad(rest: Seq<char>, pad: Seq<char>)
    requires
        forall|i: int| 0 <= i < pad.len() ==> is_white_space(#[trigger] pad[i]),
        rest.len() > 0,
        !is_white_space(rest.last()),
    ensures
        trim_end(rest + pad) == rest,
    decreases pad.len(),
{
    if pad.len() > 0 {
        assert((rest + pad).last() == pad.last());
        assert((rest + pad).drop_last() =~= rest + pad.drop_last());
        assert forall|i: int| 0 <= i < pad.drop_last().len() implies is_white_space(
            #[trigger] pad.drop_last()[i],
        ) by {
            assert(pad.drop_last()[i] == pad[i]);
        }
        lemma_trim_end_pad(rest, pad.drop_last());
    } else {
        assert(rest + pad =~= rest);
    }
}

/// Whitespace around a text that neither begins nor ends with whitespace is
/// exactly what trimming removes.
pub proof fn lemma_trim_padded(left: Seq<char>, text: Seq<char>, right: Seq<char>)
    requires
        forall|i: int| 0 <= i < left.len() ==> is_white_space(#[trigger] left[i]),
        forall|i: int| 0 <= i < right.len() ==> is_white_space(#[trigger] right[i]),
        text.len() > 0,
        !is_white_space(text[0]),
        !is_white_space(text.last()),
    ensures
        trim(left + text + right) == text,
{
    assert(left + text + right =~= left + (text + right));
    assert((text + right)[0] == text[0]);
    lemma_trim_start_pad(left, text + right);
    lemma_trim_end_pad(text, right);
}

/// A run of digits followed by a non-digit is read unambiguously: two such
/// splits of the same text agree.
pub proof fn lemma_digit_run_unique(d1: Seq<char>, r1: Seq<char>, d2: Seq<char>, r2: Seq<char>)
    requires
        all_digits(d1),
        all_digits(d2),
        r1.len() > 0,
        r2.len() > 0,
        !is_digit(r1[0]),
        !is_digit(r2[0]),
        d1 + r1 == d2 + r2,
    ensures
        d1 == d2,
        r1 == r2,
{
    if d1.len() < d2.len() {
        assert((d1 + r1)[d1.len() as int] == r1[0]);
        assert((d2 + r2)[d1.len() as int] == d2[d1.len() as int]);
        assert(is_digit(d2[d1.len() as int]));
    } else if d2.len() < d1.len() {
        assert((d2 + r2)[d2.len() as int] == r2[0]);
        assert((d1 + r1)[d2.len() as int] == d1[d2.len() as int]);
        assert(is_digit(d1[d2.len() as int]));
    } else {
        assert forall|i: int| 0 <= i < d1.len() implies d1[i] == d2[i] by {
            assert((d1 + r1)[i] == d1[i]);
            assert((d2 + r2)[i] == d2[i]);
        }
        assert(d1 =~= d2);
        assert(d1.len() == d2.len());
        assert((d1 + r1).len() == d1.len() + r1.len());
        assert((d2 + r2).len() == d2.len() + r2.len());
        assert((d1 + r1).len() == (d2 + r2).len());
        assert(r1.len() == r2.len());
        assert forall|i: int| 0 <= i < r1.len() implies r1[i] == r2[i] by {
            assert((d1 + r1)[d1.len() + i] == r1[i]);
            assert((d2 + r2)[d2.len() + i] == r2[i]);
        }
        assert(r1 =~= r2);
    }
}

// ---------------------------------------------------------------------------
// Hexadecimal
// ---------------------------------------------------------------------------

/// The lower-case hexadecimal digit for `d` (0 to 15).
pub open spec fn hex_digit_char(d: int) -> char {
    if d < 10 {
        digit_char(d)
    } else if d == 10 {
        'a'
    } else if d == 11 {
        'b'
    } else if d == 12 {
        'c'
    } else if d == 13 {
        'd'
    } else if d == 14 {
        'e'
    } else {
        'f'
    }
}

/// Two lower-case hexadecimal digits per byte, high nibble first.
pub open spec fn hex_lower(bytes: Seq<u8>) -> Seq<char>
    decreases bytes.len(),
{
    if bytes.len() == 0 {
        Seq::empty()
    } else {
        hex_lower(bytes.drop_last()) + seq![
            hex_digit_char((bytes.last() / 16) as int),
            hex_digit_char((bytes.last() % 16) as int),
        ]
    }
}

fn hex_digit_to_char(d: u8) -> (c: char)
    requires
        d < 16,
    ensures
        c == hex_digit_char(d as int),
{
    if d < 10 {
        digit_to_char(d as u64)
    } else if d == 10 {
        'a'
    } else if d == 11 {
        'b'
    } else if d == 12 {
        'c'
    } else if d == 13 {
        'd'
    } else if d == 14 {
        'e'
    } else {
        'f'
    }
}

/// Appends the lower-case hexadecimal text of `bytes` to `out`.
pub fn push_hex_lower(out: &mut Vec<char>, bytes: &[u8])
    ensures
        final(out)@ == old(out)@ + hex_lower(bytes@),
{
    let mut i: usize = 0;
    while i < bytes.len()
        invariant
            i <= bytes@.len(),
            out@ == old(out)@ + hex_lower(bytes@.take(i as int)),
        decreases bytes.len() - i,
    {
        let b = bytes[i];
        let hi = hex_digit_to_char(b / 16);
        let lo = hex_digit_to_char(b % 16);
        let ghost before = out@;
        out.push(hi);
        out.push(lo);
        proof {
            let next = bytes@.take(i + 1);
            assert(next.drop_last() =~= bytes@.take(i as int));
            assert(next.last() == b);
            assert(out@ =~= old(out)@ + hex_lower(next));
        }
        i = i + 1;
    }
    assert(bytes@.take(bytes@.len() as int) =~= bytes@);
}

/// The value of a hexadecimal digit of either case, or -1 for any other
/// character.
pub open spec fn hex_value(c: char) -> int {
    if '0' <= c <= '9' {
        c as int - '0' as int
    } else if 'a' <= c <= 'f' {
        c as int - 'a' as int + 10
    } else if 'A' <= c <= 'F' {
        c as int - 'A' as int + 10
    } else {
        -1
    }
}

/// The byte written by the two hexadecimal digits `cs[2 * i]` and
/// `cs[2 * i + 1]`.
pub open spec fn hex_pair_value(cs: Seq<char>, i: int) -> u8 {
    (hex_value(cs[2 * i]) * 16 + hex_value(cs[2 * i + 1])) as u8
}

/// Decodes hexadecimal digits of either case into bytes: `Some` exactly when
/// `cs` has `2 * n` characters, all hexadecimal digits.
pub open spec fn decode_hex(cs: Seq<char>, n: nat) -> Option<Seq<u8>> {
    if cs.len() == 2 * n && forall|i: int| 0 <= i < cs.len() ==> hex_value(#[trigger] cs[i]) >= 0 {
        Some(Seq::new(n, |i: int| hex_pair_value(cs, i)))
    } else {
        None
    }
}

fn hex_char_value(c: char) -> (r: Option<u8>)
    ensures
        match r {
            Some(v) => v as int == hex_value(c) && v < 16,
            None => hex_value(c) < 0,
        },
{
    if '0' <= c && c <= '9' {
        Some((c as u32 - '0' as u32) as u8)
    } else if 'a' <= c && c <= 'f' {
        Some((c as u32 - 'a' as u32 + 10) as u8)
    } else if 'A' <= c && c <= 'F' {
        Some((c as u32 - 'A' as u32 + 10) as u8)
    } else {
        None
    }
}

/// Decodes a string of 24 hexadecimal digits into 12 bytes.
pub fn decode_hex_12(s: &str) -> (r: Option<[u8; 12]>)
    ensures
        match r {
            Some(b) => decode_hex(s@, 12) == Some(b@),
            None => decode_hex(s@, 12) is None,
        },
{
    let cs = chars_of(s);
    if cs.len() != 24 {
        return None;
    }
    let mut out: [u8; 12] = [0u8; 12];
    let mut i: usize = 0;
    while i < 12
        invariant
            i <= 12,
            cs@ == s@,
            cs@.len() == 24,
            out@.len() == 12,
            forall|j: int| 0 <= j < 2 * i ==> hex_value(#[trigger] cs@[j]) >= 0,
            forall|j: int| 0 <= j < i ==> out@[j] == hex_pair_value(cs@, j),
        decreases 12 - i,
    {
        let hi = hex_char_value(cs[2 * i]);
        let lo = hex_char_value(cs[2 * i + 1]);
        match (hi, lo) {
            (Some(h), Some(l)) => {
                out[i] = h * 16 + l;
                assert(out@[i as int] == hex_pair_value(cs@, i as int));
            },
            _ => {
                return None;
            },
        }
        i = i + 1;
    }
    assert(out@ =~= Seq::new(12, |j: int| hex_pair_value(cs@, j)));
    Some(out)
}

/// Lower-case hexadecimal text decodes back to the bytes it was made from.
pub proof fn lemma_hex_lower_decodes(bytes: Seq<u8>)
    ensures
        hex_lower(bytes).len() == 2 * bytes.len(),
        forall|i: int| 0 <= i < hex_lower(bytes).len() ==> hex_value(#[trigger] hex_lower(bytes)[i]) >= 0,
        forall|i: int| 0 <= i < bytes.len() ==> hex_pair_value(hex_lower(bytes), i) == #[trigger] bytes[i],
    decreases bytes.len(),
{
    if bytes.len() > 0 {
        let prev = bytes.drop_last();
        lemma_hex_lower_decodes(prev);
        let hp = hex_lower(prev);
        let h = hex_lower(bytes);
        let b = bytes.last();
        let hi = (b / 16) as int;
        let lo = (b % 16) as int;
        assert(hex_value(hex_digit_char(hi)) == hi);
        assert(hex_value(hex_digit_char(lo)) == lo);
        assert(h == hp + seq![hex_digit_char(hi), hex_digit_char(lo)]);
        assert forall|i: int| 0 <= i < h.len() implies hex_value(#[trigger] h[i]) >= 0 by {
            if i < hp.len() {
                assert(h[i] == hp[i]);
            }
        }
        assert forall|i: int| 0 <= i < bytes.len() implies hex_pair_value(h, i)
            == #[trigger] bytes[i] by {
            if i < prev.len() {
                assert(h[2 * i] == hp[2 * i]);
                assert(h[2 * i + 1] == hp[2 * i + 1]);
                assert(hex_pair_value(hp, i) == prev[i]);
                assert(prev[i] == bytes[i]);
            } else {
                assert(h[2 * i] == hex_digit_char(hi));
                assert(h[2 * i + 1] == hex_digit_char(lo));
                assert(hi * 16 + lo == b);
            }
        }
    }
}

} // verus!
