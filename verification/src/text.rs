//! Verified text utilities shared by the codecs: decimal rendering and
//! parsing of 64-bit integers, character search, and string equality.
use vstd::prelude::*;

verus! {

/// Relies on alloc's `String::push`: appends exactly one character at the end.
pub assume_specification[ String::push ](s: &mut String, c: char)
    ensures
        final(s)@ == old(s)@.push(c),
;

pub open spec fn is_dec_digit(c: char) -> bool {
    c == '0' || c == '1' || c == '2' || c == '3' || c == '4' || c == '5' || c == '6' || c == '7'
        || c == '8' || c == '9'
}

pub open spec fn digit_char(d: int) -> char {
    if d == 0 {
        '0'
    } else if d == 1 {
        '1'
    } else if d == 2 {
        '2'
    } else if d == 3 {
        '3'
    } else if d == 4 {
        '4'
    } else if d == 5 {
        '5'
    } else if d == 6 {
        '6'
    } else if d == 7 {
        '7'
    } else if d == 8 {
        '8'
    } else {
        '9'
    }
}

pub open spec fn digit_val(c: char) -> int {
    if c == '0' {
        0
    } else if c == '1' {
        1
    } else if c == '2' {
        2
    } else if c == '3' {
        3
    } else if c == '4' {
        4
    } else if c == '5' {
        5
    } else if c == '6' {
        6
    } else if c == '7' {
        7
    } else if c == '8' {
        8
    } else {
        9
    }
}

/// Decimal digits of `n`, most significant first, no sign and no leading zero
/// (except for `n == 0`, which is rendered as "0").
pub open spec fn dec_digits_of(n: nat) -> Seq<char>
    decreases n,
{
    if n < 10 {
        seq![digit_char(n as int)]
    } else {
        dec_digits_of(n / 10).push(digit_char((n % 10) as int))
    }
}

/// Canonical decimal rendering of a signed integer: a leading '-' for
/// negative values, then the digits of the magnitude.
pub open spec fn dec_int_of(v: int) -> Seq<char> {
    if v < 0 {
        seq!['-'] + dec_digits_of((-v) as nat)
    } else {
        dec_digits_of(v as nat)
    }
}

fn dec_digit(d: u64) -> (c: char)
    requires
        d < 10,
    ensures
        c == digit_char(d as int),
{
    match d {
        0 => '0',
        1 => '1',
        2 => '2',
        3 => '3',
        4 => '4',
        5 => '5',
        6 => '6',
        7 => '7',
        8 => '8',
        _ => '9',
    }
}

fn push_dec_digits(s: &mut String, n: u64)
    ensures
        final(s)@ == old(s)@ + dec_digits_of(n as nat),
    decreases n,
{
    if n < 10 {
        let c = dec_digit(n);
        s.push(c);
        assert(final(s)@ =~= old(s)@ + dec_digits_of(n as nat));
    } else {
        push_dec_digits(s, n / 10);
        let c = dec_digit(n % 10);
        s.push(c);
        assert(final(s)@ =~= old(s)@ + dec_digits_of(n as nat));
    }
}

/// Renders an unsigned 64-bit integer in decimal.
pub fn u64_to_dec(n: u64) -> (r: String)
    ensures
        r@ == dec_digits_of(n as nat),
{
    let mut s = String::new();
    push_dec_digits(&mut s, n);
    proof {
        assert(s@ =~= dec_digits_of(n as nat));
    }
    s
}

/// Appends the canonical decimal rendering of a signed 64-bit integer.
pub fn push_dec_i64(s: &mut String, v: i64)
    ensures
        final(s)@ == old(s)@ + dec_int_of(v as int),
{
    if v < 0 {
        s.push('-');
        let mag: u64 = ((-(v + 1)) as u64) + 1;
        assert(mag == -(v as int));
        push_dec_digits(s, mag);
        assert(final(s)@ =~= old(s)@ + dec_int_of(v as int));
    } else {
        push_dec_digits(s, v as u64);
    }
}

/// Renders a signed 64-bit integer in decimal.
pub fn i64_to_dec(v: i64) -> (r: String)
    ensures
        r@ == dec_int_of(v as int),
{
    let mut s = String::new();
    push_dec_i64(&mut s, v);
    proof {
        assert(s@ =~= dec_int_of(v as int));
    }
    s
}

pub open spec fn all_dec_digits(s: Seq<char>) -> bool {
    forall|i: int| 0 <= i < s.len() ==> is_dec_digit(#[trigger] s[i])
}

/// Value of a sequence of decimal digits, most significant first.
pub open spec fn digits_val(s: Seq<char>) -> int
    decreases s.len(),
{
    if s.len() == 0 {
        0
    } else {
        digits_val(s.drop_last()) * 10 + digit_val(s.last())
    }
}

/// The integer denoted by a decimal string: an optional sign, then one or
/// more digits. Leading zeroes are accepted.
pub open spec fn dec_text_val(s: Seq<char>) -> Option<int> {
    if s.len() >= 2 && s[0] == '-' && all_dec_digits(s.skip(1)) {
        Some(-digits_val(s.skip(1)))
    } else if s.len() >= 2 && s[0] == '+' && all_dec_digits(s.skip(1)) {
        Some(digits_val(s.skip(1)))
    } else if s.len() >= 1 && all_dec_digits(s) {
        Some(digits_val(s))
    } else {
        None
    }
}

/// What parsing a decimal string as an `i64` yields: the denoted integer
/// when there is one and it fits, nothing otherwise.
pub open spec fn parse_i64_result(s: Seq<char>) -> Option<int> {
    match dec_text_val(s) {
        Some(v) => if i64::MIN <= v <= i64::MAX {
            Some(v)
        } else {
            None
        },
        None => None,
    }
}

/// Index of the first occurrence of `c` in `s`, if any.
pub open spec fn find_char_spec(s: Seq<char>, c: char) -> Option<int>
    decreases s.len(),
{
    if s.len() == 0 {
        None
    } else if s[0] == c {
        Some(0)
    } else {
        match find_char_spec(s.skip(1), c) {
            Some(i) => Some(i + 1),
            None => None,
        }
    }
}

/// `find_char_spec` names exactly the first occurrence: the character is
/// there, and nowhere earlier; `None` means it is nowhere at all.
pub proof fn lemma_find_char(s: Seq<char>, c: char)
    ensures
        match find_char_spec(s, c) {
            Some(i) => 0 <= i < s.len() && s[i] == c && forall|k: int|
                0 <= k < i ==> s[k] != c,
            None => forall|k: int| 0 <= k < s.len() ==> s[k] != c,
        },
    decreases s.len(),
{
    if s.len() > 0 && s[0] != c {
        lemma_find_char(s.skip(1), c);
        let t = s.skip(1);
        match find_char_spec(t, c) {
            Some(i) => {
                assert(s[i + 1] == t[i]);
                assert(forall|k: int| 0 <= k < i + 1 ==> s[k] != c) by {
                    assert(forall|k: int| 1 <= k < i + 1 ==> s[k] == t[k - 1]);
                }
            },
            None => {
                assert(forall|k: int| 0 <= k < s.len() ==> s[k] != c) by {
                    assert(forall|k: int| 1 <= k < s.len() ==> s[k] == t[k - 1]);
                }
            },
        }
    }
}

/// Finds the first occurrence of `c` in `s`, scanning left to right.
pub fn find_char(s: &str, c: char) -> (r: Option<usize>)
    ensures
        match r {
            Some(i) => find_char_spec(s@, c) == Some(i as int),
            None => find_char_spec(s@, c) is None,
        },
{
    let len = s.unicode_len();
    let mut i: usize = 0;
    while i < len
        invariant
            0 <= i <= len,
            len == s@.len(),
            forall|k: int| 0 <= k < i ==> s@[k] != c,
        decreases len - i,
    {
        if s.get_char(i) == c {
            proof {
                lemma_find_char(s@, c);
                if find_char_spec(s@, c) is None {
                    assert(s@[i as int] != c);
                } else {
                    let j = find_char_spec(s@, c)->Some_0;
                    if j < i {
                        assert(s@[j] != c);
                    } else if j > i {
                        assert(s@[i as int] != c);
                    }
                }
            }
            return Some(i);
        }
        i = i + 1;
    }
    proof {
        lemma_find_char(s@, c);
        if find_char_spec(s@, c) is Some {
            let j = find_char_spec(s@, c)->Some_0;
            assert(s@[j] != c);
        }
    }
    None
}

/// Compares two strings character by character.
pub fn str_eq(a: &str, b: &str) -> (r: bool)
    ensures
        r == (a@ == b@),
{
    let alen = a.unicode_len();
    let blen = b.unicode_len();
    if alen != blen {
        return false;
    }
    let mut i: usize = 0;
    while i < alen
        invariant
            0 <= i <= alen,
            alen == a@.len(),
            alen == b@.len(),
            forall|k: int| 0 <= k < i ==> a@[k] == b@[k],
        decreases alen - i,
    {
        if a.get_char(i) != b.get_char(i) {
            return false;
        }
        i = i + 1;
    }
    proof {
        assert(a@ =~= b@);
    }
    true
}

pub proof fn lemma_digit_char_val(d: int)
    requires
        0 <= d < 10,
    ensures
        digit_val(digit_char(d)) == d,
        is_dec_digit(digit_char(d)),
{
}

/// How `dec_text_val` evaluates once the leading sign (if any) is known:
/// it is the signed value of the digits after the sign, or nothing when a
/// non-digit occurs among them.
pub proof fn lemma_dec_text_cases(s: Seq<char>, start: int)
    requires
        start == 0 || start == 1,
        start == 1 ==> (s[0] == '-' || s[0] == '+'),
        start == 0 && s.len() > 0 ==> !(s[0] == '-' || s[0] == '+'),
        start < s.len(),
    ensures
        all_dec_digits(s.skip(start)) ==> dec_text_val(s) == Some(
            if s[0] == '-' {
                -digits_val(s.skip(start))
            } else {
                digits_val(s.skip(start))
            },
        ),
        !all_dec_digits(s.skip(start)) ==> dec_text_val(s) is None,
{
    let d = s.skip(start);
    if all_dec_digits(s) {
        assert forall|i: int| 0 <= i < d.len() implies is_dec_digit(#[trigger] d[i]) by {
            assert(d[i] == s[i + start]);
        }
        assert(all_dec_digits(d));
    }
    if start == 0 {
        assert(d =~= s);
        if all_dec_digits(d) {
            assert(all_dec_digits(s));
            assert(is_dec_digit(s[0]));
        }
    } else {
        assert(s.len() >= 2);
        if all_dec_digits(d) {
            assert(!all_dec_digits(s)) by {
                if all_dec_digits(s) {
                    assert(is_dec_digit(s[0]));
                }
            }
        }
    }
}

pub proof fn lemma_digits_val_nonneg(s: Seq<char>)
    requires
        all_dec_digits(s),
    ensures
        digits_val(s) >= 0,
    decreases s.len(),
{
    if s.len() > 0 {
        lemma_digits_val_nonneg(s.drop_last());
    }
}

/// Extending a digit string to the right can only grow its value.
pub proof fn lemma_digits_val_take(s: Seq<char>, j: int)
    requires
        all_dec_digits(s),
        0 <= j <= s.len(),
    ensures
        digits_val(s.take(j)) <= digits_val(s),
    decreases s.len(),
{
    if j < s.len() {
        assert(s.take(j) =~= s.drop_last().take(j));
        lemma_digits_val_take(s.drop_last(), j);
        lemma_digits_val_nonneg(s.drop_last());
    } else {
        assert(s.take(j) =~= s);
    }
}

fn dec_val_of(c: char) -> (r: Option<u64>)
    ensures
        match r {
            Some(d) => is_dec_digit(c) && d == digit_val(c),
            None => !is_dec_digit(c),
        },
{
    match c {
        '0' => Some(0),
        '1' => Some(1),
        '2' => Some(2),
        '3' => Some(3),
        '4' => Some(4),
        '5' => Some(5),
        '6' => Some(6),
        '7' => Some(7),
        '8' => Some(8),
        '9' => Some(9),
        _ => None,
    }
}

/// Parses a decimal string as an `i64`, accepting an optional leading sign
/// and leading zeroes, exactly as `parse_i64_result` describes.
pub fn parse_i64(s: &str) -> (r: Option<i64>)
    ensures
        match r {
            Some(v) => parse_i64_result(s@) == Some(v as int),
            None => parse_i64_result(s@) is None,
        },
{
    let len = s.unicode_len();
    if len == 0 {
        return None;
    }
    let first = s.get_char(0);
    let neg = first == '-';
    let start: usize = if first == '-' || first == '+' {
        1
    } else {
        0
    };
    if start == len {
        // A bare sign has no digits.
        return None;
    }
    let ghost d: Seq<char> = s@.skip(start as int);
    let mut i = start;
    let mut acc: u128 = 0;
    while i < len
        invariant
            start <= i <= len,
            len == s@.len(),
            start == 0 || start == 1,
            start == 1 ==> (s@[0] == '-' || s@[0] == '+'),
            start == 0 ==> !(s@[0] == '-' || s@[0] == '+'),
            neg == (s@[0] == '-'),
            start < len,
            d == s@.skip(start as int),
            all_dec_digits(d.take(i - start)),
            acc == digits_val(d.take(i - start)),
            acc <= 0x8000_0000_0000_0000u128,
        decreases len - i,
    {
        let c = s.get_char(i);
        let dv = match dec_val_of(c) {
            Some(dv) => dv,
            None => {
                // A non-digit anywhere after the sign means no value at all.
                proof {
                    assert(d[i - start] == c);
                    assert(!all_dec_digits(d));
                    lemma_dec_text_cases(s@, start as int);
                }
                return None;
            },
        };
        let ghost prev = d.take(i - start);
        acc = acc * 10 + (dv as u128);
        proof {
            assert(d.take(i + 1 - start).drop_last() =~= prev);
            assert(d.take(i + 1 - start).last() == c);
        }
        i = i + 1;
        if acc > 0x8000_0000_0000_0000u128 {
            // The magnitude already exceeds what an i64 can hold, and
            // further digits can only grow it.
            proof {
                lemma_dec_text_cases(s@, start as int);
                if all_dec_digits(d) {
                    lemma_digits_val_take(d, i - start);
                    assert(digits_val(d) >= acc);
                }
            }
            return None;
        }
    }
    proof {
        assert(d.take(i - start) =~= d);
        lemma_dec_text_cases(s@, start as int);
    }
    if neg {
        if acc == 0x8000_0000_0000_0000u128 {
            Some(i64::MIN)
        } else {
            Some(-(acc as i64))
        }
    } else {
        if acc > i64::MAX as u128 {
            return None;
        }
        Some(acc as i64)
    }
}

pub proof fn lemma_dec_digits_wf(n: nat)
    ensures
        dec_digits_of(n).len() >= 1,
        all_dec_digits(dec_digits_of(n)),
        digits_val(dec_digits_of(n)) == n,
    decreases n,
{
    if n < 10 {
        lemma_digit_char_val(n as int);
        let one = seq![digit_char(n as int)];
        assert(one.drop_last() =~= Seq::<char>::empty());
        assert(one.last() == digit_char(n as int));
        assert(digits_val(Seq::<char>::empty()) == 0);
        assert(digits_val(one) == digit_val(digit_char(n as int)));
    } else {
        lemma_digit_char_val((n % 10) as int);
        lemma_dec_digits_wf(n / 10);
        let w = dec_digits_of(n / 10);
        let full = dec_digits_of(n);
        assert(full =~= w.push(digit_char((n % 10) as int)));
        assert(full.drop_last() =~= w);
        assert(forall|i: int| 0 <= i < full.len() ==> is_dec_digit(#[trigger] full[i])) by {
            assert(forall|i: int| 0 <= i < w.len() ==> is_dec_digit(#[trigger] w[i]));
        }
    }
}

/// Rendering an `i64` in decimal and parsing the result yields the value
/// back: the decimal codec round-trips.
pub proof fn lemma_dec_round_trip(v: int)
    requires
        i64::MIN <= v <= i64::MAX,
    ensures
        parse_i64_result(dec_int_of(v)) == Some(v),
{
    if v < 0 {
        let mag = (-v) as nat;
        lemma_dec_digits_wf(mag);
        let s = dec_int_of(v);
        assert(s == seq!['-'] + dec_digits_of(mag));
        assert(s.len() >= 2);
        assert(s[0] == '-');
        assert(s.skip(1) =~= dec_digits_of(mag));
        assert(dec_text_val(s) == Some(-digits_val(dec_digits_of(mag))));
    } else {
        let s = dec_int_of(v);
        lemma_dec_digits_wf(v as nat);
        assert(s[0] == dec_digits_of(v as nat)[0]);
        assert(is_dec_digit(s[0]));
        assert(s[0] != '-' && s[0] != '+');
        if s.len() >= 2 {
            assert(dec_text_val(s) == Some(digits_val(s)));
        }
    }
}

} // verus!
