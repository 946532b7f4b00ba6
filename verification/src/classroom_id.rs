//! Classroom identifier: a 128-bit value with the canonical hyphenated
//! UUID text form (8-4-4-4-12 hexadecimal digits, rendered in lower case,
//! parsed in either case).
use vstd::prelude::*;

verus! {

/// A 128-bit classroom identifier.
#[derive(Debug, Clone, Copy, PartialEq, Eq, Structural)]
pub struct ClassroomId {
    pub value: u128,
}

pub open spec fn is_hex_digit(c: char) -> bool {
    crate::text::is_dec_digit(c) || c == 'a' || c == 'b' || c == 'c' || c == 'd' || c == 'e'
        || c == 'f' || c == 'A' || c == 'B' || c == 'C' || c == 'D' || c == 'E' || c == 'F'
}

/// Lower-case hexadecimal digit characters.
pub open spec fn hex_char(d: int) -> char {
    if d < 10 {
        crate::text::digit_char(d)
    } else if d == 10 {
        'a'
    } else if d == 11 {
        'b'
    } else if d == 12 {
        'c'
    } else if d == 13 {
        'd'
    } else if d == 14 {
        'e'
    } else {
        'f'
    }
}

pub open spec fn hex_val(c: char) -> int {
    if c == 'a' || c == 'A' {
        10
    } else if c == 'b' || c == 'B' {
        11
    } else if c == 'c' || c == 'C' {
        12
    } else if c == 'd' || c == 'D' {
        13
    } else if c == 'e' || c == 'E' {
        14
    } else if c == 'f' || c == 'F' {
        15
    } else {
        crate::text::digit_val(c)
    }
}

/// The low `w` hexadecimal digits of `v`, most significant first.
pub open spec fn hex_fixed(v: nat, w: nat) -> Seq<char>
    decreases w,
{
    if w == 0 {
        Seq::<char>::empty()
    } else {
        hex_fixed(v / 16, (w - 1) as nat).push(hex_char((v % 16) as int))
    }
}

/// Value of a sequence of hexadecimal digits, most significant first.
pub open spec fn hex_digits_val(s: Seq<char>) -> int
    decreases s.len(),
{
    if s.len() == 0 {
        0
    } else {
        hex_digits_val(s.drop_last()) * 16 + hex_val(s.last())
    }
}

pub open spec fn pow16(w: nat) -> int
    decreases w,
{
    if w == 0 {
        1
    } else {
        16 * pow16((w - 1) as nat)
    }
}

/// Canonical text of a classroom id: five dash-separated groups of 8, 4, 4,
/// 4 and 12 hexadecimal digits.
pub open spec fn uuid_text_of(v: int) -> Seq<char> {
    let g1 = v / 0x1000000000000000000000000;
    let r1 = v % 0x1000000000000000000000000;
    let g2 = r1 / 0x100000000000000000000;
    let r2 = r1 % 0x100000000000000000000;
    let g3 = r2 / 0x10000000000000000;
    let r3 = r2 % 0x10000000000000000;
    let g4 = r3 / 0x1000000000000;
    let g5 = r3 % 0x1000000000000;
    hex_fixed(g1 as nat, 8) + seq!['-'] + hex_fixed(g2 as nat, 4) + seq!['-'] + hex_fixed(
        g3 as nat,
        4,
    ) + seq!['-'] + hex_fixed(g4 as nat, 4) + seq!['-'] + hex_fixed(g5 as nat, 12)
}

/// Shape of a canonical classroom id text: 36 characters, dashes exactly at
/// positions 8, 13, 18 and 23, hexadecimal digits everywhere else.
pub open spec fn valid_uuid_text(s: Seq<char>) -> bool {
    &&& s.len() == 36
    &&& s[8] == '-'
    &&& s[13] == '-'
    &&& s[18] == '-'
    &&& s[23] == '-'
    &&& forall|i: int|
        0 <= i < 36 && i != 8 && i != 13 && i != 18 && i != 23 ==> is_hex_digit(#[trigger] s[i])
}

/// The value a canonical classroom id text denotes, if it is one.
pub open spec fn uuid_parse_spec(s: Seq<char>) -> Option<int> {
    if valid_uuid_text(s) {
        Some(
            hex_digits_val(s.subrange(0, 8)) * 0x1000000000000000000000000 + hex_digits_val(
                s.subrange(9, 13),
            ) * 0x100000000000000000000 + hex_digits_val(s.subrange(14, 18))
                * 0x10000000000000000 + hex_digits_val(s.subrange(19, 23)) * 0x1000000000000
                + hex_digits_val(s.subrange(24, 36)),
        )
    } else {
        None
    }
}

fn hex_digit_out(d: u64) -> (c: char)
    requires
        d < 16,
    ensures
        c == hex_char(d as int),
{
    match d {
        0 => '0',
        1 => '1',
        2 => '2',
        3 => '3',
        4 => '4',
        5 => '5',
        6 => '6',
        7 => '7',
        8 => '8',
        9 => '9',
        10 => 'a',
        11 => 'b',
        12 => 'c',
        13 => 'd',
        14 => 'e',
        _ => 'f',
    }
}

fn hex_digit_in(c: char) -> (r: Option<u64>)
    ensures
        match r {
            Some(d) => is_hex_digit(c) && d == hex_val(c) && d < 16,
            None => !is_hex_digit(c),
        },
{
    match c {
        '0' => Some(0),
        '1' => Some(1),
        '2' => Some(2),
        '3' => Some(3),
        '4' => Some(4),
        '5' => Some(5),
        '6' => Some(6),
        '7' => Some(7),
        '8' => Some(8),
        '9' => Some(9),
        'a' | 'A' => Some(10),
        'b' | 'B' => Some(11),
        'c' | 'C' => Some(12),
        'd' | 'D' => Some(13),
        'e' | 'E' => Some(14),
        'f' | 'F' => Some(15),
        _ => None,
    }
}

fn push_hex_fixed(s: &mut String, v: u64, w: usize)
    ensures
        final(s)@ == old(s)@ + hex_fixed(v as nat, w as nat),
    decreases w,
{
    if w == 0 {
        proof {
            assert(final(s)@ =~= old(s)@ + hex_fixed(v as nat, 0));
        }
    } else {
        push_hex_fixed(s, v / 16, w - 1);
        let c = hex_digit_out(v % 16);
        s.push(c);
        proof {
            assert(final(s)@ =~= old(s)@ + hex_fixed(v as nat, w as nat));
        }
    }
}

pub proof fn lemma_pow16_pos(w: nat)
    ensures
        pow16(w) >= 1,
    decreases w,
{
    if w > 0 {
        lemma_pow16_pos((w - 1) as nat);
    }
}

pub proof fn lemma_pow16_le(a: nat, b: nat)
    requires
        a <= b,
    ensures
        pow16(a) <= pow16(b),
    decreases b,
{
    if a < b {
        lemma_pow16_le(a, (b - 1) as nat);
        lemma_pow16_pos((b - 1) as nat);
    }
}

pub proof fn lemma_hex_char_val(d: int)
    requires
        0 <= d < 16,
    ensures
        hex_val(hex_char(d)) == d,
        is_hex_digit(hex_char(d)),
{
}

/// A fixed-width hexadecimal rendering has that width, holds only
/// hexadecimal digits, and denotes the rendered value when it fits.
pub proof fn lemma_hex_fixed_wf(v: nat, w: nat)
    ensures
        hex_fixed(v, w).len() == w,
        forall|i: int| 0 <= i < w ==> is_hex_digit(#[trigger] hex_fixed(v, w)[i]),
        v < pow16(w) ==> hex_digits_val(hex_fixed(v, w)) == v,
    decreases w,
{
    if w > 0 {
        lemma_hex_fixed_wf(v / 16, (w - 1) as nat);
        lemma_hex_char_val((v % 16) as int);
        let inner = hex_fixed(v / 16, (w - 1) as nat);
        let full = hex_fixed(v, w);
        assert(full == inner.push(hex_char((v % 16) as int)));
        assert(full.drop_last() =~= inner);
        assert(forall|i: int| 0 <= i < w ==> is_hex_digit(#[trigger] full[i])) by {
            assert(forall|i: int| 0 <= i < w - 1 ==> full[i] == inner[i]);
        }
        if v < pow16(w) {
            assert(v / 16 < pow16((w - 1) as nat));
            assert(hex_digits_val(full) == hex_digits_val(inner) * 16 + (v % 16));
        }
    }
}

fn parse_hex_group(s: &str, start: usize, w: usize) -> (r: Option<u64>)
    requires
        start + w <= s@.len(),
        start <= 24,
        w <= 12,
    ensures
        match r {
            Some(g) => (forall|i: int| start <= i < start + w ==> is_hex_digit(#[trigger] s@[i]))
                && g == hex_digits_val(s@.subrange(start as int, (start + w) as int)) && g < pow16(
                w as nat,
            ),
            None => !(forall|i: int|
                start <= i < start + w ==> is_hex_digit(#[trigger] s@[i])),
        },
{
    let mut j: usize = 0;
    let mut acc: u64 = 0;
    while j < w
        invariant
            0 <= j <= w,
            w <= 12,
            start <= 24,
            start + w <= s@.len(),
            forall|i: int| start <= i < start + j ==> is_hex_digit(#[trigger] s@[i]),
            acc == hex_digits_val(s@.subrange(start as int, (start + j) as int)),
            acc < pow16(j as nat),
        decreases w - j,
    {
        let c = s.get_char(start + j);
        let d = match hex_digit_in(c) {
            Some(d) => d,
            None => {
                proof {
                    assert(!is_hex_digit(s@[(start + j) as int]));
                }
                return None;
            },
        };
        proof {
            assert(pow16((j + 1) as nat) == 16 * pow16(j as nat));
            lemma_pow16_le((j + 1) as nat, 12);
            assert(pow16(12) == 0x1000000000000) by {
                reveal_with_fuel(pow16, 13);
            }
            let prev = s@.subrange(start as int, (start + j) as int);
            let next = s@.subrange(start as int, (start + j + 1) as int);
            assert(next.drop_last() =~= prev);
            assert(next.last() == s@[(start + j) as int]);
        }
        acc = acc * 16 + d;
        j = j + 1;
    }
    proof {
        assert(s@.subrange(start as int, (start + j) as int) =~= s@.subrange(
            start as int,
            (start + w) as int,
        ));
    }
    Some(acc)
}

impl ClassroomId {
    pub fn new(value: u128) -> (r: ClassroomId)
        ensures
            r.value == value,
    {
        ClassroomId { value }
    }

    /// Renders the canonical lower-case hyphenated text.
    pub fn to_string(&self) -> (r: String)
        ensures
            r@ == uuid_text_of(self.value as int),
    {
        let v = self.value;
        let g1 = (v / 0x1000000000000000000000000u128) as u64;
        let r1 = v % 0x1000000000000000000000000u128;
        let g2 = (r1 / 0x100000000000000000000u128) as u64;
        let r2 = r1 % 0x100000000000000000000u128;
        let g3 = (r2 / 0x10000000000000000u128) as u64;
        let r3 = r2 % 0x10000000000000000u128;
        let g4 = (r3 / 0x1000000000000u128) as u64;
        let g5 = (r3 % 0x1000000000000u128) as u64;
        let mut s = String::new();
        push_hex_fixed(&mut s, g1, 8);
        s.push('-');
        push_hex_fixed(&mut s, g2, 4);
        s.push('-');
        push_hex_fixed(&mut s, g3, 4);
        s.push('-');
        push_hex_fixed(&mut s, g4, 4);
        s.push('-');
        push_hex_fixed(&mut s, g5, 12);
        proof {
            assert(s@ =~= uuid_text_of(self.value as int));
        }
        s
    }

    /// Parses the canonical hyphenated text, accepting hexadecimal digits
    /// in either case.
    pub fn parse(s: &str) -> (r: Option<ClassroomId>)
        ensures
            match r {
                Some(c) => uuid_parse_spec(s@) == Some(c.value as int),
                None => uuid_parse_spec(s@) is None,
            },
    {
        let len = s.unicode_len();
        if len != 36 {
            return None;
        }
        if s.get_char(8) != '-' || s.get_char(13) != '-' || s.get_char(18) != '-' || s.get_char(23)
            != '-' {
            return None;
        }
        let g1 = match parse_hex_group(s, 0, 8) {
            Some(g) => g,
            None => {
                proof {
                    lemma_group_in_valid(s@, 0, 8);
                }
                return None;
            },
        };
        let g2 = match parse_hex_group(s, 9, 4) {
            Some(g) => g,
            None => {
                proof {
                    lemma_group_in_valid(s@, 9, 4);
                }
                return None;
            },
        };
        let g3 = match parse_hex_group(s, 14, 4) {
            Some(g) => g,
            None => {
                proof {
                    lemma_group_in_valid(s@, 14, 4);
                }
                return None;
            },
        };
        let g4 = match parse_hex_group(s, 19, 4) {
            Some(g) => g,
            None => {
                proof {
                    lemma_group_in_valid(s@, 19, 4);
                }
                return None;
            },
        };
        let g5 = match parse_hex_group(s, 24, 12) {
            Some(g) => g,
            None => {
                proof {
                    lemma_group_in_valid(s@, 24, 12);
                }
                return None;
            },
        };
        proof {
            assert(pow16(8) == 0x100000000 && pow16(4) == 0x10000 && pow16(12)
                == 0x1000000000000) by {
                reveal_with_fuel(pow16, 13);
            }
            assert(valid_uuid_text(s@)) by {
                assert forall|i: int|
                    0 <= i < 36 && i != 8 && i != 13 && i != 18 && i != 23 implies is_hex_digit(
                    #[trigger] s@[i],
                ) by {}
            }
        }
        let v: u128 = (g1 as u128) * 0x1000000000000000000000000u128 + (g2 as u128)
            * 0x100000000000000000000u128 + (g3 as u128) * 0x10000000000000000u128 + (g4 as u128)
            * 0x1000000000000u128 + (g5 as u128);
        Some(ClassroomId { value: v })
    }
}

/// Inside a canonical classroom id text, every group position holds a
/// hexadecimal digit.
proof fn lemma_group_in_valid(s: Seq<char>, start: int, w: int)
    requires
        0 <= start,
        start + w <= 8 || (9 <= start && start + w <= 13) || (14 <= start && start + w <= 18) || (
        19 <= start && start + w <= 23) || (24 <= start && start + w <= 36),
    ensures
        valid_uuid_text(s) ==> forall|i: int|
            start <= i < start + w ==> is_hex_digit(#[trigger] s[i]),
{
    if valid_uuid_text(s) {
        assert forall|i: int| start <= i < start + w implies is_hex_digit(#[trigger] s[i]) by {
            assert(i != 8 && i != 13 && i != 18 && i != 23);
        }
    }
}

/// Round trip: parsing the canonical text of a classroom id gives the
/// value back.
pub proof fn lemma_uuid_round_trip(v: int)
    requires
        0 <= v <= u128::MAX,
    ensures
        uuid_parse_spec(uuid_text_of(v)) == Some(v),
{
    let c96 = 0x1000000000000000000000000;
    let c80 = 0x100000000000000000000;
    let c64 = 0x10000000000000000;
    let c48 = 0x1000000000000;
    let g1 = v / c96;
    let r1 = v % c96;
    let g2 = r1 / c80;
    let r2 = r1 % c80;
    let g3 = r2 / c64;
    let r3 = r2 % c64;
    let g4 = r3 / c48;
    let g5 = r3 % c48;
    assert(pow16(8) == 0x100000000 && pow16(4) == 0x10000 && pow16(12) == 0x1000000000000) by {
        reveal_with_fuel(pow16, 13);
    }
    let a = hex_fixed(g1 as nat, 8);
    let b = hex_fixed(g2 as nat, 4);
    let c = hex_fixed(g3 as nat, 4);
    let d = hex_fixed(g4 as nat, 4);
    let e = hex_fixed(g5 as nat, 12);
    lemma_hex_fixed_wf(g1 as nat, 8);
    lemma_hex_fixed_wf(g2 as nat, 4);
    lemma_hex_fixed_wf(g3 as nat, 4);
    lemma_hex_fixed_wf(g4 as nat, 4);
    lemma_hex_fixed_wf(g5 as nat, 12);
    let s = uuid_text_of(v);
    assert(s == a + seq!['-'] + b + seq!['-'] + c + seq!['-'] + d + seq!['-'] + e);
    assert(s.len() == 36);
    assert(s[8] == '-' && s[13] == '-' && s[18] == '-' && s[23] == '-');
    assert(s.subrange(0, 8) =~= a);
    assert(s.subrange(9, 13) =~= b);
    assert(s.subrange(14, 18) =~= c);
    assert(s.subrange(19, 23) =~= d);
    assert(s.subrange(24, 36) =~= e);
    assert(valid_uuid_text(s)) by {
        assert forall|i: int|
            0 <= i < 36 && i != 8 && i != 13 && i != 18 && i != 23 implies is_hex_digit(
            #[trigger] s[i],
        ) by {
            if i < 8 {
                assert(s[i] == a[i]);
            } else if i < 13 {
                assert(s[i] == b[i - 9]);
            } else if i < 18 {
                assert(s[i] == c[i - 14]);
            } else if i < 23 {
                assert(s[i] == d[i - 19]);
            } else {
                assert(s[i] == e[i - 24]);
            }
        }
    }
    assert(g1 < pow16(8) && g2 < pow16(4) && g3 < pow16(4) && g4 < pow16(4) && g5 < pow16(12));
    assert(uuid_parse_spec(s) == Some(g1 * c96 + g2 * c80 + g3 * c64 + g4 * c48 + g5));
    assert(g1 * c96 + g2 * c80 + g3 * c64 + g4 * c48 + g5 == v);
}

} // verus!
