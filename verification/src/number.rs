//! Decimal integer parsing with the rules of `str::parse::<i64>`.
use vstd::prelude::*;
use crate::text::is_digit;

verus! {

/// Every character is an ASCII digit.
pub open spec fn all_digits(s: Seq<char>) -> bool {
    forall|i: int| 0 <= i < s.len() ==> is_digit(#[trigger] s[i])
}

/// The value of a string of ASCII digits, read in base ten.
pub open spec fn digits_value(s: Seq<char>) -> nat
    decreases s.len(),
{
    if s.len() == 0 {
        0
    } else {
        10 * digits_value(s.drop_last()) + ((s.last() as u32) - ('0' as u32)) as nat
    }
}

/// The integer that `s` spells: an optional `+` or `-`, then one or more
/// ASCII digits and nothing else.
pub open spec fn parse_int(s: Seq<char>) -> Option<int> {
    if s.len() > 0 && (s[0] == '+' || s[0] == '-') {
        let d = s.skip(1);
        if d.len() > 0 && all_digits(d) {
            if s[0] == '-' {
                Some(-(digits_value(d) as int))
            } else {
                Some(digits_value(d) as int)
            }
        } else {
            None
        }
    } else if s.len() > 0 && all_digits(s) {
        Some(digits_value(s) as int)
    } else {
        None
    }
}

/// `s.parse::<i64>().ok()`: the spelled integer when it fits in an `i64`.
pub open spec fn parse_i64_spec(s: Seq<char>) -> Option<i64> {
    match parse_int(s) {
        Some(v) => if i64::MIN <= v <= i64::MAX {
            Some(v as i64)
        } else {
            None
        },
        None => None,
    }
}

proof fn lemma_digits_value_mono(s: Seq<char>, i: int)
    requires
        0 <= i <= s.len(),
        all_digits(s),
    ensures
        digits_value(s.take(i)) <= digits_value(s),
    decreases s.len() - i,
{
    if i < s.len() {
        lemma_digits_value_mono(s, i + 1);
        assert(s.take(i + 1).drop_last() =~= s.take(i));
        assert(is_digit(s[i]));
    } else {
        assert(s.take(i) =~= s);
    }
}

/// Reads the digits `s[from..]` as a magnitude; `None` once it exceeds `2^63`.
fn digits_magnitude(s: &Vec<char>, from: usize) -> (r: Option<u64>)
    requires
        from <= s.len(),
        all_digits(s@.skip(from as int)),
    ensures
        r matches Some(v) ==> v == digits_value(s@.skip(from as int)) && v <= 0x8000_0000_0000_0000,
        r is None ==> digits_value(s@.skip(from as int)) > 0x8000_0000_0000_0000,
{
    let ghost d = s@.skip(from as int);
    let mut acc: u64 = 0;
    let mut i: usize = from;
    assert(d.take(0) =~= Seq::<char>::empty());
    while i < s.len()
        invariant
            from <= i <= s.len(),
            d == s@.skip(from as int),
            all_digits(d),
            acc == digits_value(d.take(i - from)),
            acc <= 0x8000_0000_0000_0000,
        decreases s.len() - i,
    {
        let c = s[i];
        assert(d[i - from] == c);
        assert(is_digit(c));
        let dv: u64 = (c as u32 - '0' as u32) as u64;
        assert(d.take(i - from + 1).drop_last() =~= d.take(i - from));
        if acc > 922_337_203_685_477_580 || (acc == 922_337_203_685_477_580 && dv > 8) {
            proof {
                lemma_digits_value_mono(d, i - from + 1);
            }
            return None;
        }
        acc = acc * 10 + dv;
        i += 1;
    }
    assert(d.take(i - from) =~= d);
    Some(acc)
}

/// Parses a decimal `i64` as `str::parse` does.
pub fn parse_i64(s: &Vec<char>) -> (r: Option<i64>)
    ensures
        r == parse_i64_spec(s@),
{
    if s.len() == 0 {
        return None;
    }
    let signed = s[0] == '+' || s[0] == '-';
    let from: usize = if signed {
        1
    } else {
        0
    };
    if from >= s.len() {
        return None;
    }
    let mut i: usize = from;
    while i < s.len()
        invariant
            from <= i <= s.len(),
            s.len() > 0,
            signed == (s@[0] == '+' || s@[0] == '-'),
            from == (if signed {
                1usize
            } else {
                0usize
            }),
            forall|k: int| from <= k < i ==> is_digit(#[trigger] s@[k]),
        decreases s.len() - i,
    {
        if !(s[i] >= '0' && s[i] <= '9') {
            proof {
                if signed {
                    assert(s@.skip(1)[i - 1] == s@[i as int]);
                    assert(!all_digits(s@.skip(1)));
                } else {
                    assert(!all_digits(s@));
                }
            }
            return None;
        }
        i += 1;
    }
    assert(all_digits(s@.skip(from as int))) by {
        assert forall|k: int| 0 <= k < s@.skip(from as int).len() implies is_digit(
            #[trigger] s@.skip(from as int)[k],
        ) by {
            assert(s@.skip(from as int)[k] == s@[from + k]);
        }
    }
    if !signed {
        assert(s@.skip(0) =~= s@);
    }
    match digits_magnitude(s, from) {
        Some(v) => {
            if s[0] == '-' {
                if v == 0x8000_0000_0000_0000 {
                    Some(i64::MIN)
                } else {
                    Some(-(v as i64))
                }
            } else if v <= 0x7fff_ffff_ffff_ffff {
                Some(v as i64)
            } else {
                None
            }
        },
        None => None,
    }
}

/// Parses a string slice as a decimal `i64`.
pub fn parse_i64_str(s: &str) -> (r: Option<i64>)
    ensures
        r == parse_i64_spec(s@),
{
    let v = crate::text::chars_of(s);
    parse_i64(&v)
}

/// The decimal digits of a natural number, most significant first.
pub open spec fn decimal_digits(n: nat) -> Seq<char>
    decreases n,
{
    if n < 10 {
        seq![(('0' as u32) + n) as char]
    } else {
        decimal_digits(n / 10) + seq![(('0' as u32) + n % 10) as char]
    }
}

/// `i64::to_string`: a minus sign for negative values, then the digits.
pub open spec fn decimal_of(v: int) -> Seq<char> {
    if v < 0 {
        seq!['-'] + decimal_digits((-v) as nat)
    } else {
        decimal_digits(v as nat)
    }
}

/// Formats a `u64` in decimal.
pub fn digits_of_u64(n: u64) -> (r: Vec<char>)
    ensures
        r@ == decimal_digits(n as nat),
    decreases n,
{
    if n < 10 {
        let c = char_of_digit(n);
        let mut v: Vec<char> = Vec::new();
        v.push(c);
        assert(v@ =~= seq![c]);
        v
    } else {
        let mut v = digits_of_u64(n / 10);
        let c = char_of_digit(n % 10);
        v.push(c);
        v
    }
}

fn char_of_digit(d: u64) -> (c: char)
    requires
        d < 10,
    ensures
        c == (('0' as u32) + d) as char,
{
    match d {
        0 => '0',
        1 => '1',
        2 => '2',
        3 => '3',
        4 => '4',
        5 => '5',
        6 => '6',
        7 => '7',
        8 => '8',
        _ => '9',
    }
}

/// Formats an `i64` in decimal.
pub fn format_i64(v: i64) -> (r: Vec<char>)
    ensures
        r@ == decimal_of(v as int),
{
    if v < 0 {
        let m: u64 = if v == i64::MIN {
            0x8000_0000_0000_0000u64
        } else {
            (-v) as u64
        };
        let d = digits_of_u64(m);
        let mut out: Vec<char> = Vec::new();
        out.push('-');
        crate::text::append(&mut out, &d);
        assert(out@ =~= seq!['-'] + d@);
        out
    } else {
        digits_of_u64(v as u64)
    }
}

} // verus!
