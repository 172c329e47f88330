use vstd::prelude::*;

verus! {

#[verifier::external_type_specification]
#[verifier::external_body]
pub struct ExParseIntError(core::num::ParseIntError);

pub open spec fn is_digit(c: char) -> bool {
    '0' <= c && c <= '9'
}

/// `d` is a non-empty run of decimal digits.
pub open spec fn all_digits(d: Seq<char>) -> bool {
    d.len() > 0 && forall|i: int| 0 <= i < d.len() ==> is_digit(#[trigger] d[i])
}

/// The number that the decimal digits `d` write.
pub open spec fn digits_value(d: Seq<char>) -> nat
    decreases d.len(),
{
    if d.len() == 0 {
        0
    } else {
        digits_value(d.drop_last()) * 10 + ((d.last() as u32) - ('0' as u32)) as nat
    }
}

/// `t` without one leading `+`.
pub open spec fn unsigned_digits(t: Seq<char>) -> Seq<char> {
    if t.len() > 0 && t[0] == '+' {
        t.drop_first()
    } else {
        t
    }
}

/// `t` writes an unsigned integer of at most `max`: an optional `+`, then decimal digits.
pub open spec fn is_unsigned(t: Seq<char>, max: int) -> bool {
    all_digits(unsigned_digits(t)) && digits_value(unsigned_digits(t)) <= max
}

pub open spec fn unsigned_value(t: Seq<char>) -> nat {
    digits_value(unsigned_digits(t))
}

/// Relies on `usize::from_str` (through `str::parse`): an optional `+` and decimal digits,
/// accepted when their value fits.
#[verifier::external_body]
pub(crate) fn parse_usize(t: &str) -> (r: Result<usize, core::num::ParseIntError>)
    ensures
        match r {
            Ok(v) => is_unsigned(t@, usize::MAX as int) && v as nat == unsigned_value(t@),
            Err(_) => !is_unsigned(t@, usize::MAX as int),
        },
{
    t.parse::<usize>()
}

/// Relies on `u32::from_str` (through `str::parse`): an optional `+` and decimal digits,
/// accepted when their value fits.
#[verifier::external_body]
pub(crate) fn parse_u32(t: &str) -> (r: Result<u32, core::num::ParseIntError>)
    ensures
        match r {
            Ok(v) => is_unsigned(t@, u32::MAX as int) && v as nat == unsigned_value(t@),
            Err(_) => !is_unsigned(t@, u32::MAX as int),
        },
{
    t.parse::<u32>()
}

/// Relies on `u16::from_str` (through `str::parse`): an optional `+` and decimal digits,
/// accepted when their value fits.
#[verifier::external_body]
pub(crate) fn parse_u16(t: &str) -> (r: Result<u16, core::num::ParseIntError>)
    ensures
        match r {
            Ok(v) => is_unsigned(t@, u16::MAX as int) && v as nat == unsigned_value(t@),
            Err(_) => !is_unsigned(t@, u16::MAX as int),
        },
{
    t.parse::<u16>()
}

/// Relies on `u8::from_str` (through `str::parse`): an optional `+` and decimal digits,
/// accepted when their value fits.
#[verifier::external_body]
pub(crate) fn parse_u8(t: &str) -> (r: Result<u8, core::num::ParseIntError>)
    ensures
        match r {
            Ok(v) => is_unsigned(t@, u8::MAX as int) && v as nat == unsigned_value(t@),
            Err(_) => !is_unsigned(t@, u8::MAX as int),
        },
{
    t.parse::<u8>()
}

/// `t` without one leading sign.
pub open spec fn drop_sign(t: Seq<char>) -> Seq<char> {
    if t.len() > 0 && (t[0] == '+' || t[0] == '-') {
        t.drop_first()
    } else {
        t
    }
}

pub open spec fn is_e(c: char) -> bool {
    c == 'e' || c == 'E'
}

/// Digits with at most one `.` among them, and at least one digit.
pub open spec fn is_mantissa(m: Seq<char>) -> bool {
    &&& forall|i: int| 0 <= i < m.len() ==> is_digit(#[trigger] m[i]) || m[i] == '.'
    &&& exists|i: int| 0 <= i < m.len() && is_digit(#[trigger] m[i])
    &&& forall|i: int, j: int|
        0 <= i < m.len() && 0 <= j < m.len() && #[trigger] m[i] == '.' && #[trigger] m[j] == '.'
            ==> i == j
}

/// A mantissa, then optionally `e` or `E`, an optional sign and decimal digits.
pub open spec fn is_decimal(u: Seq<char>) -> bool {
    ||| is_mantissa(u)
    ||| exists|k: int|
        0 <= k < u.len() && is_e(#[trigger] u[k]) && is_mantissa(u.take(k)) && all_digits(
            drop_sign(u.skip(k + 1)),
        )
}

/// `u` spells the lower-case ASCII word `w`, with any of its letters in upper case.
pub open spec fn spells(u: Seq<char>, w: Seq<char>) -> bool {
    u.len() == w.len() && forall|i: int|
        0 <= i < u.len() ==> #[trigger] u[i] == w[i] || (u[i] as u32) + 32 == (w[i] as u32)
}

/// `t` is a floating-point number as Rust's `f32::from_str` documents its grammar: an
/// optional sign, then a decimal number or one of `inf`, `infinity` and `nan` in any case.
pub open spec fn is_float(t: Seq<char>) -> bool {
    let u = drop_sign(t);
    ||| is_decimal(u)
    ||| spells(u, seq!['i', 'n', 'f'])
    ||| spells(u, seq!['i', 'n', 'f', 'i', 'n', 'i', 't', 'y'])
    ||| spells(u, seq!['n', 'a', 'n'])
}

fn is_digit_char(c: char) -> (r: bool)
    ensures
        r == is_digit(c),
{
    '0' <= c && c <= '9'
}

/// Whether `t[from..to]` is a non-empty run of decimal digits after one optional sign.
fn digits_after_sign(t: &Vec<char>, from: usize, to: usize) -> (r: bool)
    requires
        from <= to <= t.len(),
    ensures
        r == all_digits(drop_sign(t@.subrange(from as int, to as int))),
{
    let ghost s = t@.subrange(from as int, to as int);
    let mut i: usize = from;
    if from < to && (t[from] == '+' || t[from] == '-') {
        i = from + 1;
        assert(drop_sign(s) =~= t@.subrange(i as int, to as int));
    } else {
        assert(drop_sign(s) =~= t@.subrange(i as int, to as int));
    }
    if i == to {
        assert(drop_sign(s).len() == 0);
        return false;
    }
    let start = i;
    while i < to
        invariant
            from <= start <= i <= to <= t.len(),
            s == t@.subrange(from as int, to as int),
            drop_sign(s) =~= t@.subrange(start as int, to as int),
            forall|j: int| start <= j < i ==> is_digit(#[trigger] t@[j]),
        decreases to - i,
    {
        if !is_digit_char(t[i]) {
            assert(drop_sign(s)[i - start] == t@[i as int]);
            return false;
        }
        i = i + 1;
    }
    assert forall|j: int| 0 <= j < drop_sign(s).len() implies is_digit(#[trigger] drop_sign(s)[j]) by {
        assert(drop_sign(s)[j] == t@[start + j]);
    }
    true
}

/// Whether `t[from..to]` is a mantissa.
fn mantissa_range(t: &Vec<char>, from: usize, to: usize) -> (r: bool)
    requires
        from <= to <= t.len(),
    ensures
        r == is_mantissa(t@.subrange(from as int, to as int)),
{
    let ghost m = t@.subrange(from as int, to as int);
    let mut dot: Option<usize> = None;
    let mut digit = false;
    let mut i: usize = 0;
    while i < to - from
        invariant
            from <= to <= t.len(),
            i <= to - from,
            m == t@.subrange(from as int, to as int),
            forall|j: int| 0 <= j < i ==> is_digit(#[trigger] m[j]) || m[j] == '.',
            digit <==> exists|j: int| 0 <= j < i && is_digit(#[trigger] m[j]),
            match dot {
                None => forall|j: int| 0 <= j < i ==> #[trigger] m[j] != '.',
                Some(d) => d < i && m[d as int] == '.' && forall|j: int|
                    0 <= j < i && #[trigger] m[j] == '.' ==> j == d,
            },
        decreases to - from - i,
    {
        let c = t[from + i];
        assert(m[i as int] == c);
        if is_digit_char(c) {
            digit = true;
        } else if c == '.' {
            if dot.is_some() {
                assert(m[dot.unwrap() as int] == '.' && m[i as int] == '.');
                return false;
            }
            dot = Some(i);
        } else {
            assert(!(is_digit(m[i as int]) || m[i as int] == '.'));
            return false;
        }
        i = i + 1;
    }
    digit
}

/// Whether `t[from..]` spells the lower-case ASCII word `w` in any case.
fn spells_from(t: &Vec<char>, from: usize, w: &Vec<char>) -> (r: bool)
    requires
        from <= t.len(),
        forall|i: int| 0 <= i < w.len() ==> 'a' <= #[trigger] w@[i] && w@[i] <= 'z',
    ensures
        r == spells(t@.skip(from as int), w@),
{
    if t.len() - from != w.len() {
        return false;
    }
    let mut i: usize = 0;
    while i < w.len()
        invariant
            i <= w.len() == t.len() - from,
            forall|j: int| 0 <= j < w.len() ==> 'a' <= #[trigger] w@[j] && w@[j] <= 'z',
            forall|j: int|
                0 <= j < i ==> #[trigger] t@[from + j] == w@[j] || (t@[from + j] as u32) + 32
                    == (w@[j] as u32),
        decreases w.len() - i,
    {
        let c = t[from + i];
        let l = w[i];
        if !(c == l || (c as u32) == (l as u32) - 32) {
            assert(t@.skip(from as int)[i as int] == c);
            return false;
        }
        i = i + 1;
    }
    assert forall|j: int| 0 <= j < w.len() implies #[trigger] t@.skip(from as int)[j] == w@[j] || (
    t@.skip(from as int)[j] as u32) + 32 == (w@[j] as u32) by {
        assert(t@.skip(from as int)[j] == t@[from + j]);
    }
    true
}

/// Whether `t` is a floating-point number in the grammar of `f32::from_str`.
pub fn is_float_chars(t: &Vec<char>) -> (r: bool)
    ensures
        r == is_float(t@),
{
    let from: usize = if t.len() > 0 && (t[0] == '+' || t[0] == '-') {
        1
    } else {
        0
    };
    let ghost u = drop_sign(t@);
    assert(u =~= t@.skip(from as int));
    let inf = vec!['i', 'n', 'f'];
    let infinity = vec!['i', 'n', 'f', 'i', 'n', 'i', 't', 'y'];
    let nan = vec!['n', 'a', 'n'];
    assert(inf@ =~= seq!['i', 'n', 'f']);
    assert(infinity@ =~= seq!['i', 'n', 'f', 'i', 'n', 'i', 't', 'y']);
    assert(nan@ =~= seq!['n', 'a', 'n']);
    if spells_from(t, from, &inf) || spells_from(t, from, &infinity) || spells_from(t, from, &nan) {
        return true;
    }
    // the first `e` or `E`, if any, ends the mantissa
    let mut k: usize = from;
    while k < t.len() && !(t[k] == 'e' || t[k] == 'E')
        invariant
            from <= k <= t.len(),
            forall|j: int| from <= j < k ==> !is_e(#[trigger] t@[j]),
        decreases t.len() - k,
    {
        k = k + 1;
    }
    if k == t.len() {
        assert(t@.subrange(from as int, k as int) =~= u);
        assert forall|k2: int| 0 <= k2 < u.len() implies !is_e(#[trigger] u[k2]) by {
            assert(u[k2] == t@[from + k2]);
        }
        mantissa_range(t, from, k)
    } else {
        let ghost e = k - from;
        assert(t@.subrange(from as int, k as int) =~= u.take(e));
        assert(t@.subrange(k + 1, t.len() as int) =~= u.skip(e + 1));
        assert(u[e] == t@[k as int]);
        assert(!is_mantissa(u)) by {
            assert(!(is_digit(u[e]) || u[e] == '.'));
        }
        assert forall|k2: int|
            0 <= k2 < u.len() && is_e(#[trigger] u[k2]) && is_mantissa(u.take(k2)) implies k2
            == e by {
            if k2 < e {
                assert(u[k2] == t@[from + k2]);
            } else if k2 > e {
                assert(u.take(k2)[e] == u[e]);
                assert(!(is_digit(u.take(k2)[e]) || u.take(k2)[e] == '.'));
            }
        }
        mantissa_range(t, from, k) && digits_after_sign(t, k + 1, t.len())
    }
}

} // verus!
