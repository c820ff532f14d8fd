//! Numbers in decimal notation.

use crate::text::{from_range, is_digit, split_once, splitted_once, to_chars};
use vstd::prelude::*;

verus! {

pub open spec fn digit_char(d: nat) -> char {
    ((('0' as u8) + d) as u8) as char
}

pub open spec fn digit_value(c: char) -> nat {
    ((c as u8) - ('0' as u8)) as nat
}

/// A natural number in decimal digits, without leading zeros.
pub open spec fn digits(n: nat) -> Seq<char>
    decreases n,
{
    if n < 10 {
        seq![digit_char(n)]
    } else {
        digits(n / 10).push(digit_char(n % 10))
    }
}

/// An integer in decimal notation.
pub open spec fn decimal(n: int) -> Seq<char> {
    if n < 0 {
        seq!['-'] + digits((-n) as nat)
    } else {
        digits(n as nat)
    }
}

/// The number that a text of digits stands for.
pub open spec fn digits_value(s: Seq<char>) -> nat
    decreases s.len(),
{
    if s.len() == 0 {
        0
    } else {
        10 * digits_value(s.drop_last()) + digit_value(s.last())
    }
}

pub open spec fn all_digits(s: Seq<char>) -> bool {
    forall|i: int| 0 <= i < s.len() ==> is_digit(#[trigger] s[i])
}

/// The number that a text stands for: digits, at least one.
pub open spec fn natural(s: Seq<char>) -> Option<nat> {
    if s.len() > 0 && all_digits(s) {
        Some(digits_value(s))
    } else {
        None
    }
}

/// The number that a text stands for: digits, behind a plus or not.
pub open spec fn unsigned(s: Seq<char>) -> Option<int> {
    let rest = if s.len() > 0 && s[0] == '+' {
        s.drop_first()
    } else {
        s
    };
    match natural(rest) {
        Some(n) => Some(n as int),
        None => None,
    }
}

/// The number that a text stands for: digits, behind a sign or not.
pub open spec fn signed(s: Seq<char>) -> Option<int> {
    if s.len() > 0 && s[0] == '-' {
        match natural(s.drop_first()) {
            Some(n) => Some(-(n as int)),
            None => None,
        }
    } else {
        unsigned(s)
    }
}

pub proof fn digits_are_digits(n: nat)
    ensures
        digits(n).len() > 0,
        all_digits(digits(n)),
        digits_value(digits(n)) == n,
    decreases n,
{
    let d = n % 10;
    assert(digit_char(d) >= '0' && digit_char(d) <= '9');
    assert(digit_value(digit_char(d)) == d);
    if n >= 10 {
        digits_are_digits(n / 10);
        let s = digits(n);
        assert(s.drop_last() =~= digits(n / 10));
        assert(s.last() == digit_char(d));
    } else {
        let s = digits(n);
        assert(s.drop_last() =~= Seq::<char>::empty());
        assert(digits_value(s.drop_last()) == 0);
    }
}

/// Reading back a number in decimal notation gives the number.
pub proof fn decimal_reads_back(n: int)
    ensures
        signed(decimal(n)) == Some(n),
{
    if n < 0 {
        let m = (-n) as nat;
        digits_are_digits(m);
        assert(decimal(n).drop_first() =~= digits(m));
    } else {
        let s = digits(n as nat);
        digits_are_digits(n as nat);
        assert(is_digit(s[0]));
    }
}

fn digits_of(n: u128) -> (s: String)
    ensures
        s@ == digits(n as nat),
    decreases n,
{
    let d: u8 = (n % 10) as u8;
    let c = (48u8 + d) as char;
    if n < 10 {
        let mut s = String::new();
        s.push(c);
        assert(s@ =~= digits(n as nat));
        s
    } else {
        let mut s = digits_of(n / 10);
        s.push(c);
        s
    }
}

/// An integer in decimal notation.
pub fn decimal_of(n: i128) -> (s: String)
    ensures
        s@ == decimal(n as int),
{
    if n < 0 {
        let m: u128 = (-(n + 1)) as u128 + 1;
        let mut s = String::new();
        s.push('-');
        let s = s.concat(digits_of(m).as_str());
        assert(s@ =~= decimal(n as int));
        s
    } else {
        digits_of(n as u128)
    }
}

/// The number that the characters from `from` on stand for, up to `max`.
fn natural_of(chars: &Vec<char>, from: usize, max: u64) -> (r: Option<u64>)
    requires
        from <= chars.len(),
    ensures
        r == match natural(chars@.skip(from as int)) {
            Some(n) => if n <= max {
                Some(n as u64)
            } else {
                None
            },
            None => None,
        },
{
    let ghost s = chars@.skip(from as int);
    if from == chars.len() {
        return None;
    }
    let mut acc: u128 = 0;
    let mut big = false;
    let mut i: usize = from;
    assert(s.take(0) =~= Seq::<char>::empty());
    while i < chars.len()
        invariant
            from <= i <= chars.len(),
            s == chars@.skip(from as int),
            all_digits(s.take(i - from)),
            !big ==> acc == digits_value(s.take(i - from)) && acc <= max,
            big ==> digits_value(s.take(i - from)) > max,
        decreases chars.len() - i,
    {
        let c = chars[i];
        let ghost next = s.take(i - from + 1);
        assert(next.drop_last() =~= s.take(i - from));
        assert(next.last() == c);
        if c < '0' || c > '9' {
            assert(!is_digit(s[i - from]));
            return None;
        }
        let d: u128 = (c as u8 - 48) as u128;
        if !big {
            acc = acc * 10 + d;
            if acc > max as u128 {
                big = true;
            }
        }
        i += 1;
    }
    assert(s.take(i - from) =~= s);
    if big {
        None
    } else {
        Some(acc as u64)
    }
}

/// `str::parse::<u64>`
pub fn parse_u64(s: &str) -> (r: Option<u64>)
    ensures
        r == match unsigned(s@) {
            Some(n) => if n <= u64::MAX {
                Some(n as u64)
            } else {
                None
            },
            None => None,
        },
{
    let chars = to_chars(s);
    if chars.len() > 0 && chars[0] == '+' {
        assert(chars@.skip(1) =~= s@.drop_first());
        natural_of(&chars, 1, u64::MAX)
    } else {
        assert(chars@.skip(0) =~= s@);
        natural_of(&chars, 0, u64::MAX)
    }
}

/// `str::parse::<i64>`
pub fn parse_i64(s: &str) -> (r: Option<i64>)
    ensures
        r == match signed(s@) {
            Some(n) => if i64::MIN <= n <= i64::MAX {
                Some(n as i64)
            } else {
                None
            },
            None => None,
        },
{
    let chars = to_chars(s);
    if chars.len() > 0 && chars[0] == '-' {
        assert(chars@.skip(1) =~= s@.drop_first());
        match natural_of(&chars, 1, 0x8000_0000_0000_0000) {
            Some(n) => Some((-(n as i128)) as i64),
            None => None,
        }
    } else {
        assert(chars@.skip(0) =~= s@);
        let from: usize = if chars.len() > 0 && chars[0] == '+' {
            1
        } else {
            0
        };
        assert(from == 1 ==> chars@.skip(1) =~= s@.drop_first());
        match natural_of(&chars, from, 0x7fff_ffff_ffff_ffff) {
            Some(n) => Some(n as i64),
            None => None,
        }
    }
}

/// `str::parse::<usize>`
pub fn parse_usize(s: &str) -> (r: Option<usize>)
    ensures
        r == match unsigned(s@) {
            Some(n) => if n <= usize::MAX {
                Some(n as usize)
            } else {
                None
            },
            None => None,
        },
{
    match parse_u64(s) {
        Some(n) => if n <= usize::MAX as u64 {
            Some(n as usize)
        } else {
            None
        },
        None => None,
    }
}

// ---------------------------------------------------------------------------
// Numbers that are no integers
// ---------------------------------------------------------------------------

pub open spec fn zeros(n: int) -> Seq<char> {
    Seq::new(
        (if n > 0 {
            n
        } else {
            0
        }) as nat,
        |i: int| '0',
    )
}

pub open spec fn all_zeros(s: Seq<char>) -> bool {
    forall|i: int| 0 <= i < s.len() ==> #[trigger] s[i] == '0'
}

/// The number whose point stands behind so many of the digits: digits before the point,
/// at least one, and those behind it unless they are all zeros.
pub open spec fn pointed(all: Seq<char>, place: int) -> Seq<char> {
    let whole = if place <= 0 {
        seq!['0']
    } else if place <= all.len() {
        all.take(place)
    } else {
        all + zeros(place - all.len())
    };
    let fraction = if place <= 0 {
        zeros(-place) + all
    } else if place <= all.len() {
        all.skip(place)
    } else {
        Seq::empty()
    };
    if all_zeros(fraction) {
        whole
    } else {
        whole + seq!['.'] + fraction
    }
}

/// The greatest exponent, of either sign, that is written out.
pub const EXPONENT_LIMIT: i64 = 400;

/// A number without a sign written without an exponent.
pub open spec fn plain_size(s: Seq<char>) -> Seq<char> {
    let (mantissa, exponent) = match split_once(s, "e"@) {
        Some((m, e)) => (m, signed(e)),
        None => (s, Some(0)),
    };
    match exponent {
        Some(e) => if -EXPONENT_LIMIT <= e <= EXPONENT_LIMIT {
            match split_once(mantissa, "."@) {
                Some((whole, fraction)) => pointed(whole + fraction, whole.len() + e),
                None => pointed(mantissa, mantissa.len() + e),
            }
        } else {
            s
        },
        None => s,
    }
}

/// A number written without an exponent, and without a fraction that is zero.
pub open spec fn plain(s: Seq<char>) -> Seq<char> {
    if s.len() > 0 && s[0] == '-' {
        seq!['-'] + plain_size(s.drop_first())
    } else {
        plain_size(s)
    }
}

fn push_zeros(s: &mut String, n: usize)
    ensures
        final(s)@ == old(s)@ + zeros(n as int),
{
    let mut i: usize = 0;
    assert(s@ + zeros(0) =~= s@);
    let ghost start = s@;
    while i < n
        invariant
            i <= n,
            s@ == start + zeros(i as int),
        decreases n - i,
    {
        s.push('0');
        i += 1;
        assert(s@ =~= start + zeros(i as int));
    }
}

fn only_zeros(s: &str) -> (r: bool)
    ensures
        r == all_zeros(s@),
{
    let chars = to_chars(s);
    let mut i: usize = 0;
    while i < chars.len()
        invariant
            i <= chars.len(),
            chars@ == s@,
            forall|j: int| 0 <= j < i ==> #[trigger] s@[j] == '0',
        decreases chars.len() - i,
    {
        if chars[i] != '0' {
            assert(s@[i as int] != '0');
            return false;
        }
        i += 1;
    }
    true
}

fn point(all: &str, place: i128) -> (r: String)
    requires
        -EXPONENT_LIMIT <= place,
        place <= all@.len() + EXPONENT_LIMIT,
    ensures
        r@ == pointed(all@, place as int),
{
    let chars = to_chars(all);
    let mut whole = String::new();
    let mut fraction = String::new();
    if place <= 0 {
        whole.push('0');
        push_zeros(&mut fraction, (0 - place) as usize);
        fraction = fraction.concat(all);
        assert(whole@ =~= seq!['0']);
        assert(fraction@ =~= zeros(-place) + all@);
    } else if place <= chars.len() as i128 {
        let at: usize = place as usize;
        whole = from_range(&chars, 0, at);
        fraction = from_range(&chars, at, chars.len());
        assert(whole@ =~= all@.take(place as int));
        assert(fraction@ =~= all@.skip(place as int));
    } else {
        let more: usize = (place - chars.len() as i128) as usize;
        whole = whole.concat(all);
        push_zeros(&mut whole, more);
        assert(whole@ =~= all@ + zeros(place - all@.len()));
        assert(fraction@ =~= Seq::empty());
    }
    if only_zeros(fraction.as_str()) {
        whole
    } else {
        whole.push('.');
        let r = whole.concat(fraction.as_str());
        assert(r@ =~= whole@ + fraction@);
        r
    }
}

fn plain_size_of(s: &str) -> (r: String)
    ensures
        r@ == plain_size(s@),
{
    let (mantissa, exponent): (String, Option<i64>) = match splitted_once(s, "e") {
        Some((m, e)) => (m, parse_i64(e.as_str())),
        None => (s.to_owned(), Some(0)),
    };
    let e: i64 = match exponent {
        Some(e) => e,
        None => {
            return s.to_owned();
        },
    };
    if e < -EXPONENT_LIMIT || e > EXPONENT_LIMIT {
        return s.to_owned();
    }
    match splitted_once(mantissa.as_str(), ".") {
        Some((whole, fraction)) => {
            let n: usize = to_chars(whole.as_str()).len();
            point(whole.clone().concat(fraction.as_str()).as_str(), n as i128 + e as i128)
        },
        None => {
            let n: usize = to_chars(mantissa.as_str()).len();
            point(mantissa.as_str(), n as i128 + e as i128)
        },
    }
}

/// A number written without an exponent, and without a fraction that is zero.
pub fn plain_number(s: &str) -> (r: String)
    ensures
        r@ == plain(s@),
{
    let chars = to_chars(s);
    if chars.len() > 0 && chars[0] == '-' {
        let rest = from_range(&chars, 1, chars.len());
        assert(rest@ =~= s@.drop_first());
        let mut r = String::new();
        r.push('-');
        assert(r@ =~= seq!['-']);
        r.concat(plain_size_of(rest.as_str()).as_str())
    } else {
        plain_size_of(s)
    }
}

// ---------------------------------------------------------------------------
// Integers as floating-point numbers
// ---------------------------------------------------------------------------

/// Below this, a double-precision number holds every integer.
pub const EXACT_LIMIT: u128 = 0x20_0000_0000_0000;

/// How far apart the double-precision numbers are that lie around an integer, where they
/// are integers.
pub open spec fn spacing(m: int) -> int
    decreases m,
{
    if m < EXACT_LIMIT {
        1
    } else {
        2 * spacing(m / 2)
    }
}

/// The double-precision number that is nearest to an integer; of two that are equally
/// near, the even one.
pub open spec fn nearest(m: int) -> int {
    let unit = spacing(m);
    let below = m / unit;
    let rest = m % unit;
    if 2 * rest < unit || (2 * rest == unit && below % 2 == 0) {
        below * unit
    } else {
        (below + 1) * unit
    }
}

/// The multiple of a power of ten that is closest to a double-precision number and reads
/// as it, where one does.
pub open spec fn round_to(number: int, power: int) -> Option<int> {
    let below = number / power * power;
    let above = below + power;
    if nearest(below) == number && (nearest(above) != number || 2 * (number - below) < power) {
        Some(below)
    } else if nearest(above) == number {
        Some(above)
    } else {
        None
    }
}

/// The integer with the fewest digits before its zeros that reads as a double-precision
/// number: what is found, unless a multiple of a greater power of ten reads as it too.
pub open spec fn fewest_digits(number: int, found: int, power: int) -> int
    decreases 100 * number + 10 - power,
{
    if 0 < power <= 10 * number {
        match round_to(number, power) {
            Some(rounder) => fewest_digits(number, rounder, 10 * power),
            None => found,
        }
    } else {
        found
    }
}

/// A natural number as its nearest double-precision number is shown.
pub open spec fn shown_size(m: int) -> int {
    fewest_digits(nearest(m), nearest(m), 10)
}

/// An integer as the floating-point number that it stands for is shown. One that has more
/// than 64 bits stands for none, and is shown as it is.
pub open spec fn shown_number(n: int) -> Seq<char> {
    if i64::MIN <= n < 0 {
        seq!['-'] + digits(shown_size(-n) as nat)
    } else if 0 <= n <= u64::MAX {
        digits(shown_size(n) as nat)
    } else {
        decimal(n)
    }
}

proof fn spacing_is_small(m: int)
    ensures
        1 <= spacing(m),
        m >= 1 ==> spacing(m) <= m,
    decreases m,
{
    if m >= EXACT_LIMIT {
        spacing_is_small(m / 2);
    }
}

proof fn nearest_is_near(m: int)
    requires
        m >= 0,
    ensures
        0 <= nearest(m) <= 2 * m,
{
    spacing_is_small(m);
    let unit = spacing(m);
    vstd::arithmetic::div_mod::lemma_fundamental_div_mod(m, unit);
    vstd::arithmetic::div_mod::lemma_mod_bound(m, unit);
    if m == 0 {
        assert(m / unit == 0 && m % unit == 0) by (nonlinear_arith)
            requires
                m == 0,
                unit >= 1,
        ;
    }
    let below = m / unit;
    assert(below * unit == unit * below) by (nonlinear_arith);
    assert((below + 1) * unit == below * unit + unit) by (nonlinear_arith);
    vstd::arithmetic::div_mod::lemma_div_pos_is_pos(m, unit);
    assert(below * unit >= 0) by (nonlinear_arith)
        requires
            below >= 0,
            unit >= 1,
    ;
}

fn spacing_of(m: u128) -> (r: u128)
    ensures
        r == spacing(m as int),
        1 <= r,
        m >= 1 ==> r <= m,
    decreases m,
{
    proof {
        spacing_is_small(m as int);
    }
    if m < EXACT_LIMIT {
        1
    } else {
        let half = spacing_of(m / 2);
        2 * half
    }
}

fn nearest_of(m: u128) -> (r: u128)
    requires
        m <= 0x1000_0000_0000_0000_0000,
    ensures
        r == nearest(m as int),
        r <= 2 * m,
{
    let unit = spacing_of(m);
    let below: u128 = m / unit;
    let rest: u128 = m % unit;
    proof {
        nearest_is_near(m as int);
        vstd::arithmetic::div_mod::lemma_fundamental_div_mod(m as int, unit as int);
        vstd::arithmetic::div_mod::lemma_mod_bound(m as int, unit as int);
        assert(below * unit == unit * below) by (nonlinear_arith);
        assert((below + 1) * unit == below * unit + unit) by (nonlinear_arith);
        assert(below <= m) by (nonlinear_arith)
            requires
                unit >= 1,
                below * unit <= m,
                below >= 0,
        ;
    }
    if 2 * rest < unit || (2 * rest == unit && below % 2 == 0) {
        below * unit
    } else {
        (below + 1) * unit
    }
}

fn rounded_to(number: u128, power: u128) -> (r: Option<u128>)
    requires
        number <= 0x4_0000_0000_0000_0000,
        0 < power <= 10 * number,
    ensures
        match (r, round_to(number as int, power as int)) {
            (Some(a), Some(b)) => a == b && a <= number + power,
            (None, None) => true,
            _ => false,
        },
{
    proof {
        vstd::arithmetic::div_mod::lemma_fundamental_div_mod(number as int, power as int);
        vstd::arithmetic::div_mod::lemma_mod_bound(number as int, power as int);
        assert(number / power * power == power * (number / power)) by (nonlinear_arith);
    }
    let below: u128 = number / power * power;
    let above: u128 = below + power;
    let reads_above = nearest_of(above) == number;
    if nearest_of(below) == number && (!reads_above || 2 * (number - below) < power) {
        Some(below)
    } else if reads_above {
        Some(above)
    } else {
        None
    }
}

fn fewest_digits_of(number: u128) -> (r: u128)
    requires
        number <= 0x4_0000_0000_0000_0000,
    ensures
        r == fewest_digits(number as int, number as int, 10),
{
    let mut found: u128 = number;
    let mut power: u128 = 10;
    while power <= 10 * number
        invariant
            number <= 0x4_0000_0000_0000_0000,
            0 < power <= 100 * number + 10,
            fewest_digits(number as int, number as int, 10) == fewest_digits(
                number as int,
                found as int,
                power as int,
            ),
        decreases 100 * number + 10 - power,
    {
        match rounded_to(number, power) {
            Some(rounder) => {
                found = rounder;
                power = 10 * power;
            },
            None => {
                return found;
            },
        }
    }
    found
}

/// An integer as the floating-point number that it stands for is shown.
pub fn shown_number_of(n: i128) -> (r: String)
    ensures
        r@ == shown_number(n as int),
{
    if n < i64::MIN as i128 || n > u64::MAX as i128 {
        return decimal_of(n);
    }
    let size: u128 = if n < 0 {
        (0 - n) as u128
    } else {
        n as u128
    };
    let shown = fewest_digits_of(nearest_of(size));
    let text = digits_of(shown);
    if n < 0 {
        let mut r = String::new();
        r.push('-');
        assert(r@ =~= seq!['-']);
        r.concat(text.as_str())
    } else {
        text
    }
}

/// What is shown of a double-precision number reads as that number.
pub proof fn shown_reads_back(number: int, found: int, power: int)
    requires
        nearest(found) == number,
    ensures
        nearest(fewest_digits(number, found, power)) == number,
    decreases 100 * number + 10 - power,
{
    if 0 < power <= 10 * number {
        if let Some(rounder) = round_to(number, power) {
            shown_reads_back(number, rounder, 10 * power);
        }
    }
}

/// The first power of ten, from one on, of which no multiple reads as a number.
pub open spec fn last_power(number: int, power: int) -> int
    decreases 100 * number + 10 - power,
{
    if 0 < power <= 10 * number && round_to(number, power) is Some {
        last_power(number, 10 * power)
    } else {
        power
    }
}

proof fn spacing_grows(a: int, b: int)
    requires
        0 <= a <= b,
    ensures
        spacing(a) == spacing(b) || 2 * spacing(a) <= spacing(b),
    decreases b,
{
    spacing_is_small(a);
    if b >= EXACT_LIMIT {
        spacing_is_small(b / 2);
        if a >= EXACT_LIMIT {
            spacing_grows(a / 2, b / 2);
        }
    }
}

proof fn spacing_fits(m: int)
    requires
        m >= 0,
    ensures
        m < EXACT_LIMIT * spacing(m),
        spacing(m) > 1 ==> 2 * m >= EXACT_LIMIT * spacing(m),
    decreases m,
{
    if m >= EXACT_LIMIT {
        spacing_fits(m / 2);
    }
}

proof fn nearest_is_beside(m: int)
    requires
        m >= 0,
    ensures
        ({
            let unit = spacing(m);
            &&& unit >= 1
            &&& m / unit >= 0
            &&& m == m / unit * unit + m % unit
            &&& 0 <= m % unit < unit
            &&& m / unit * unit <= nearest(m) <= (m / unit + 1) * unit
            &&& (m / unit + 1) * unit == m / unit * unit + unit
        }),
{
    spacing_is_small(m);
    let unit = spacing(m);
    vstd::arithmetic::div_mod::lemma_fundamental_div_mod(m, unit);
    vstd::arithmetic::div_mod::lemma_mod_bound(m, unit);
    vstd::arithmetic::div_mod::lemma_div_pos_is_pos(m, unit);
    let below = m / unit;
    assert(below * unit == unit * below) by (nonlinear_arith);
    assert((below + 1) * unit == below * unit + unit) by (nonlinear_arith);
}

/// A greater integer has no lesser double-precision number nearest to it.
pub proof fn nearest_ascends(a: int, b: int)
    requires
        0 <= a <= b,
    ensures
        nearest(a) <= nearest(b),
{
    let u = spacing(a);
    let v = spacing(b);
    let p = a / u;
    let q = b / v;
    nearest_is_beside(a);
    nearest_is_beside(b);
    spacing_grows(a, b);
    spacing_fits(a);
    spacing_fits(b);
    if u == v {
        if p < q {
            assert((p + 1) * u <= q * u) by (nonlinear_arith)
                requires
                    p + 1 <= q,
                    u >= 1,
            ;
        } else {
            assert(p == q) by (nonlinear_arith)
                requires
                    p >= q,
                    a == p * u + a % u,
                    b == q * u + b % u,
                    0 <= a % u < u,
                    0 <= b % u < u,
                    a <= b,
                    u >= 1,
            ;
        }
    } else {
        let half: int = (EXACT_LIMIT / 2) as int;
        assert(p + 1 <= 2 * half) by (nonlinear_arith)
            requires
                p * u <= a,
                a < 2 * half * u,
                u >= 1,
        ;
        assert(half <= q) by (nonlinear_arith)
            requires
                2 * b >= 2 * half * v,
                b == q * v + b % v,
                0 <= b % v < v,
                v >= 1,
        ;
        assert((p + 1) * u <= 2 * half * u) by (nonlinear_arith)
            requires
                p + 1 <= 2 * half,
                u >= 1,
        ;
        assert(2 * half * u <= half * v) by (nonlinear_arith)
            requires
                2 * u <= v,
                half >= 0,
        ;
        assert(half * v <= q * v) by (nonlinear_arith)
            requires
                half <= q,
                v >= 1,
        ;
    }
}

proof fn a_multiple_is_found(number: int, power: int, y: int)
    requires
        number >= 0,
        power > 0,
        y >= 0,
        nearest(number) == number,
        nearest(y) == number,
        y % power == 0,
    ensures
        round_to(number, power) is Some,
{
    let k = number / power;
    let j = y / power;
    vstd::arithmetic::div_mod::lemma_fundamental_div_mod(number, power);
    vstd::arithmetic::div_mod::lemma_mod_bound(number, power);
    vstd::arithmetic::div_mod::lemma_fundamental_div_mod(y, power);
    vstd::arithmetic::div_mod::lemma_div_pos_is_pos(number, power);
    assert(k * power == power * k && j * power == power * j) by (nonlinear_arith);
    let below = k * power;
    assert(0 <= below) by (nonlinear_arith)
        requires
            k >= 0,
            power > 0,
            below == k * power,
    ;
    if y <= number {
        assert(j <= k) by (nonlinear_arith)
            requires
                j * power <= number,
                number < k * power + power,
                power > 0,
        ;
        assert(j * power <= k * power) by (nonlinear_arith)
            requires
                j <= k,
                power > 0,
        ;
        nearest_ascends(y, below);
        nearest_ascends(below, number);
    } else {
        assert(k + 1 <= j) by (nonlinear_arith)
            requires
                k * power <= number < j * power,
                power > 0,
        ;
        assert((k + 1) * power <= j * power) by (nonlinear_arith)
            requires
                k + 1 <= j,
                power > 0,
        ;
        assert((k + 1) * power == below + power) by (nonlinear_arith)
            requires
                below == k * power,
        ;
        nearest_ascends(number, below + power);
        nearest_ascends(below + power, y);
    }
}

proof fn nearest_is_not_far(m: int)
    requires
        m >= 0,
    ensures
        m <= 2 * nearest(m),
{
    nearest_is_beside(m);
    spacing_is_small(m);
    let unit = spacing(m);
    let below = m / unit;
    if m > 0 {
        assert(below >= 1) by (nonlinear_arith)
            requires
                m == below * unit + m % unit,
                0 <= m % unit < unit,
                unit <= m,
                below >= 0,
        ;
        assert(unit <= below * unit) by (nonlinear_arith)
            requires
                below >= 1,
                unit >= 1,
        ;
    }
}

/// No number with fewer digits before its zeros than the one that is shown reads as the
/// same double-precision number.
pub proof fn shown_is_shortest(number: int, power: int, y: int)
    requires
        number > 0,
        power > 0,
        nearest(number) == number,
        y >= 0,
        nearest(y) == number,
    ensures
        y % last_power(number, power) != 0,
    decreases 100 * number + 10 - power,
{
    if power <= 10 * number && round_to(number, power) is Some {
        shown_is_shortest(number, 10 * power, y);
    } else if y % power == 0 {
        a_multiple_is_found(number, power, y);
        nearest_is_not_far(y);
        nearest_is_near(y);
        assert(y >= power) by (nonlinear_arith)
            requires
                y % power == 0,
                y > 0,
                power > 0,
        ;
    }
}

/// What is shown is a multiple of the power of ten before that one.
pub proof fn shown_is_round(number: int, found: int, power: int)
    requires
        number > 0,
        power > 0,
        found % power == 0,
    ensures
        10 * fewest_digits(number, found, 10 * power) % last_power(number, 10 * power) == 0,
    decreases 100 * number + 10 - 10 * power,
{
    let next = 10 * power;
    let times = found / power;
    vstd::arithmetic::div_mod::lemma_fundamental_div_mod(found, power);
    assert(10 * found == times * next) by (nonlinear_arith)
        requires
            found == power * times,
            next == 10 * power,
    ;
    vstd::arithmetic::div_mod::lemma_mod_multiples_basic(times, next);
    if next <= 10 * number {
        if let Some(rounder) = round_to(number, next) {
            let k = number / next;
            assert((k * next) % next == 0 && (k * next + next) % next == 0) by (nonlinear_arith)
                requires
                    next > 0,
            ;
            shown_is_round(number, rounder, next);
        }
    }
}

} // verus!
